//! The core of a terminal editor for two lists: a checklist and a time log.
//!
//! `listview` holds what the two lists share: an ordered list with a cursor
//! and a one-slot register, and the laws of its operations. `todolist` and
//! `timesheet` are the two lists. `clock` is the time of day that the time
//! log is stamped with, `label` turns the text of a time entry into the label
//! its time is booked under, and `aggregate` sums the booked time by label.
//! `tracc` is the editor itself: both lists, the input mode and the focus,
//! and what each key does to them. Drawing, reading keys and the files on
//! disk are left to the program around this library.

pub mod aggregate;
pub mod clock;
pub mod label;
pub mod listview;
pub mod text;
pub mod timesheet;
pub mod todolist;
pub mod tracc;
