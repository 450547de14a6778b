use crate::clock::{now, ClockTime};
use crate::listview::{edited_at, ListEntry, ListOp, ListState, ListView};
use crate::timesheet::{sum_text, tasks_text, TimePoint, TimeSheet};
use crate::todolist::{Todo, TodoList};
use vstd::prelude::*;
use vstd::string::StringExecFns;

verus! {

/// Whether keys edit the text of the selected entry or command the lists.
#[derive(Clone, Copy, PartialEq, Eq, Structural, Debug)]
pub enum Mode {
    Insert,
    Normal,
}

/// Which list the keys go to: the checklist on top or the time log below.
#[derive(Clone, Copy, PartialEq, Eq, Structural, Debug)]
pub enum Focus {
    Top,
    Bottom,
}

/// A key as far as the editor tells keys apart.
#[derive(Clone, Copy, PartialEq, Eq, Structural, Debug)]
pub enum Key {
    Char(char),
    Esc,
    Backspace,
    Other,
}

/// The first key of a command of two keys, while the second is awaited.
#[derive(Clone, Copy, PartialEq, Eq, Structural, Debug)]
pub enum Pending {
    Nothing,
    Delete,
    Yank,
}

/// What is left for the terminal to do once a key is handled.
#[derive(Clone, Copy, PartialEq, Eq, Structural, Debug)]
pub enum Effect {
    Nothing,
    ShowCursor,
    HideCursor,
    Quit,
}

/// The editor: the two lists, the input mode and the focus.
pub struct Tracc {
    pub todos: TodoList,
    pub times: TimeSheet,
    pub input_mode: Mode,
    pub focus: Focus,
    pub pending: Pending,
}

/// Mode, focus and pending key are `mode`, `focus` and `pending`.
pub open spec fn controls_are(after: Tracc, mode: Mode, focus: Focus, pending: Pending) -> bool {
    after.input_mode == mode && after.focus == focus && after.pending == pending
}

/// Both lists are as they were.
pub open spec fn lists_kept(before: Tracc, after: Tracc) -> bool {
    after.todos.state() == before.todos.state() && after.times.state() == before.times.state()
}

/// The focused list has taken one step, `top` if it is the checklist and
/// `bottom` if it is the time log; the other list is as it was.
pub open spec fn focused_steps(before: Tracc, after: Tracc, top: ListOp<Todo>, bottom: ListOp<TimePoint>) -> bool {
    match before.focus {
        Focus::Top => {
            &&& after.todos.state() == before.todos.state().step(top)
            &&& after.times.state() == before.times.state()
        },
        Focus::Bottom => {
            &&& after.todos.state() == before.todos.state()
            &&& after.times.state() == before.times.state().step(bottom)
        },
    }
}

/// The text of the entry selected in the focused list has become what `edit`
/// makes of it; nothing else has changed. An empty list stays as it is.
pub open spec fn focused_text_edited(before: Tracc, after: Tracc, edit: spec_fn(Seq<char>) -> Seq<char>) -> bool {
    match before.focus {
        Focus::Top => {
            &&& text_edited(before.todos.state(), after.todos.state(), edit)
            &&& after.times.state() == before.times.state()
        },
        Focus::Bottom => {
            &&& after.todos.state() == before.todos.state()
            &&& text_edited(before.times.state(), after.times.state(), edit)
        },
    }
}

/// The text of the selected entry has become what `edit` makes of it;
/// nothing else has changed. An empty list stays as it is.
pub open spec fn text_edited<T: ListEntry>(
    before: ListState<T>,
    after: ListState<T>,
    edit: spec_fn(Seq<char>) -> Seq<char>,
) -> bool {
    &&& after.cursor == before.cursor
    &&& after.register == before.register
    &&& before.items.len() == 0 ==> after.items == before.items
    &&& before.items.len() > 0 ==> edited_at(
        before.items,
        after.items,
        before.current(),
        edit(before.items[before.current()].text()),
    )
}

/// A fresh, empty entry has been put behind the cursor of the focused list
/// and selected: an open todo, or a time entry stamped `now`.
pub open spec fn focused_opened(before: Tracc, after: Tracc, now: ClockTime) -> bool {
    match before.focus {
        Focus::Top => {
            &&& exists|item: Todo|
                {
                    &&& item.text@.len() == 0
                    &&& !item.done
                    &&& after.todos.state() == #[trigger] before.todos.state().inserted(item, None)
                }
            &&& after.times.state() == before.times.state()
        },
        Focus::Bottom => {
            &&& after.todos.state() == before.todos.state()
            &&& exists|item: TimePoint|
                {
                    &&& item.text@.len() == 0
                    &&& item.time == now
                    &&& after.times.state() == #[trigger] before.times.state().inserted(item, None)
                }
        },
    }
}

/// The check mark of the selected todo has been flipped; nothing else has
/// changed. An empty checklist stays as it is.
pub open spec fn todo_toggled(before: TodoList, after: TodoList) -> bool {
    &&& after.selected == before.selected
    &&& after.register == before.register
    &&& after.todos.len() == before.todos.len()
    &&& forall|i: int| 0 <= i < before.todos.len() && i != before.current_index() ==> after.todos[i] == before.todos[i]
    &&& before.todos.len() > 0 ==> {
        let i = before.current_index();
        &&& after.todos[i].text == before.todos[i].text
        &&& after.todos[i].done == !before.todos[i].done
    }
}

/// Editing has ended in both lists: each has dropped an entry left empty,
/// and arranged its entries.
pub open spec fn both_committed(before: Tracc, after: Tracc) -> bool {
    &&& after.todos.state() == before.todos.state().committed()
    &&& after.times.state().cursor == before.times.state().committed().cursor
    &&& after.times.state().register == before.times.state().committed().register
    &&& TimeSheet::settles(before.times.state().committed().items, after.times.state().items)
}

/// What a key does in normal mode when no command is pending.
pub open spec fn command_step(before: Tracc, key: Key, now: ClockTime, after: Tracc, effect: Effect) -> bool {
    let mode = before.input_mode;
    let focus = before.focus;
    match key {
        Key::Char('q') => {
            &&& lists_kept(before, after)
            &&& controls_are(after, mode, focus, Pending::Nothing)
            &&& effect == Effect::Quit
        },
        Key::Char('j') => {
            &&& focused_steps(before, after, ListOp::Down, ListOp::Down)
            &&& controls_are(after, mode, focus, Pending::Nothing)
            &&& effect == Effect::Nothing
        },
        Key::Char('k') => {
            &&& focused_steps(before, after, ListOp::Up, ListOp::Up)
            &&& controls_are(after, mode, focus, Pending::Nothing)
            &&& effect == Effect::Nothing
        },
        Key::Char('o') => {
            &&& focused_opened(before, after, now)
            &&& controls_are(after, Mode::Insert, focus, Pending::Nothing)
            &&& effect == Effect::ShowCursor
        },
        Key::Char('a') | Key::Char('A') => {
            &&& lists_kept(before, after)
            &&& controls_are(after, Mode::Insert, focus, Pending::Nothing)
            &&& effect == Effect::ShowCursor
        },
        Key::Char(' ') => {
            &&& if focus == Focus::Top {
                todo_toggled(before.todos, after.todos)
            } else {
                after.todos.state() == before.todos.state()
            }
            &&& after.times.state() == before.times.state()
            &&& controls_are(after, mode, focus, Pending::Nothing)
            &&& effect == Effect::Nothing
        },
        Key::Char('d') => {
            &&& lists_kept(before, after)
            &&& controls_are(after, mode, focus, Pending::Delete)
            &&& effect == Effect::Nothing
        },
        Key::Char('y') => {
            &&& lists_kept(before, after)
            &&& controls_are(after, mode, focus, Pending::Yank)
            &&& effect == Effect::Nothing
        },
        Key::Char('p') => {
            &&& focused_steps(before, after, ListOp::Paste, ListOp::Paste)
            &&& controls_are(after, mode, focus, Pending::Nothing)
            &&& effect == Effect::Nothing
        },
        Key::Char('\t') => {
            &&& lists_kept(before, after)
            &&& controls_are(
                after,
                mode,
                if focus == Focus::Top {
                    Focus::Bottom
                } else {
                    Focus::Top
                },
                Pending::Nothing,
            )
            &&& effect == Effect::Nothing
        },
        _ => {
            &&& lists_kept(before, after)
            &&& controls_are(after, mode, focus, Pending::Nothing)
            &&& effect == Effect::Nothing
        },
    }
}

/// What a key does when it is the second key of a command. `dd` removes
/// the selected entry of the focused list. Any other pair does nothing: the
/// second key is used up and does not count as a command of its own.
pub open spec fn second_key_step(before: Tracc, key: Key, after: Tracc, effect: Effect) -> bool {
    &&& controls_are(after, before.input_mode, before.focus, Pending::Nothing)
    &&& effect == Effect::Nothing
    &&& if before.pending == Pending::Delete && key == Key::Char('d') {
        focused_steps(before, after, ListOp::Remove, ListOp::Remove)
    } else {
        lists_kept(before, after)
    }
}

/// What a key does in insert mode.
pub open spec fn insert_step(before: Tracc, key: Key, after: Tracc, effect: Effect) -> bool {
    let focus = before.focus;
    match key {
        Key::Char('\n') | Key::Esc => {
            &&& both_committed(before, after)
            &&& controls_are(after, Mode::Normal, focus, before.pending)
            &&& effect == Effect::HideCursor
        },
        Key::Backspace => {
            &&& focused_text_edited(
                before,
                after,
                |text: Seq<char>|
                    if text.len() > 0 {
                        text.drop_last()
                    } else {
                        text
                    },
            )
            &&& controls_are(after, Mode::Insert, focus, before.pending)
            &&& effect == Effect::Nothing
        },
        Key::Char(chr) => {
            &&& focused_text_edited(before, after, |text: Seq<char>| text.push(chr))
            &&& controls_are(after, Mode::Insert, focus, before.pending)
            &&& effect == Effect::Nothing
        },
        _ => {
            &&& lists_kept(before, after)
            &&& controls_are(after, Mode::Insert, focus, before.pending)
            &&& effect == Effect::Nothing
        },
    }
}

/// What a key, pressed at the time `now`, makes of the editor, and what it
/// leaves for the terminal to do.
pub open spec fn key_step(before: Tracc, key: Key, now: ClockTime, after: Tracc, effect: Effect) -> bool {
    match before.input_mode {
        Mode::Insert => insert_step(before, key, after, effect),
        Mode::Normal => if before.pending == Pending::Nothing {
            command_step(before, key, now, after, effect)
        } else {
            second_key_step(before, key, after, effect)
        },
    }
}

/// The summary below the lists at the time `now`: the time worked, and on
/// the next line the time by tasks.
pub open spec fn summary_text(entries: Seq<TimePoint>, now: ClockTime) -> Seq<char> {
    "Sum for today: "@ + sum_text(entries, now) + seq!['\n'] + tasks_text(entries, now)
}

impl Tracc {
    /// The cursor of each list is on an entry, unless the list is empty.
    pub open spec fn wf(&self) -> bool {
        self.todos.state().wf() && self.times.state().wf()
    }

    /// The editor for what was loaded, in normal mode, with the focus on the
    /// checklist.
    pub fn new(todos: Option<Vec<Todo>>, times: Option<Vec<TimePoint>>) -> (tracc: Self)
        ensures
            tracc.wf(),
            tracc.input_mode == Mode::Normal,
            tracc.focus == Focus::Top,
            tracc.pending == Pending::Nothing,
            tracc.todos.register is None,
            tracc.times.register is None,
            tracc.todos.selected == 0,
            todos matches Some(loaded) ==> tracc.todos.todos == loaded,
            todos is None ==> tracc.todos.todos.len() == 1 && tracc.todos.todos[0].text@
                == "This is a list entry"@ && !tracc.todos.todos[0].done,
            times matches Some(loaded) ==> tracc.times.times == loaded && tracc.times.selected == if loaded.len()
                == 0 {
                0
            } else {
                loaded.len() - 1
            },
            times is None ==> tracc.times.times.len() == 1 && tracc.times.selected == 0
                && tracc.times.times[0].text@ == "start"@ && tracc.times.times[0].time.wf(),
    {
        Self {
            todos: TodoList::open_or_create(todos),
            times: TimeSheet::open_or_create(times),
            input_mode: Mode::Normal,
            focus: Focus::Top,
            pending: Pending::Nothing,
        }
    }

    /// Changes the input mode. Going back to normal mode ends the edit in
    /// both lists. The effect says what becomes of the terminal's cursor.
    pub fn set_mode(&mut self, mode: Mode) -> (effect: Effect)
        ensures
            controls_are(*final(self), mode, old(self).focus, old(self).pending),
            mode == Mode::Insert ==> lists_kept(*old(self), *final(self)) && effect == Effect::ShowCursor,
            mode == Mode::Normal ==> both_committed(*old(self), *final(self)) && effect == Effect::HideCursor,
            old(self).wf() ==> final(self).wf(),
    {
        let effect = match mode {
            Mode::Insert => Effect::ShowCursor,
            Mode::Normal => {
                proof {
                    if self.wf() {
                        self.todos.state().commit_drops_an_abandoned_entry();
                        self.times.state().commit_drops_an_abandoned_entry();
                    }
                }
                let ghost before = self.times.state().committed().items;
                self.todos.normal_mode();
                self.times.normal_mode();
                proof {
                    before.to_multiset_ensures();
                    self.times.times@.to_multiset_ensures();
                }
                Effect::HideCursor
            },
        };
        self.input_mode = mode;
        effect
    }

    /// Handles a key pressed at the time `now`.
    pub fn handle_key_at(&mut self, key: Key, now: ClockTime) -> (effect: Effect)
        ensures
            key_step(*old(self), key, now, *final(self), effect),
            old(self).wf() ==> final(self).wf(),
    {
        proof {
            if self.wf() {
                self.todos.state().step_keeps_cursor_in_range(ListOp::Up);
                self.todos.state().step_keeps_cursor_in_range(ListOp::Down);
                self.todos.state().step_keeps_cursor_in_range(ListOp::Remove);
                self.todos.state().step_keeps_cursor_in_range(ListOp::Paste);
                self.times.state().step_keeps_cursor_in_range(ListOp::Up);
                self.times.state().step_keeps_cursor_in_range(ListOp::Down);
                self.times.state().step_keeps_cursor_in_range(ListOp::Remove);
                self.times.state().step_keeps_cursor_in_range(ListOp::Paste);
            }
        }
        match self.input_mode {
            Mode::Normal => {
                let pending = self.pending;
                self.pending = Pending::Nothing;
                match pending {
                    Pending::Delete => {
                        if key == Key::Char('d') {
                            match self.focus {
                                Focus::Top => self.todos.remove_current(),
                                Focus::Bottom => self.times.remove_current(),
                            }
                        }
                        Effect::Nothing
                    },
                    Pending::Yank => Effect::Nothing,
                    Pending::Nothing => match key {
                        Key::Char('q') => Effect::Quit,
                        Key::Char('j') => {
                            match self.focus {
                                Focus::Top => self.todos.selection_down(),
                                Focus::Bottom => self.times.selection_down(),
                            }
                            Effect::Nothing
                        },
                        Key::Char('k') => {
                            match self.focus {
                                Focus::Top => self.todos.selection_up(),
                                Focus::Bottom => self.times.selection_up(),
                            }
                            Effect::Nothing
                        },
                        Key::Char('o') => {
                            match self.focus {
                                Focus::Top => self.todos.insert(Todo::default(), None),
                                Focus::Bottom => {
                                    let point = TimePoint::at("", now);
                                    proof {
                                        reveal_strlit("");
                                    }
                                    self.times.insert(point, None)
                                },
                            }
                            self.set_mode(Mode::Insert)
                        },
                        Key::Char('a') | Key::Char('A') => self.set_mode(Mode::Insert),
                        Key::Char(' ') => {
                            if self.focus == Focus::Top {
                                self.todos.toggle_current();
                            }
                            Effect::Nothing
                        },
                        Key::Char('d') => {
                            self.pending = Pending::Delete;
                            Effect::Nothing
                        },
                        Key::Char('y') => {
                            self.pending = Pending::Yank;
                            Effect::Nothing
                        },
                        Key::Char('p') => {
                            match self.focus {
                                Focus::Top => self.todos.paste(),
                                Focus::Bottom => self.times.paste(),
                            }
                            Effect::Nothing
                        },
                        Key::Char('\t') => {
                            self.focus = match self.focus {
                                Focus::Top => Focus::Bottom,
                                Focus::Bottom => Focus::Top,
                            };
                            Effect::Nothing
                        },
                        _ => Effect::Nothing,
                    },
                }
            },
            Mode::Insert => match key {
                Key::Char('\n') | Key::Esc => self.set_mode(Mode::Normal),
                Key::Backspace => {
                    match self.focus {
                        Focus::Top => self.todos.backspace(),
                        Focus::Bottom => self.times.backspace(),
                    }
                    Effect::Nothing
                },
                Key::Char(x) => {
                    match self.focus {
                        Focus::Top => self.todos.append_to_current(x),
                        Focus::Bottom => self.times.append_to_current(x),
                    }
                    Effect::Nothing
                },
                _ => Effect::Nothing,
            },
        }
    }

    /// Handles a key pressed now.
    pub fn handle_key(&mut self, key: Key) -> (effect: Effect)
        ensures
            exists|now: ClockTime| now.wf() && key_step(*old(self), key, now, *final(self), effect),
            old(self).wf() ==> final(self).wf(),
    {
        self.handle_key_at(key, now())
    }

    /// The summary below the lists at the time `now`.
    pub fn summary_at(&self, now: ClockTime) -> (text: String)
        ensures
            text@ == summary_text(self.times.times@, now),
    {
        let mut text = "Sum for today: ".to_owned();
        text.append(self.times.sum_as_str_at(now).as_str());
        text.push('\n');
        text.append(self.times.time_by_tasks_at(now).as_str());
        text
    }

    /// The summary below the lists as of now.
    pub fn summary(&self) -> (text: String)
        ensures
            exists|now: ClockTime| now.wf() && text@ == summary_text(self.times.times@, now),
    {
        self.summary_at(now())
    }

    /// The entry to highlight in the checklist: the selected one while the
    /// checklist has the focus.
    pub fn todo_selection(&self) -> (selection: Option<usize>)
        ensures
            selection == if self.focus == Focus::Top {
                Some(self.todos.selected)
            } else {
                None
            },
    {
        if self.focus == Focus::Top {
            Some(self.todos.selected)
        } else {
            None
        }
    }

    /// The entry to highlight in the time log: the selected one while the
    /// time log has the focus.
    pub fn time_selection(&self) -> (selection: Option<usize>)
        ensures
            selection == if self.focus == Focus::Bottom {
                Some(self.times.selected)
            } else {
                None
            },
    {
        if self.focus == Focus::Bottom {
            Some(self.times.selected)
        } else {
            None
        }
    }
}

} // verus!
