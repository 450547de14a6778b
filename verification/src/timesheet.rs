use crate::aggregate::{
    bookings, duration_text, format_duration, group_durations, grouping, pause_total, total_but,
    total_excluding_pause, total_for, Booking, TaskTime,
};
use crate::clock::{now, ClockTime};
use crate::label::{effective_text, label_of, END_TEXT, MAIN_PAUSE_TEXT};
use crate::listview::{ListEntry, ListState, ListView};
use crate::text::{join, joined, push_two_digits, same_text, two_digits, views};
use vstd::prelude::*;
use vstd::string::StringExecFns;

verus! {

/// One line of the time log: what was begun, and when.
#[derive(Clone, Debug)]
pub struct TimePoint {
    pub text: String,
    pub time: ClockTime,
}

/// The time log with its cursor and register.
pub struct TimeSheet {
    pub times: Vec<TimePoint>,
    pub selected: usize,
    pub register: Option<TimePoint>,
}

/// A `TimePoint` as a mathematical value: the text as a sequence of
/// characters and the time in nanoseconds since midnight.
pub struct Mark {
    pub text: Seq<char>,
    pub nanos: int,
}

impl View for TimePoint {
    type V = Mark;

    open spec fn view(&self) -> Mark {
        Mark { text: self.text@, nanos: self.time.nanos() }
    }
}

impl TimePoint {
    /// An entry with the given text, stamped with the current time.
    pub fn new(text: &str) -> (point: Self)
        ensures
            point.text@ == text@,
            point.time.wf(),
    {
        Self::at(text, now())
    }

    /// An entry with the given text and time.
    pub fn at(text: &str, time: ClockTime) -> (point: Self)
        ensures
            point.text@ == text@,
            point.time == time,
    {
        Self { text: text.to_owned(), time }
    }
}

impl Default for TimePoint {
    fn default() -> (point: Self)
        ensures
            point.text@ == Seq::<char>::empty(),
            point.time.wf(),
    {
        let point = TimePoint::new("");
        proof {
            reveal_strlit("");
        }
        point
    }
}

impl ListEntry for TimePoint {
    open spec fn text(&self) -> Seq<char> {
        self.text@
    }

    /// Hour and minute in brackets, two digits each, a blank, and the text.
    open spec fn rendered(&self) -> Seq<char> {
        seq!['['] + two_digits(self.time.hour as int) + seq![':'] + two_digits(self.time.minute as int)
            + seq![']', ' '] + self.text@
    }

    open spec fn is_edit_of(&self, before: &Self, text: Seq<char>) -> bool {
        self.text@ == text && self.time == before.time
    }

    fn duplicate(&self) -> (copy: Self) {
        TimePoint { text: self.text.clone(), time: self.time }
    }

    fn render(&self) -> (line: String) {
        let mut line = String::new();
        line.push('[');
        push_two_digits(&mut line, self.time.hour as i128);
        line.push(':');
        push_two_digits(&mut line, self.time.minute as i128);
        line.push(']');
        line.push(' ');
        line.append(self.text.as_str());
        line
    }
}

/// The entries stand in the order of their times.
pub open spec fn in_time_order(entries: Seq<TimePoint>) -> bool {
    forall|i: int, j: int| 0 <= i < j < entries.len() ==> entries[i].time.nanos() <= entries[j].time.nanos()
}

/// The entries stamped with the time `nanos`, in the order they stand in.
pub open spec fn stamped(entries: Seq<TimePoint>, nanos: int) -> Seq<TimePoint> {
    entries.filter(|entry: TimePoint| entry.time.nanos() == nanos)
}

/// `after` holds the entries of `before` in the order of their times, and
/// entries with the same time in the order that they had in `before`.
pub open spec fn is_time_sorted(before: Seq<TimePoint>, after: Seq<TimePoint>) -> bool {
    &&& after.to_multiset() == before.to_multiset()
    &&& in_time_order(after)
    &&& forall|nanos: int| stamped(after, nanos) == stamped(before, nanos)
}

/// `<[T]>::sort_by_key` with the nanoseconds since midnight as the key. The
/// sort keeps every entry, puts them in the order of their keys and, being
/// stable, leaves entries with equal keys in the order they had.
#[verifier::external_body]
pub(crate) fn sort_by_time(entries: &mut Vec<TimePoint>)
    ensures
        is_time_sorted(old(entries)@, final(entries)@),
{
    entries.sort_by_key(|entry| entry.time.nanoseconds_since_midnight())
}

/// The view of each entry, in order.
pub open spec fn marks(entries: Seq<TimePoint>) -> Seq<Mark> {
    entries.map_values(|entry: TimePoint| entry@)
}

/// Whether a log whose last entry is `last` is still open at the time
/// `now`, so that its last task runs on until now. It is closed when the
/// last entry is a pause or the end of the day, or lies in the future.
pub open spec fn is_open(last: Option<Mark>, now: int) -> bool {
    match last {
        Some(mark) => {
            &&& label_of(mark.text) != MAIN_PAUSE_TEXT@
            &&& label_of(mark.text) != END_TEXT@
            &&& mark.nanos <= now
        },
        None => true,
    }
}

/// The last of the marks, if there is any.
pub open spec fn last_mark(marks: Seq<Mark>) -> Option<Mark> {
    if marks.len() > 0 {
        Some(marks.last())
    } else {
        None
    }
}

/// The marks, with an end at the time `now` behind them if they are still
/// open then.
pub open spec fn closed_at(marks: Seq<Mark>, now: int) -> Seq<Mark> {
    if is_open(last_mark(marks), now) {
        marks.push(Mark { text: END_TEXT@, nanos: now })
    } else {
        marks
    }
}

/// For every mark but the last, the span from it to the next one, booked
/// under the text of the mark.
pub open spec fn pair_spans(marks: Seq<Mark>) -> Seq<Booking> {
    Seq::new(
        if marks.len() > 0 {
            (marks.len() - 1) as nat
        } else {
            0
        },
        |i: int| Booking { label: marks[i].text, nanos: marks[i + 1].nanos - marks[i].nanos },
    )
}

/// The spans, each booked under the label of its text.
pub open spec fn labelled(spans: Seq<Booking>) -> Seq<Booking> {
    spans.map_values(|span: Booking| Booking { label: label_of(span.label), nanos: span.nanos })
}

/// What the entries book at the time `now`: for each entry the span to the
/// next one, or to `now` for the last entry of an open log, under the label
/// of the entry.
pub open spec fn spans_at(entries: Seq<TimePoint>, now: ClockTime) -> Seq<Booking> {
    labelled(pair_spans(closed_at(marks(entries), now.nanos())))
}

/// The line of a group in the summary: its label, a colon and a blank, and
/// its time.
pub open spec fn task_line(group: Booking) -> Seq<char> {
    group.label + ": "@ + duration_text(group.nanos)
}

/// The lines of the groups, in their order, without that of the pause.
pub open spec fn task_lines(groups: Seq<Booking>) -> Seq<Seq<char>>
    decreases groups.len(),
{
    if groups.len() == 0 {
        Seq::empty()
    } else if groups.last().label == MAIN_PAUSE_TEXT@ {
        task_lines(groups.drop_last())
    } else {
        task_lines(groups.drop_last()).push(task_line(groups.last()))
    }
}

/// The summary by tasks at the time `now`: the line of every label but the
/// pause, in the order of the labels, with a bar between each two.
pub open spec fn tasks_text(entries: Seq<TimePoint>, now: ClockTime) -> Seq<char> {
    joined(task_lines(grouping(spans_at(entries, now))), " | "@)
}

/// The time worked at the time `now`: all that is booked but the pause,
/// which is what the groups of all labels but the pause hold together
/// (`grouping_keeps_the_sum`).
pub open spec fn sum_text(entries: Seq<TimePoint>, now: ClockTime) -> Seq<char> {
    duration_text(total_but(spans_at(entries, now), MAIN_PAUSE_TEXT@))
}

/// The line of the pause at the time `now`: all that is booked under the
/// pause, which is what the group of the pause holds, and zero if there is
/// no such group (`group_holds_the_total`).
pub open spec fn pause_text(entries: Seq<TimePoint>, now: ClockTime) -> Seq<char> {
    MAIN_PAUSE_TEXT@ + ": "@ + duration_text(total_for(spans_at(entries, now), MAIN_PAUSE_TEXT@))
}

/// `itertools::Itertools::tuple_windows` on the items, for windows of two:
/// each item paired with the one behind it, in order. Fewer than two items
/// give no pair.
#[verifier::external_body]
pub(crate) fn adjacent_pairs<'a, T>(items: &'a Vec<T>) -> (pairs: Vec<(&'a T, &'a T)>)
    ensures
        pairs.len() == if items.len() == 0 {
            0
        } else {
            items.len() - 1
        },
        forall|i: int| 0 <= i < pairs.len() ==> *pairs[i].0 == items[i] && *pairs[i].1 == items[i + 1],
{
    itertools::Itertools::tuple_windows(items.iter()).collect()
}

/// For every entry but the last, the span from it to the next one, booked
/// under the text of the entry. An `end` counts as one more entry behind the
/// others.
pub fn durations_by_adjacent_pair(entries: &Vec<TimePoint>, end: &Option<TimePoint>) -> (spans: Vec<
    TaskTime,
>)
    ensures
        bookings(spans@) == pair_spans(
            match end {
                Some(last) => marks(entries@).push(last@),
                None => marks(entries@),
            },
        ),
        forall|i: int| 0 <= i < spans.len() ==> (#[trigger] spans[i]).duration.within_limit(),
{
    let ghost all = match end {
        Some(last) => marks(entries@).push(last@),
        None => marks(entries@),
    };
    let mut points: Vec<&TimePoint> = Vec::new();
    let mut i: usize = 0;
    while i < entries.len()
        invariant
            i <= entries.len(),
            points.len() == i,
            forall|k: int| 0 <= k < i ==> *points[k] == entries[k],
        decreases entries.len() - i,
    {
        points.push(&entries[i]);
        i = i + 1;
    }
    if let Some(last) = end {
        points.push(last);
    }
    assert forall|k: int| 0 <= k < points.len() implies (*points[k])@ == all[k] by {}
    let pairs = adjacent_pairs(&points);
    let mut spans: Vec<TaskTime> = Vec::new();
    let mut k: usize = 0;
    while k < pairs.len()
        invariant
            k <= pairs.len(),
            pairs.len() == pair_spans(all).len(),
            points.len() == all.len(),
            forall|j: int| 0 <= j < points.len() ==> (*points[j])@ == all[j],
            forall|j: int| 0 <= j < pairs.len() ==> **pairs[j].0 == *points[j] && **pairs[j].1 == *points[j + 1],
            spans.len() == k,
            forall|j: int| 0 <= j < k ==> (#[trigger] spans[j])@ == pair_spans(all)[j],
            forall|j: int| 0 <= j < k ==> (#[trigger] spans[j]).duration.within_limit(),
        decreases pairs.len() - k,
    {
        let prev: &TimePoint = *pairs[k].0;
        let next: &TimePoint = *pairs[k].1;
        spans.push(TaskTime { label: prev.text.clone(), duration: next.time.since(prev.time) });
        k = k + 1;
    }
    spans
}

/// Books every span under the label of its text.
pub fn label_durations(spans: &Vec<TaskTime>) -> (named: Vec<TaskTime>)
    ensures
        bookings(named@) == labelled(bookings(spans@)),
        named.len() == spans.len(),
        forall|i: int| 0 <= i < named.len() ==> (#[trigger] named[i]).duration == spans[i].duration,
{
    let mut named: Vec<TaskTime> = Vec::new();
    let mut k: usize = 0;
    while k < spans.len()
        invariant
            k <= spans.len(),
            named.len() == k,
            forall|j: int|
                0 <= j < k ==> (#[trigger] named[j])@ == (Booking {
                    label: label_of(spans[j].label@),
                    nanos: spans[j].duration.nanoseconds as int,
                }),
            forall|j: int| 0 <= j < k ==> (#[trigger] named[j]).duration == spans[j].duration,
        decreases spans.len() - k,
    {
        named.push(TaskTime { label: effective_text(spans[k].label.clone()), duration: spans[k].duration });
        k = k + 1;
    }
    named
}

impl TimeSheet {
    /// The time log for what was loaded: the loaded entries, or a single
    /// entry `start` at the current time when nothing was. The cursor starts
    /// on the last entry.
    pub fn open_or_create(loaded: Option<Vec<TimePoint>>) -> (sheet: Self)
        ensures
            sheet.state().wf(),
            sheet.register is None,
            loaded matches Some(times) ==> sheet.times == times && sheet.selected == if times.len() == 0 {
                0
            } else {
                times.len() - 1
            },
            loaded is None ==> {
                &&& sheet.times.len() == 1
                &&& sheet.selected == 0
                &&& sheet.times[0].text@ == "start"@
                &&& sheet.times[0].time.wf()
            },
    {
        let times = match loaded {
            Some(times) => times,
            None => {
                let mut seed = Vec::new();
                seed.push(TimePoint::new("start"));
                seed
            },
        };
        let selected = times.len().saturating_sub(1);
        Self { times, selected, register: None }
    }

    /// The line of every entry, in order.
    pub fn printable(&self) -> (lines: Vec<String>)
        ensures
            lines.len() == self.times.len(),
            forall|i: int| 0 <= i < lines.len() ==> lines[i]@ == self.times[i].rendered(),
    {
        let mut lines: Vec<String> = Vec::new();
        let mut i: usize = 0;
        while i < self.times.len()
            invariant
                i <= self.times.len(),
                lines.len() == i,
                forall|k: int| 0 <= k < i ==> lines[k]@ == self.times[k].rendered(),
            decreases self.times.len() - i,
        {
            lines.push(self.times[i].render());
            i = i + 1;
        }
        lines
    }

    /// The end of an open log: an entry `end` at the time `now`, unless the
    /// last entry is a pause or an end already, or lies in the future.
    pub fn maybe_end_time(last_time: Option<&TimePoint>, now: ClockTime) -> (end: Option<TimePoint>)
        ensures
            end is Some <==> is_open(
                match last_time {
                    Some(last) => Some(last@),
                    None => None,
                },
                now.nanos(),
            ),
            end matches Some(point) ==> point.text@ == END_TEXT@ && point.time == now,
    {
        let open = match last_time {
            Some(last) => {
                let label = effective_text(last.text.clone());
                !same_text(label.as_str(), MAIN_PAUSE_TEXT) && !same_text(label.as_str(), END_TEXT)
                    && !last.time.is_after(now)
            },
            None => true,
        };
        if open {
            Some(TimePoint::at(END_TEXT, now))
        } else {
            None
        }
    }

    /// What the entries book at the time `now`, span by span.
    pub fn spans_at(&self, now: ClockTime) -> (spans: Vec<TaskTime>)
        ensures
            bookings(spans@) == spans_at(self.times@, now),
            forall|i: int| 0 <= i < spans.len() ==> (#[trigger] spans[i]).duration.within_limit(),
    {
        let len = self.times.len();
        let last = if len > 0 { Some(&self.times[len - 1]) } else { None };
        let end = TimeSheet::maybe_end_time(last, now);
        let raw = durations_by_adjacent_pair(&self.times, &end);
        label_durations(&raw)
    }

    /// The time booked under each label at the time `now`, in the order of
    /// the labels.
    pub fn grouped_times_at(&self, now: ClockTime) -> (groups: Vec<TaskTime>)
        ensures
            bookings(groups@) == grouping(spans_at(self.times@, now)),
    {
        let spans = self.spans_at(now);
        group_durations(&spans)
    }

    /// The time booked under each label up to now.
    pub fn grouped_times(&self) -> (groups: Vec<TaskTime>)
        ensures
            exists|now: ClockTime| now.wf() && bookings(groups@) == grouping(spans_at(self.times@, now)),
    {
        self.grouped_times_at(now())
    }

    /// The summary by tasks at the time `now`.
    pub fn time_by_tasks_at(&self, now: ClockTime) -> (text: String)
        ensures
            text@ == tasks_text(self.times@, now),
    {
        let groups = self.grouped_times_at(now);
        let mut lines: Vec<String> = Vec::new();
        let mut k: usize = 0;
        while k < groups.len()
            invariant
                k <= groups.len(),
                views(lines@) == task_lines(bookings(groups@).take(k as int)),
            decreases groups.len() - k,
        {
            assert(bookings(groups@).take(k + 1).drop_last() =~= bookings(groups@).take(k as int));
            if !same_text(groups[k].label.as_str(), MAIN_PAUSE_TEXT) {
                let mut line = groups[k].label.clone();
                line.append(": ");
                line.append(format_duration(&groups[k].duration).as_str());
                lines.push(line);
            }
            k = k + 1;
        }
        assert(bookings(groups@).take(k as int) =~= bookings(groups@));
        join(&lines, " | ")
    }

    /// The summary by tasks as of now.
    pub fn time_by_tasks(&self) -> (text: String)
        ensures
            exists|now: ClockTime| now.wf() && text@ == tasks_text(self.times@, now),
    {
        self.time_by_tasks_at(now())
    }

    /// The time worked at the time `now`.
    pub fn sum_as_str_at(&self, now: ClockTime) -> (text: String)
        ensures
            text@ == sum_text(self.times@, now),
    {
        let spans = self.spans_at(now);
        let total = total_excluding_pause(&spans);
        format_duration(&total)
    }

    /// The time worked up to now.
    pub fn sum_as_str(&self) -> (text: String)
        ensures
            exists|now: ClockTime| now.wf() && text@ == sum_text(self.times@, now),
    {
        self.sum_as_str_at(now())
    }

    /// The line of the pause at the time `now`.
    pub fn pause_time_at(&self, now: ClockTime) -> (text: String)
        ensures
            text@ == pause_text(self.times@, now),
    {
        let spans = self.spans_at(now);
        let duration = pause_total(&spans);
        let mut text = MAIN_PAUSE_TEXT.to_owned();
        text.append(": ");
        text.append(format_duration(&duration).as_str());
        text
    }

    /// The line of the pause as of now.
    pub fn pause_time(&self) -> (text: String)
        ensures
            exists|now: ClockTime| now.wf() && text@ == pause_text(self.times@, now),
    {
        self.pause_time_at(now())
    }

    /// Adjust the current time by `minutes` and round the result down to a
    /// multiple of five minutes, so that steps of five give even numbers.
    /// Nothing happens on an empty list.
    pub fn shift_current(&mut self, minutes: i64)
        ensures
            final(self).selected == old(self).selected,
            final(self).register == old(self).register,
            final(self).times.len() == old(self).times.len(),
            forall|i: int|
                0 <= i < old(self).times.len() && i != old(self).state().current() ==> final(self).times[i]
                    == old(self).times[i],
            old(self).times.len() > 0 ==> {
                let i = old(self).state().current();
                &&& final(self).times[i].text == old(self).times[i].text
                &&& final(self).times[i].time == old(self).times[i].time.moved_by(minutes as int).on_grid()
            },
    {
        let len = self.times.len();
        if len == 0 {
            return ;
        }
        let index = if self.selected < len { self.selected } else { len - 1 };
        self.times[index].time = self.times[index].time.shifted(minutes);
    }

    /// The selected entry. The list must not be empty.
    pub fn current(&self) -> (entry: &TimePoint)
        requires
            self.times.len() > 0,
        ensures
            *entry == self.times[self.state().current()],
    {
        let len = self.times.len();
        let index = if self.selected < len { self.selected } else { len - 1 };
        &self.times[index]
    }
}

impl ListView<TimePoint> for TimeSheet {
    open spec fn state(&self) -> ListState<TimePoint> {
        ListState { items: self.times@, cursor: self.selected as nat, register: self.register }
    }

    /// The time log keeps its entries in the order of their times.
    open spec fn settles(before: Seq<TimePoint>, after: Seq<TimePoint>) -> bool {
        is_time_sorted(before, after)
    }

    fn selection_pointer(&mut self) -> (pointer: &mut usize) {
        &mut self.selected
    }

    fn list(&mut self) -> (list: &mut Vec<TimePoint>) {
        &mut self.times
    }

    fn register(&mut self) -> (register: &mut Option<TimePoint>) {
        &mut self.register
    }

    fn normal_mode(&mut self) {
        if self.times.len() > 0 && self.current().text.as_str().is_empty() {
            self.remove_current();
            self.selected = self.selected.saturating_sub(1);
        }
        sort_by_time(&mut self.times);
    }

    fn append_to_current(&mut self, chr: char) {
        let len = self.times.len();
        if len == 0 {
            return ;
        }
        let index = if self.selected < len { self.selected } else { len - 1 };
        self.times[index].text.push(chr);
    }

    fn backspace(&mut self) {
        let len = self.times.len();
        if len == 0 {
            return ;
        }
        let index = if self.selected < len { self.selected } else { len - 1 };
        self.times[index].text.pop();
    }
}

/// A log that is still open at the time `now` books the time from its last
/// entry to `now` under the label of that entry, on top of what its entries
/// book among themselves. A closed log, and an empty one, books nothing
/// more than that.
pub proof fn open_log_runs_until_now(entries: Seq<TimePoint>, now: ClockTime)
    ensures
        ({
            let among = labelled(pair_spans(marks(entries)));
            if entries.len() > 0 && is_open(last_mark(marks(entries)), now.nanos()) {
                spans_at(entries, now) == among.push(
                    Booking {
                        label: label_of(entries.last().text@),
                        nanos: now.nanos() - entries.last().time.nanos(),
                    },
                )
            } else {
                spans_at(entries, now) == among
            }
        }),
{
}

/// There is one way only to sort entries by time and keep those of equal
/// time in order: whatever is sorted so is the same sequence.
pub proof fn time_sorting_is_unique(before: Seq<TimePoint>, a: Seq<TimePoint>, b: Seq<TimePoint>)
    requires
        is_time_sorted(before, a),
        is_time_sorted(before, b),
    ensures
        a == b,
{
    a.to_multiset_ensures();
    b.to_multiset_ensures();
    before.to_multiset_ensures();
    assert forall|nanos: int| stamped(a, nanos) == stamped(b, nanos) by {
        assert(stamped(a, nanos) == stamped(before, nanos));
        assert(stamped(b, nanos) == stamped(before, nanos));
    }
    same_stamps_same_order(a, b);
}

/// Two sequences in the order of their times that hold, for every time,
/// the same entries in the same order are the same.
proof fn same_stamps_same_order(a: Seq<TimePoint>, b: Seq<TimePoint>)
    requires
        in_time_order(a),
        in_time_order(b),
        a.len() == b.len(),
        forall|nanos: int| stamped(a, nanos) == stamped(b, nanos),
    ensures
        a == b,
    decreases a.len(),
{
    if a.len() > 0 {
        reveal(Seq::filter);
        let x = a.last();
        let y = b.last();
        let n = x.time.nanos();
        let m = y.time.nanos();
        // the last entries bear the latest time on either side, so the same time
        if n < m {
            nothing_stamped(a, m);
            assert(stamped(b, m) == stamped(b.drop_last(), m).push(y));
            assert(stamped(a, m) == stamped(b, m));
        }
        if m < n {
            nothing_stamped(b, n);
            assert(stamped(a, n) == stamped(a.drop_last(), n).push(x));
            assert(stamped(a, n) == stamped(b, n));
        }
        // and are the last of the entries of that time, so the same entry
        let a0 = a.drop_last();
        let b0 = b.drop_last();
        assert(stamped(a, n) == stamped(a0, n).push(x));
        assert(stamped(b, n) == stamped(b0, n).push(y));
        assert(stamped(a, n) == stamped(b, n));
        assert(stamped(a0, n).push(x).last() == stamped(b0, n).push(y).last());
        assert forall|nanos: int| stamped(a0, nanos) == stamped(b0, nanos) by {
            assert(stamped(a, nanos) == stamped(b, nanos));
            if nanos == n {
                assert(stamped(a0, n).push(x).drop_last() =~= stamped(a0, n));
                assert(stamped(b0, n).push(y).drop_last() =~= stamped(b0, n));
            }
        }
        assert(in_time_order(a0)) by {
            assert forall|i: int, j: int| 0 <= i < j < a0.len() implies a0[i].time.nanos() <= a0[j].time.nanos() by {
                assert(a[i].time.nanos() <= a[j].time.nanos());
            }
        }
        assert(in_time_order(b0)) by {
            assert forall|i: int, j: int| 0 <= i < j < b0.len() implies b0[i].time.nanos() <= b0[j].time.nanos() by {
                assert(b[i].time.nanos() <= b[j].time.nanos());
            }
        }
        same_stamps_same_order(a0, b0);
        assert(a =~= a0.push(x));
        assert(b =~= b0.push(y));
    }
}

/// Where no entry is stamped `nanos`, the entries stamped `nanos` are none.
proof fn nothing_stamped(entries: Seq<TimePoint>, nanos: int)
    requires
        forall|i: int| 0 <= i < entries.len() ==> entries[i].time.nanos() != nanos,
    ensures
        stamped(entries, nanos).len() == 0,
    decreases entries.len(),
{
    reveal(Seq::filter);
    if entries.len() > 0 {
        nothing_stamped(entries.drop_last(), nanos);
    }
}

} // verus!
