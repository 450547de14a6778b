use crate::clock::{trunc_div, trunc_rem, Duration, NANOS_PER_HOUR, NANOS_PER_MINUTE, SPAN_LIMIT};
use crate::label::MAIN_PAUSE_TEXT;
use crate::text::{
    compare_labels, label_lt, label_lt_irreflexive, label_lt_total, label_lt_transitive,
    push_signed_decimal, push_two_digits, same_text, signed_decimal, two_digits, LabelOrder,
};
use vstd::prelude::*;

verus! {

/// A span of time booked under a label.
#[derive(Clone, Debug)]
pub struct TaskTime {
    pub label: String,
    pub duration: Duration,
}

/// A `TaskTime` as a mathematical value: the label as a sequence of
/// characters and the span in nanoseconds.
pub struct Booking {
    pub label: Seq<char>,
    pub nanos: int,
}

impl View for TaskTime {
    type V = Booking;

    open spec fn view(&self) -> Booking {
        Booking { label: self.label@, nanos: self.duration.nanoseconds as int }
    }
}

/// The view of each task time, in order.
pub open spec fn bookings(tasks: Seq<TaskTime>) -> Seq<Booking> {
    tasks.map_values(|task: TaskTime| task@)
}

/// All the time that `spans` book under `label`.
pub open spec fn total_for(spans: Seq<Booking>, label: Seq<char>) -> int
    decreases spans.len(),
{
    if spans.len() == 0 {
        0
    } else {
        total_for(spans.drop_last(), label) + if spans.last().label == label {
            spans.last().nanos
        } else {
            0
        }
    }
}

/// All the time that `spans` book under any label but `label`.
pub open spec fn total_but(spans: Seq<Booking>, label: Seq<char>) -> int
    decreases spans.len(),
{
    if spans.len() == 0 {
        0
    } else {
        total_but(spans.drop_last(), label) + if spans.last().label == label {
            0
        } else {
            spans.last().nanos
        }
    }
}

/// Whether something is booked under `label`.
pub open spec fn has_label(spans: Seq<Booking>, label: Seq<char>) -> bool {
    exists|i: int| 0 <= i < spans.len() && (#[trigger] spans[i]).label == label
}

/// The labels stand in strictly rising order, so none stands twice.
pub open spec fn sorted_by_label(groups: Seq<Booking>) -> bool {
    forall|i: int, j: int|
        0 <= i < j < groups.len() ==> label_lt((#[trigger] groups[i]).label, (#[trigger] groups[j]).label)
}

/// `groups` is `spans` grouped by label: one booking for each label that
/// occurs in `spans`, holding all the time booked under it, in the order of
/// the labels.
pub open spec fn is_grouping(spans: Seq<Booking>, groups: Seq<Booking>) -> bool {
    &&& sorted_by_label(groups)
    &&& forall|i: int|
        0 <= i < groups.len() ==> has_label(spans, (#[trigger] groups[i]).label) && groups[i].nanos
            == total_for(spans, groups[i].label)
    &&& forall|k: int| 0 <= k < spans.len() ==> has_label(groups, (#[trigger] spans[k]).label)
}

/// The grouping of `spans`. There is exactly one: `grouping_exists` and
/// `grouping_is_unique`.
pub open spec fn grouping(spans: Seq<Booking>) -> Seq<Booking> {
    choose|groups: Seq<Booking>| is_grouping(spans, groups)
}

/// The text of a span: whole hours, a colon, and the minutes beyond the
/// hours with two digits. Seconds are cut off, so a span of less than a
/// minute reads `0:00`. A negative span has negative hours and minutes.
pub open spec fn duration_text(nanos: int) -> Seq<char> {
    signed_decimal(trunc_div(nanos, NANOS_PER_HOUR as int)) + seq![':'] + two_digits(
        trunc_rem(trunc_div(nanos, NANOS_PER_MINUTE as int), 60),
    )
}

/// `place` is where `label` belongs among `groups`: behind every smaller
/// label and before the rest.
pub open spec fn is_place_of(groups: Seq<Booking>, label: Seq<char>, place: int) -> bool {
    &&& 0 <= place <= groups.len()
    &&& forall|i: int| 0 <= i < place ==> label_lt((#[trigger] groups[i]).label, label)
    &&& place < groups.len() ==> !label_lt(groups[place].label, label)
}

/// What one more span does to a grouping, when `place` is where its label
/// belongs: it adds to the booking of its label, or takes a place of its own.
pub open spec fn with_span(groups: Seq<Booking>, span: Booking, place: int) -> Seq<Booking> {
    if place < groups.len() && groups[place].label == span.label {
        groups.update(place, Booking { label: span.label, nanos: groups[place].nanos + span.nanos })
    } else {
        groups.insert(place, span)
    }
}

/// Books one span: adds it to the booking of its label, or gives the label a
/// booking of its own at its place in the order. Returns the place.
fn book(groups: &mut Vec<TaskTime>, label: &str, duration: Duration) -> (place: usize)
    requires
        forall|i: int|
            0 <= i < old(groups).len() ==> i128::MIN <= (#[trigger] old(groups)[i]).duration.nanoseconds
                + duration.nanoseconds <= i128::MAX,
    ensures
        is_place_of(bookings(old(groups)@), label@, place as int),
        bookings(final(groups)@) == with_span(
            bookings(old(groups)@),
            Booking { label: label@, nanos: duration.nanoseconds as int },
            place as int,
        ),
{
    let ghost before = bookings(groups@);
    let mut place: usize = 0;
    let mut found = false;
    while place < groups.len()
        invariant_except_break
            !found,
        invariant
            place <= groups.len(),
            before == bookings(groups@),
            forall|i: int| 0 <= i < place ==> label_lt((#[trigger] before[i]).label, label@),
        ensures
            place <= groups.len(),
            before == bookings(groups@),
            forall|i: int| 0 <= i < place ==> label_lt((#[trigger] before[i]).label, label@),
            place < groups.len() ==> !label_lt(before[place as int].label, label@),
            found <==> place < groups.len() && before[place as int].label == label@,
        decreases groups.len() - place,
    {
        let order = compare_labels(groups[place].label.as_str(), label);
        if order == LabelOrder::Same {
            found = true;
            proof {
                label_lt_irreflexive(label@);
            }
            break ;
        }
        if order == LabelOrder::After {
            proof {
                label_lt_irreflexive(label@);
                if label_lt(before[place as int].label, label@) {
                    label_lt_transitive(label@, before[place as int].label, label@);
                }
            }
            break ;
        }
        place = place + 1;
    }
    if found {
        let sum = groups[place].duration.nanoseconds + duration.nanoseconds;
        groups[place].duration = Duration { nanoseconds: sum };
    } else {
        groups.insert(place, TaskTime { label: label.to_owned(), duration });
    }
    place
}

/// Folds the spans into one booking for each label, summing the spans of
/// the same label, in the order of the labels.
pub fn group_durations(spans: &Vec<TaskTime>) -> (groups: Vec<TaskTime>)
    requires
        forall|i: int| 0 <= i < spans.len() ==> (#[trigger] spans[i]).duration.within_limit(),
    ensures
        is_grouping(bookings(spans@), bookings(groups@)),
        bookings(groups@) == grouping(bookings(spans@)),
{
    let mut groups: Vec<TaskTime> = Vec::new();
    let mut k: usize = 0;
    while k < spans.len()
        invariant
            k <= spans.len(),
            forall|i: int| 0 <= i < spans.len() ==> (#[trigger] spans[i]).duration.within_limit(),
            is_grouping(bookings(spans@).take(k as int), bookings(groups@)),
        decreases spans.len() - k,
    {
        let ghost done = bookings(spans@).take(k as int);
        let ghost sofar = bookings(groups@);
        proof {
            assert forall|i: int| 0 <= i < groups.len() implies i128::MIN <= (#[trigger] groups[i]).duration.nanoseconds
                + spans[k as int].duration.nanoseconds <= i128::MAX by {
                assert forall|j: int| 0 <= j < done.len() implies -SPAN_LIMIT < (#[trigger] done[j]).nanos
                    < SPAN_LIMIT by {
                    assert(spans[j].duration.within_limit());
                }
                total_for_bound(done, sofar[i].label, SPAN_LIMIT as int);
                assert(done.len() * SPAN_LIMIT <= usize::MAX * SPAN_LIMIT) by (nonlinear_arith)
                    requires
                        done.len() <= usize::MAX,
                ;
            }
        }
        let place = book(&mut groups, spans[k].label.as_str(), spans[k].duration);
        proof {
            grouping_grows(done, sofar, spans[k as int]@, place as int);
            assert(done.push(spans[k as int]@) =~= bookings(spans@).take(k + 1));
        }
        k = k + 1;
    }
    proof {
        assert(bookings(spans@).take(k as int) =~= bookings(spans@));
        grouping_is_unique(bookings(spans@), bookings(groups@), grouping(bookings(spans@)));
    }
    groups
}

/// The time booked under every label but the pause.
pub fn total_excluding_pause(spans: &Vec<TaskTime>) -> (total: Duration)
    requires
        forall|i: int| 0 <= i < spans.len() ==> (#[trigger] spans[i]).duration.within_limit(),
    ensures
        total.nanoseconds == total_but(bookings(spans@), MAIN_PAUSE_TEXT@),
{
    let mut total = Duration::zero();
    let mut k: usize = 0;
    while k < spans.len()
        invariant
            k <= spans.len(),
            forall|i: int| 0 <= i < spans.len() ==> (#[trigger] spans[i]).duration.within_limit(),
            total.nanoseconds == total_but(bookings(spans@).take(k as int), MAIN_PAUSE_TEXT@),
        decreases spans.len() - k,
    {
        proof {
            let done = bookings(spans@).take(k as int);
            assert forall|j: int| 0 <= j < done.len() implies -SPAN_LIMIT < (#[trigger] done[j]).nanos
                < SPAN_LIMIT by {
                assert(spans[j].duration.within_limit());
            }
            total_but_bound(done, MAIN_PAUSE_TEXT@, SPAN_LIMIT as int);
            assert(done.len() * SPAN_LIMIT <= usize::MAX * SPAN_LIMIT) by (nonlinear_arith)
                requires
                    done.len() <= usize::MAX,
            ;
            assert(bookings(spans@).take(k + 1).drop_last() =~= done);
        }
        if !same_text(spans[k].label.as_str(), MAIN_PAUSE_TEXT) {
            total = Duration { nanoseconds: total.nanoseconds + spans[k].duration.nanoseconds };
        }
        k = k + 1;
    }
    assert(bookings(spans@).take(k as int) =~= bookings(spans@));
    total
}

/// The time booked under the pause; zero if there is none.
pub fn pause_total(spans: &Vec<TaskTime>) -> (total: Duration)
    requires
        forall|i: int| 0 <= i < spans.len() ==> (#[trigger] spans[i]).duration.within_limit(),
    ensures
        total.nanoseconds == total_for(bookings(spans@), MAIN_PAUSE_TEXT@),
{
    let mut total = Duration::zero();
    let mut k: usize = 0;
    while k < spans.len()
        invariant
            k <= spans.len(),
            forall|i: int| 0 <= i < spans.len() ==> (#[trigger] spans[i]).duration.within_limit(),
            total.nanoseconds == total_for(bookings(spans@).take(k as int), MAIN_PAUSE_TEXT@),
        decreases spans.len() - k,
    {
        proof {
            let done = bookings(spans@).take(k as int);
            assert forall|j: int| 0 <= j < done.len() implies -SPAN_LIMIT < (#[trigger] done[j]).nanos
                < SPAN_LIMIT by {
                assert(spans[j].duration.within_limit());
            }
            total_for_bound(done, MAIN_PAUSE_TEXT@, SPAN_LIMIT as int);
            assert(done.len() * SPAN_LIMIT <= usize::MAX * SPAN_LIMIT) by (nonlinear_arith)
                requires
                    done.len() <= usize::MAX,
            ;
            assert(bookings(spans@).take(k + 1).drop_last() =~= done);
        }
        if same_text(spans[k].label.as_str(), MAIN_PAUSE_TEXT) {
            total = Duration { nanoseconds: total.nanoseconds + spans[k].duration.nanoseconds };
        }
        k = k + 1;
    }
    assert(bookings(spans@).take(k as int) =~= bookings(spans@));
    total
}

/// The text of a span, as `duration_text` says.
pub fn format_duration(d: &Duration) -> (text: String)
    ensures
        text@ == duration_text(d.nanoseconds as int),
{
    let mut text = String::new();
    push_signed_decimal(&mut text, d.whole_hours());
    text.push(':');
    push_two_digits(&mut text, d.whole_minutes() % 60);
    text
}

/// The grouping of any spans exists.
pub proof fn grouping_exists(spans: Seq<Booking>)
    ensures
        is_grouping(spans, grouping(spans)),
    decreases spans.len(),
{
    if spans.len() == 0 {
        assert(is_grouping(spans, Seq::<Booking>::empty()));
    } else {
        let rest = spans.drop_last();
        grouping_exists(rest);
        let groups = grouping(rest);
        let place = place_of(groups, spans.last().label, 0);
        grouping_grows(rest, groups, spans.last(), place);
        assert(rest.push(spans.last()) =~= spans);
    }
}

/// The spans decide their grouping: the order of the groups is that of the
/// labels and depends on nothing else, so grouping the same spans again
/// gives the same groups in the same order.
pub proof fn grouping_is_unique(spans: Seq<Booking>, a: Seq<Booking>, b: Seq<Booking>)
    requires
        is_grouping(spans, a),
        is_grouping(spans, b),
    ensures
        a == b,
{
    // a label of either grouping is a label of a span, and so of the other
    assert forall|i: int| 0 <= i < a.len() implies has_label(b, (#[trigger] a[i]).label) by {
        let k = choose|k: int| 0 <= k < spans.len() && (#[trigger] spans[k]).label == a[i].label;
        assert(has_label(b, spans[k].label));
    }
    assert forall|i: int| 0 <= i < b.len() implies has_label(a, (#[trigger] b[i]).label) by {
        let k = choose|k: int| 0 <= k < spans.len() && (#[trigger] spans[k]).label == b[i].label;
        assert(has_label(a, spans[k].label));
    }
    same_labels_same_places(a, b);
    assert(a =~= b);
}

/// The groups do not depend on the order of the spans: spans that are the
/// same but for their order have the same grouping.
pub proof fn grouping_ignores_order(a: Seq<Booking>, b: Seq<Booking>)
    requires
        a.to_multiset() == b.to_multiset(),
    ensures
        grouping(a) == grouping(b),
{
    a.to_multiset_ensures();
    b.to_multiset_ensures();
    grouping_exists(a);
    grouping_exists(b);
    let groups = grouping(a);
    // the grouping of `a` is one of `b` too
    assert forall|i: int| 0 <= i < groups.len() implies has_label(b, (#[trigger] groups[i]).label)
        && groups[i].nanos == total_for(b, groups[i].label) by {
        total_for_ignores_order(a, b, groups[i].label);
        let k = choose|k: int| 0 <= k < a.len() && (#[trigger] a[k]).label == groups[i].label;
        assert(a.to_multiset().count(a[k]) > 0);
        let j = choose|j: int| 0 <= j < b.len() && b[j] == a[k];
        assert(b[j].label == groups[i].label);
    }
    assert forall|k: int| 0 <= k < b.len() implies has_label(groups, (#[trigger] b[k]).label) by {
        assert(b.to_multiset().count(b[k]) > 0);
        let j = choose|j: int| 0 <= j < a.len() && a[j] == b[k];
        assert(has_label(groups, a[j].label));
    }
    grouping_is_unique(b, groups, grouping(b));
}

/// The time booked under a label depends on which spans there are, not on
/// the order they come in.
pub proof fn total_for_ignores_order(a: Seq<Booking>, b: Seq<Booking>, label: Seq<char>)
    requires
        a.to_multiset() == b.to_multiset(),
    ensures
        total_for(a, label) == total_for(b, label),
    decreases a.len(),
{
    a.to_multiset_ensures();
    b.to_multiset_ensures();
    if a.len() > 0 {
        // the last span of `a` stands somewhere in `b`; take it away on both sides
        let last = a.last();
        assert(a.to_multiset().count(last) > 0);
        let j = choose|j: int| 0 <= j < b.len() && b[j] == last;
        assert(a.drop_last() =~= a.remove(a.len() - 1));
        total_for_ignores_order(a.drop_last(), b.remove(j), label);
        total_for_remove(b, j, label);
    }
}

/// Grouping loses no time: the groups of all labels but one hold together
/// what the spans of all labels but that one hold.
pub proof fn grouping_keeps_the_sum(spans: Seq<Booking>, label: Seq<char>)
    ensures
        total_but(grouping(spans), label) == total_but(spans, label),
    decreases spans.len(),
{
    grouping_exists(spans);
    if spans.len() == 0 {
        if grouping(spans).len() > 0 {
            assert(has_label(spans, grouping(spans)[0].label));
        }
    } else {
        let rest = spans.drop_last();
        let last = spans.last();
        grouping_keeps_the_sum(rest, label);
        grouping_exists(rest);
        let groups = grouping(rest);
        let place = place_of(groups, last.label, 0);
        grouping_grows(rest, groups, last, place);
        assert(rest.push(last) =~= spans);
        grouping_is_unique(spans, with_span(groups, last, place), grouping(spans));
        if place < groups.len() && groups[place].label == last.label {
            total_but_update(groups, place, last.nanos, label);
        } else {
            total_but_insert(groups, place, last, label);
        }
    }
}

/// The group of a label holds all the time booked under the label, and a
/// label without a group has no time booked.
pub proof fn group_holds_the_total(spans: Seq<Booking>, label: Seq<char>)
    ensures
        forall|i: int|
            0 <= i < grouping(spans).len() && (#[trigger] grouping(spans)[i]).label == label ==> grouping(
                spans,
            )[i].nanos == total_for(spans, label),
        !has_label(grouping(spans), label) ==> total_for(spans, label) == 0,
{
    grouping_exists(spans);
    if !has_label(grouping(spans), label) {
        if has_label(spans, label) {
            let k = choose|k: int| 0 <= k < spans.len() && (#[trigger] spans[k]).label == label;
            assert(has_label(grouping(spans), spans[k].label));
        }
        total_for_missing_label(spans, label);
    }
}

/// A grouping stays one when a span is added to the spans and booked at
/// the place of its label.
pub proof fn grouping_grows(spans: Seq<Booking>, groups: Seq<Booking>, span: Booking, place: int)
    requires
        is_grouping(spans, groups),
        is_place_of(groups, span.label, place),
    ensures
        is_grouping(spans.push(span), with_span(groups, span, place)),
{
    let more = spans.push(span);
    let next = with_span(groups, span, place);
    assert forall|l: Seq<char>| has_label(spans, l) implies has_label(more, l) by {
        let i = choose|i: int| 0 <= i < spans.len() && (#[trigger] spans[i]).label == l;
        assert(more[i].label == l);
    }
    if place < groups.len() && groups[place].label == span.label {
        // the label has its booking: only that booking changes
        assert forall|i: int| 0 <= i < next.len() implies has_label(more, (#[trigger] next[i]).label)
            && next[i].nanos == total_for(more, next[i].label) by {
            total_for_push(spans, span, groups[i].label);
            if i != place {
                sorted_labels_differ(groups, i, place);
            }
        }
        assert forall|k: int| 0 <= k < more.len() implies has_label(next, (#[trigger] more[k]).label) by {
            if k < spans.len() {
                let i = choose|i: int| 0 <= i < groups.len() && (#[trigger] groups[i]).label == spans[k].label;
                assert(next[i].label == spans[k].label);
            } else {
                assert(next[place].label == span.label);
            }
        }
        assert(sorted_by_label(next)) by {
            assert forall|i: int, j: int| 0 <= i < j < next.len() implies label_lt(
                (#[trigger] next[i]).label,
                (#[trigger] next[j]).label,
            ) by {
                assert(label_lt(groups[i].label, groups[j].label));
            }
        }
    } else {
        // the label is new: it lies strictly between its neighbours
        assert forall|i: int| place <= i < groups.len() implies label_lt(span.label, (#[trigger] groups[i]).label) by {
            label_lt_total(span.label, groups[place].label);
            if place < i {
                label_lt_transitive(span.label, groups[place].label, groups[i].label);
            }
        }
        assert forall|i: int| 0 <= i < groups.len() implies (#[trigger] groups[i]).label != span.label by {
            label_lt_irreflexive(span.label);
        }
        assert(!has_label(spans, span.label)) by {
            if has_label(spans, span.label) {
                let k = choose|k: int| 0 <= k < spans.len() && (#[trigger] spans[k]).label == span.label;
                assert(has_label(groups, spans[k].label));
            }
        }
        total_for_missing_label(spans, span.label);
        assert forall|i: int| 0 <= i < next.len() implies has_label(more, (#[trigger] next[i]).label)
            && next[i].nanos == total_for(more, next[i].label) by {
            total_for_push(spans, span, next[i].label);
        }
        assert forall|k: int| 0 <= k < more.len() implies has_label(next, (#[trigger] more[k]).label) by {
            if k < spans.len() {
                let i = choose|i: int| 0 <= i < groups.len() && (#[trigger] groups[i]).label == spans[k].label;
                if i < place {
                    assert(next[i].label == spans[k].label);
                } else {
                    assert(next[i + 1].label == spans[k].label);
                }
            } else {
                assert(next[place].label == span.label);
            }
        }
        assert(sorted_by_label(next)) by {
            assert forall|i: int, j: int| 0 <= i < j < next.len() implies label_lt(
                (#[trigger] next[i]).label,
                (#[trigger] next[j]).label,
            ) by {
                if j < place {
                    assert(label_lt(groups[i].label, groups[j].label));
                } else if j == place {
                    assert(label_lt(groups[i].label, span.label));
                } else if i < place {
                    assert(label_lt(groups[i].label, groups[j - 1].label));
                } else if i == place {
                    assert(label_lt(span.label, groups[j - 1].label));
                } else {
                    assert(label_lt(groups[i - 1].label, groups[j - 1].label));
                }
            }
        }
    }
}

/// Finds the place of `label` among `groups`, looking from `from` on.
proof fn place_of(groups: Seq<Booking>, label: Seq<char>, from: int) -> (place: int)
    requires
        0 <= from <= groups.len(),
        forall|i: int| 0 <= i < from ==> label_lt((#[trigger] groups[i]).label, label),
    ensures
        is_place_of(groups, label, place),
    decreases groups.len() - from,
{
    if from < groups.len() && label_lt(groups[from].label, label) {
        place_of(groups, label, from + 1)
    } else {
        from
    }
}

/// Two sorted sequences that hold the same labels hold them at the same
/// places.
proof fn same_labels_same_places(a: Seq<Booking>, b: Seq<Booking>)
    requires
        sorted_by_label(a),
        sorted_by_label(b),
        forall|i: int| 0 <= i < a.len() ==> has_label(b, (#[trigger] a[i]).label),
        forall|i: int| 0 <= i < b.len() ==> has_label(a, (#[trigger] b[i]).label),
    ensures
        a.len() == b.len(),
        forall|i: int| 0 <= i < a.len() ==> (#[trigger] a[i]).label == b[i].label,
    decreases a.len(),
{
    if a.len() == 0 || b.len() == 0 {
        // a label on one side would have to stand on the other
        if a.len() > 0 {
            assert(has_label(b, a[0].label));
        }
        if b.len() > 0 {
            assert(has_label(a, b[0].label));
        }
    } else {
        let x = a.last();
        let y = b.last();
        assert(has_label(b, a[a.len() - 1].label));
        assert(has_label(a, b[b.len() - 1].label));
        let j = choose|j: int| 0 <= j < b.len() && (#[trigger] b[j]).label == x.label;
        let i = choose|i: int| 0 <= i < a.len() && (#[trigger] a[i]).label == y.label;
        // the last labels are the greatest on either side, so they are the same
        assert(x.label == y.label) by {
            label_lt_irreflexive(x.label);
            if j < b.len() - 1 && i < a.len() - 1 {
                assert(label_lt(b[j].label, b[b.len() - 1].label));
                assert(label_lt(a[i].label, a[a.len() - 1].label));
                label_lt_transitive(x.label, y.label, x.label);
            }
        }
        // and the labels before them are the same on either side
        let a0 = a.drop_last();
        let b0 = b.drop_last();
        assert forall|p: int| 0 <= p < a0.len() implies has_label(b0, (#[trigger] a0[p]).label) by {
            assert(has_label(b, a[p].label));
            let q = choose|q: int| 0 <= q < b.len() && (#[trigger] b[q]).label == a[p].label;
            assert(label_lt(a[p].label, a[a.len() - 1].label));
            label_lt_irreflexive(x.label);
            assert(b0[q].label == a0[p].label);
        }
        assert forall|q: int| 0 <= q < b0.len() implies has_label(a0, (#[trigger] b0[q]).label) by {
            assert(has_label(a, b[q].label));
            let p = choose|p: int| 0 <= p < a.len() && (#[trigger] a[p]).label == b[q].label;
            assert(label_lt(b[q].label, b[b.len() - 1].label));
            label_lt_irreflexive(y.label);
            assert(a0[p].label == b0[q].label);
        }
        assert(sorted_by_label(a0)) by {
            assert forall|p: int, q: int| 0 <= p < q < a0.len() implies label_lt(
                (#[trigger] a0[p]).label,
                (#[trigger] a0[q]).label,
            ) by {
                assert(label_lt(a[p].label, a[q].label));
            }
        }
        assert(sorted_by_label(b0)) by {
            assert forall|p: int, q: int| 0 <= p < q < b0.len() implies label_lt(
                (#[trigger] b0[p]).label,
                (#[trigger] b0[q]).label,
            ) by {
                assert(label_lt(b[p].label, b[q].label));
            }
        }
        same_labels_same_places(a0, b0);
        assert forall|p: int| 0 <= p < a.len() implies (#[trigger] a[p]).label == b[p].label by {
            if p < a.len() - 1 {
                assert(a0[p].label == b0[p].label);
            }
        }
    }
}

/// In a sorted sequence the labels at two different places differ.
proof fn sorted_labels_differ(groups: Seq<Booking>, i: int, j: int)
    requires
        sorted_by_label(groups),
        0 <= i < groups.len(),
        0 <= j < groups.len(),
        i != j,
    ensures
        groups[i].label != groups[j].label,
{
    label_lt_irreflexive(groups[i].label);
    if i < j {
        assert(label_lt(groups[i].label, groups[j].label));
    } else {
        assert(label_lt(groups[j].label, groups[i].label));
    }
}

/// One more span adds its time to the total of its label.
proof fn total_for_push(spans: Seq<Booking>, span: Booking, label: Seq<char>)
    ensures
        total_for(spans.push(span), label) == total_for(spans, label) + if span.label == label {
            span.nanos
        } else {
            0
        },
{
    assert(spans.push(span).drop_last() =~= spans);
}

/// Nothing is booked under a label that does not occur.
proof fn total_for_missing_label(spans: Seq<Booking>, label: Seq<char>)
    requires
        !has_label(spans, label),
    ensures
        total_for(spans, label) == 0,
    decreases spans.len(),
{
    if spans.len() > 0 {
        assert forall|i: int| 0 <= i < spans.drop_last().len() implies (#[trigger] spans.drop_last()[i]).label
            != label by {
            assert(spans[i].label != label);
        }
        total_for_missing_label(spans.drop_last(), label);
    }
}

/// Taking one span away takes its time from the total of its label.
proof fn total_for_remove(spans: Seq<Booking>, i: int, label: Seq<char>)
    requires
        0 <= i < spans.len(),
    ensures
        total_for(spans, label) == total_for(spans.remove(i), label) + if spans[i].label == label {
            spans[i].nanos
        } else {
            0
        },
    decreases spans.len(),
{
    if i == spans.len() - 1 {
        assert(spans.remove(i) =~= spans.drop_last());
    } else {
        total_for_remove(spans.drop_last(), i, label);
        assert(spans.remove(i).drop_last() =~= spans.drop_last().remove(i));
    }
}

/// The time booked under one label is bounded by the number of spans.
proof fn total_for_bound(spans: Seq<Booking>, label: Seq<char>, limit: int)
    requires
        forall|i: int| 0 <= i < spans.len() ==> -limit < (#[trigger] spans[i]).nanos < limit,
    ensures
        -(spans.len() * limit) <= total_for(spans, label) <= spans.len() * limit,
    decreases spans.len(),
{
    if spans.len() > 0 {
        total_for_bound(spans.drop_last(), label, limit);
        assert(spans.len() * limit == spans.drop_last().len() * limit + limit) by (nonlinear_arith)
            requires
                spans.drop_last().len() == spans.len() - 1,
        ;
        assert(-limit < spans[spans.len() - 1].nanos < limit);
    } else {
        assert(spans.len() * limit == 0) by (nonlinear_arith)
            requires
                spans.len() == 0,
        ;
    }
}

/// The time booked under all labels but one is bounded in the same way.
proof fn total_but_bound(spans: Seq<Booking>, label: Seq<char>, limit: int)
    requires
        forall|i: int| 0 <= i < spans.len() ==> -limit < (#[trigger] spans[i]).nanos < limit,
    ensures
        -(spans.len() * limit) <= total_but(spans, label) <= spans.len() * limit,
    decreases spans.len(),
{
    if spans.len() > 0 {
        total_but_bound(spans.drop_last(), label, limit);
        assert(spans.len() * limit == spans.drop_last().len() * limit + limit) by (nonlinear_arith)
            requires
                spans.drop_last().len() == spans.len() - 1,
        ;
    } else {
        assert(spans.len() * limit == 0) by (nonlinear_arith)
            requires
                spans.len() == 0,
        ;
    }
}

/// A booking put in at any place adds its time to the sum of all labels
/// but its own.
proof fn total_but_insert(groups: Seq<Booking>, place: int, span: Booking, label: Seq<char>)
    requires
        0 <= place <= groups.len(),
    ensures
        total_but(groups.insert(place, span), label) == total_but(groups, label) + if span.label == label {
            0
        } else {
            span.nanos
        },
    decreases groups.len(),
{
    if place == groups.len() {
        assert(groups.insert(place, span).drop_last() =~= groups);
    } else {
        total_but_insert(groups.drop_last(), place, span, label);
        assert(groups.insert(place, span).drop_last() =~= groups.drop_last().insert(place, span));
    }
}

/// Time added to a booking is added to the sum of all labels but its own.
proof fn total_but_update(groups: Seq<Booking>, place: int, more: int, label: Seq<char>)
    requires
        0 <= place < groups.len(),
    ensures
        total_but(
            groups.update(place, Booking { label: groups[place].label, nanos: groups[place].nanos + more }),
            label,
        ) == total_but(groups, label) + if groups[place].label == label {
            0
        } else {
            more
        },
    decreases groups.len(),
{
    let merged = Booking { label: groups[place].label, nanos: groups[place].nanos + more };
    if place == groups.len() - 1 {
        assert(groups.update(place, merged).drop_last() =~= groups.drop_last());
    } else {
        total_but_update(groups.drop_last(), place, more, label);
        assert(groups.update(place, merged).drop_last() =~= groups.drop_last().update(place, merged));
    }
}

} // verus!
