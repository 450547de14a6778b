use tracc::aggregate::{group_durations, pause_total, total_excluding_pause, TaskTime};
use tracc::clock::{ClockTime, Duration};
use tracc::listview::{ListEntry, ListView};
use tracc::timesheet::{durations_by_adjacent_pair, label_durations, TimePoint, TimeSheet};

const MINUTE: i128 = 60_000_000_000;
const HOUR: i128 = 60 * MINUTE;

fn clock(hour: u8, minute: u8) -> ClockTime {
    ClockTime { hour, minute, second: 0, nanosecond: 0 }
}

fn sheet(entries: &[(u8, u8, &str)]) -> TimeSheet {
    let times: Vec<TimePoint> =
        entries.iter().map(|(hour, minute, text)| TimePoint::at(text, clock(*hour, *minute))).collect();
    let selected = times.len().saturating_sub(1);
    TimeSheet { times, selected, register: None }
}

fn task(label: &str, nanoseconds: i128) -> TaskTime {
    TaskTime { label: String::from(label), duration: Duration { nanoseconds } }
}

fn plain(tasks: &[TaskTime]) -> Vec<(String, i128)> {
    tasks.iter().map(|task| (task.label.clone(), task.duration.nanoseconds)).collect()
}

fn pairs(expected: &[(&str, i128)]) -> Vec<(String, i128)> {
    expected.iter().map(|(label, nanoseconds)| (String::from(*label), *nanoseconds)).collect()
}

fn texts(sheet: &TimeSheet) -> Vec<String> {
    sheet.times.iter().map(|point| point.text.clone()).collect()
}

fn day() -> TimeSheet {
    sheet(&[(8, 0, "start"), (12, 0, "lunch"), (13, 0, "code"), (17, 0, "end")])
}

#[test]
fn time_point_at_keeps_text_and_time() {
    let point = TimePoint::at("start", clock(8, 30));
    assert_eq!(point.text, "start");
    assert_eq!(point.time, clock(8, 30));
}

#[test]
fn new_time_point_is_stamped_with_a_time_of_day() {
    let point = TimePoint::new("start");
    assert_eq!(point.text, "start");
    assert!(point.time.hour < 24);
    assert!(point.time.minute < 60);
    assert!(point.time.second < 60);
    assert!(point.time.nanosecond < 1_000_000_000);
    let empty = TimePoint::default();
    assert_eq!(empty.text, "");
    assert!(empty.time.hour < 24);
}

#[test]
fn time_point_renders_hour_and_minute() {
    assert_eq!(TimePoint::at("start", clock(8, 5)).render(), "[08:05] start");
    assert_eq!(TimePoint::at("", clock(23, 59)).render(), "[23:59] ");
    let exact = ClockTime { hour: 0, minute: 0, second: 59, nanosecond: 999 };
    assert_eq!(TimePoint::at("x", exact).render(), "[00:00] x");
}

#[test]
fn time_point_duplicate_copies_text_and_time() {
    let copy = TimePoint::at("start", clock(8, 5)).duplicate();
    assert_eq!(copy.text, "start");
    assert_eq!(copy.time, clock(8, 5));
}

#[test]
fn time_sheet_open_or_create_seeds_a_start() {
    let sheet = TimeSheet::open_or_create(None);
    assert_eq!(texts(&sheet), vec!["start"]);
    assert_eq!(sheet.selected, 0);
    assert!(sheet.register.is_none());
}

#[test]
fn time_sheet_open_or_create_selects_the_last_entry() {
    let loaded = day().times;
    let sheet = TimeSheet::open_or_create(Some(loaded));
    assert_eq!(texts(&sheet), vec!["start", "lunch", "code", "end"]);
    assert_eq!(sheet.selected, 3);
    let empty = TimeSheet::open_or_create(Some(Vec::new()));
    assert!(empty.times.is_empty());
    assert_eq!(empty.selected, 0);
}

#[test]
fn time_sheet_printable_renders_every_entry() {
    let sheet = sheet(&[(8, 0, "start"), (12, 30, "lunch")]);
    assert_eq!(sheet.printable(), vec!["[08:00] start", "[12:30] lunch"]);
}

#[test]
fn shift_current_moves_and_rounds_the_selected_time() {
    let mut sheet = sheet(&[(8, 0, "start"), (9, 7, "code")]);
    sheet.shift_current(5);
    assert_eq!(sheet.times[1].time, clock(9, 10));
    assert_eq!(sheet.times[1].time.minute, 10);
    assert_eq!(sheet.times[1].text, "code");
    assert_eq!(sheet.times[0].time, clock(8, 0));
    sheet.selected = 0;
    sheet.times[0].time = clock(8, 2);
    sheet.shift_current(3);
    assert_eq!(sheet.times[0].time, clock(8, 5));
    sheet.shift_current(-5);
    assert_eq!(sheet.times[0].time, clock(8, 0));
    assert_eq!(sheet.selected, 0);
}

#[test]
fn shift_current_does_nothing_on_an_empty_sheet() {
    let mut sheet = sheet(&[]);
    sheet.shift_current(5);
    assert!(sheet.times.is_empty());
}

#[test]
fn time_sheet_current_is_the_selected_entry() {
    let mut sheet = day();
    sheet.selected = 1;
    assert_eq!(sheet.current().text, "lunch");
}

#[test]
fn maybe_end_time_closes_an_open_log() {
    let last = TimePoint::at("code", clock(13, 0));
    let end = TimeSheet::maybe_end_time(Some(&last), clock(15, 30)).unwrap();
    assert_eq!(end.text, "end");
    assert_eq!(end.time, clock(15, 30));
    let same = TimeSheet::maybe_end_time(Some(&last), clock(13, 0)).unwrap();
    assert_eq!(same.time, clock(13, 0));
}

#[test]
fn maybe_end_time_leaves_a_closed_log() {
    let now = clock(18, 0);
    assert!(TimeSheet::maybe_end_time(Some(&TimePoint::at("end", clock(17, 0))), now).is_none());
    assert!(TimeSheet::maybe_end_time(Some(&TimePoint::at("pause", clock(17, 0))), now).is_none());
    assert!(TimeSheet::maybe_end_time(Some(&TimePoint::at("lunch", clock(17, 0))), now).is_none());
    assert!(TimeSheet::maybe_end_time(Some(&TimePoint::at("mittag", clock(17, 0))), now).is_none());
    assert!(TimeSheet::maybe_end_time(Some(&TimePoint::at("break", clock(17, 0))), now).is_none());
    assert!(TimeSheet::maybe_end_time(Some(&TimePoint::at("[pause] walk", clock(17, 0))), now).is_none());
    assert!(TimeSheet::maybe_end_time(Some(&TimePoint::at("[end] done", clock(17, 0))), now).is_none());
}

#[test]
fn maybe_end_time_leaves_a_log_that_ends_in_the_future() {
    let last = TimePoint::at("code", clock(13, 0));
    assert!(TimeSheet::maybe_end_time(Some(&last), clock(12, 59)).is_none());
    let just = ClockTime { hour: 13, minute: 0, second: 0, nanosecond: 1 };
    assert!(TimeSheet::maybe_end_time(Some(&TimePoint::at("code", just)), clock(13, 0)).is_none());
}

#[test]
fn maybe_end_time_of_an_empty_log() {
    let end = TimeSheet::maybe_end_time(None, clock(9, 0)).unwrap();
    assert_eq!(end.text, "end");
    assert_eq!(end.time, clock(9, 0));
}

#[test]
fn durations_by_adjacent_pair_pairs_each_entry_with_the_next() {
    let spans = durations_by_adjacent_pair(&day().times, &None);
    assert_eq!(plain(&spans), pairs(&[("start", 4 * HOUR), ("lunch", HOUR), ("code", 4 * HOUR)]));
}

#[test]
fn durations_by_adjacent_pair_counts_the_end() {
    let entries = sheet(&[(8, 0, "start"), (9, 30, "[x] code")]).times;
    let end = Some(TimePoint::at("end", clock(10, 0)));
    let spans = durations_by_adjacent_pair(&entries, &end);
    assert_eq!(plain(&spans), pairs(&[("start", 90 * MINUTE), ("[x] code", 30 * MINUTE)]));
}

#[test]
fn durations_by_adjacent_pair_of_short_logs() {
    assert!(durations_by_adjacent_pair(&Vec::new(), &None).is_empty());
    assert!(durations_by_adjacent_pair(&Vec::new(), &Some(TimePoint::at("end", clock(9, 0)))).is_empty());
    let one = sheet(&[(8, 0, "start")]).times;
    assert!(durations_by_adjacent_pair(&one, &None).is_empty());
    let spans = durations_by_adjacent_pair(&one, &Some(TimePoint::at("end", clock(9, 0))));
    assert_eq!(plain(&spans), pairs(&[("start", HOUR)]));
}

#[test]
fn durations_by_adjacent_pair_may_be_negative() {
    let entries = sheet(&[(9, 0, "late"), (8, 0, "early")]).times;
    let spans = durations_by_adjacent_pair(&entries, &None);
    assert_eq!(plain(&spans), pairs(&[("late", -HOUR)]));
}

#[test]
fn label_durations_normalizes_every_label() {
    let spans = vec![task("[focus] meeting", HOUR), task("lunch", 2 * HOUR), task("code", 3 * HOUR)];
    let named = label_durations(&spans);
    assert_eq!(plain(&named), pairs(&[("focus", HOUR), ("pause", 2 * HOUR), ("code", 3 * HOUR)]));
}

#[test]
fn group_durations_sums_by_label_in_label_order() {
    let spans = vec![
        task("start", HOUR),
        task("code", 2 * HOUR),
        task("pause", 30 * MINUTE),
        task("code", 3 * HOUR),
        task("admin", 10 * MINUTE),
        task("pause", 15 * MINUTE),
    ];
    let groups = group_durations(&spans);
    assert_eq!(
        plain(&groups),
        pairs(&[("admin", 10 * MINUTE), ("code", 5 * HOUR), ("pause", 45 * MINUTE), ("start", HOUR)])
    );
}

#[test]
fn group_durations_does_not_depend_on_the_order_of_the_spans() {
    let forward = vec![task("b", 1), task("a", 2), task("c", 3), task("a", 4)];
    let backward = vec![task("a", 4), task("c", 3), task("a", 2), task("b", 1)];
    let expected = pairs(&[("a", 6), ("b", 1), ("c", 3)]);
    assert_eq!(plain(&group_durations(&forward)), expected);
    assert_eq!(plain(&group_durations(&backward)), expected);
    assert_eq!(plain(&group_durations(&forward)), plain(&group_durations(&forward)));
}

#[test]
fn group_durations_orders_labels_by_their_bytes() {
    let spans = vec![task("\u{e4}", 1), task("z", 2), task("B", 3), task("a", 4), task("", 5), task("ab", 6)];
    let groups = group_durations(&spans);
    assert_eq!(
        plain(&groups),
        pairs(&[("", 5), ("B", 3), ("a", 4), ("ab", 6), ("z", 2), ("\u{e4}", 1)])
    );
}

#[test]
fn group_durations_keeps_negative_and_zero_totals() {
    let spans = vec![task("a", HOUR), task("a", -HOUR), task("b", -MINUTE)];
    assert_eq!(plain(&group_durations(&spans)), pairs(&[("a", 0), ("b", -MINUTE)]));
    assert!(group_durations(&Vec::new()).is_empty());
}

#[test]
fn totals_split_pause_from_work() {
    let spans = vec![task("start", 4 * HOUR), task("pause", HOUR), task("code", 4 * HOUR), task("pause", MINUTE)];
    assert_eq!(total_excluding_pause(&spans), Duration { nanoseconds: 8 * HOUR });
    assert_eq!(pause_total(&spans), Duration { nanoseconds: HOUR + MINUTE });
    assert_eq!(total_excluding_pause(&Vec::new()), Duration::zero());
    assert_eq!(pause_total(&Vec::new()), Duration::zero());
    assert_eq!(pause_total(&vec![task("code", HOUR)]), Duration::zero());
}

#[test]
fn aggregation_of_a_closed_day() {
    let sheet = day();
    let now = clock(18, 0);
    let groups = sheet.grouped_times_at(now);
    assert_eq!(plain(&groups), pairs(&[("code", 4 * HOUR), ("pause", HOUR), ("start", 4 * HOUR)]));
    assert_eq!(sheet.time_by_tasks_at(now), "code: 4:00 | start: 4:00");
    assert_eq!(sheet.sum_as_str_at(now), "8:00");
    assert_eq!(sheet.pause_time_at(now), "pause: 1:00");
}

#[test]
fn aggregation_of_a_closed_day_does_not_depend_on_the_clock() {
    let sheet = day();
    for now in [clock(0, 0), clock(12, 0), clock(23, 59)] {
        assert_eq!(sheet.time_by_tasks_at(now), "code: 4:00 | start: 4:00");
        assert_eq!(sheet.sum_as_str_at(now), "8:00");
        assert_eq!(sheet.pause_time_at(now), "pause: 1:00");
    }
    assert_eq!(sheet.time_by_tasks(), "code: 4:00 | start: 4:00");
    assert_eq!(sheet.sum_as_str(), "8:00");
    assert_eq!(sheet.pause_time(), "pause: 1:00");
    assert_eq!(plain(&sheet.grouped_times()), pairs(&[("code", 4 * HOUR), ("pause", HOUR), ("start", 4 * HOUR)]));
}

#[test]
fn break_and_pause_share_a_bucket() {
    let sheet = sheet(&[(8, 0, "break"), (8, 15, "code"), (10, 0, "pause"), (10, 30, "[lunch] out"), (11, 30, "end")]);
    let now = clock(12, 0);
    assert_eq!(
        plain(&sheet.grouped_times_at(now)),
        pairs(&[("code", 105 * MINUTE), ("pause", 105 * MINUTE)])
    );
    assert_eq!(sheet.pause_time_at(now), "pause: 1:45");
    assert_eq!(sheet.sum_as_str_at(now), "1:45");
    assert_eq!(sheet.time_by_tasks_at(now), "code: 1:45");
}

#[test]
fn open_log_runs_until_now() {
    let sheet = sheet(&[(8, 0, "start"), (9, 0, "code")]);
    assert_eq!(sheet.time_by_tasks_at(clock(10, 30)), "code: 1:30 | start: 1:00");
    assert_eq!(sheet.sum_as_str_at(clock(10, 30)), "2:30");
    assert_eq!(sheet.sum_as_str_at(clock(11, 30)), "3:30");
    assert_eq!(sheet.pause_time_at(clock(10, 30)), "pause: 0:00");
}

#[test]
fn log_ending_in_a_pause_stops_at_the_pause() {
    let sheet = sheet(&[(8, 0, "start"), (12, 0, "lunch")]);
    assert_eq!(sheet.time_by_tasks_at(clock(15, 0)), "start: 4:00");
    assert_eq!(sheet.sum_as_str_at(clock(15, 0)), "4:00");
    assert_eq!(sheet.pause_time_at(clock(15, 0)), "pause: 0:00");
}

#[test]
fn log_ending_in_the_future_gets_no_end() {
    let sheet = sheet(&[(8, 0, "start"), (12, 0, "code")]);
    assert_eq!(sheet.time_by_tasks_at(clock(9, 0)), "start: 4:00");
    assert_eq!(sheet.sum_as_str_at(clock(9, 0)), "4:00");
}

#[test]
fn aggregation_of_short_logs() {
    let empty = sheet(&[]);
    assert_eq!(empty.time_by_tasks_at(clock(9, 0)), "");
    assert_eq!(empty.sum_as_str_at(clock(9, 0)), "0:00");
    assert_eq!(empty.pause_time_at(clock(9, 0)), "pause: 0:00");
    assert!(empty.grouped_times_at(clock(9, 0)).is_empty());
    let one = sheet(&[(8, 0, "start")]);
    assert_eq!(one.time_by_tasks_at(clock(8, 0)), "start: 0:00");
    assert_eq!(one.time_by_tasks_at(clock(8, 59)), "start: 0:59");
    assert_eq!(one.sum_as_str_at(clock(9, 1)), "1:01");
}

#[test]
fn spans_at_labels_every_span() {
    let sheet = sheet(&[(8, 0, "[a] x"), (9, 0, "lunch"), (9, 30, "[a] y")]);
    let spans = sheet.spans_at(clock(10, 0));
    assert_eq!(plain(&spans), pairs(&[("a", HOUR), ("pause", 30 * MINUTE), ("a", 30 * MINUTE)]));
    assert_eq!(sheet.time_by_tasks_at(clock(10, 0)), "a: 1:30");
}

#[test]
fn time_by_tasks_joins_in_label_order() {
    let sheet = sheet(&[(8, 0, "write"), (9, 0, "admin"), (9, 20, "mail"), (9, 30, "write"), (10, 0, "end")]);
    assert_eq!(sheet.time_by_tasks_at(clock(11, 0)), "admin: 0:20 | mail: 0:10 | write: 1:30");
    assert_eq!(sheet.time_by_tasks_at(clock(11, 0)), sheet.time_by_tasks_at(clock(11, 0)));
}

#[test]
fn unsorted_entries_give_negative_spans() {
    let sheet = sheet(&[(9, 0, "late"), (8, 0, "end")]);
    assert_eq!(sheet.time_by_tasks_at(clock(12, 0)), "late: -1:00");
    assert_eq!(sheet.sum_as_str_at(clock(12, 0)), "-1:00");
}

#[test]
fn time_sheet_normal_mode_sorts_by_time() {
    let mut sheet = sheet(&[(9, 0, "b"), (8, 0, "a"), (10, 0, "d"), (9, 0, "c")]);
    sheet.selected = 1;
    sheet.normal_mode();
    assert_eq!(texts(&sheet), vec!["a", "b", "c", "d"]);
    assert_eq!(sheet.selected, 1);
    assert!(sheet.register.is_none());
}

#[test]
fn time_sheet_normal_mode_keeps_entries_of_equal_time_in_order() {
    let mut sheet = sheet(&[(9, 0, "x"), (8, 0, "b"), (8, 0, "a"), (8, 0, "c")]);
    sheet.normal_mode();
    assert_eq!(texts(&sheet), vec!["b", "a", "c", "x"]);
}

#[test]
fn time_sheet_normal_mode_drops_an_empty_entry() {
    let mut sheet = sheet(&[(8, 0, "start"), (9, 0, "code"), (7, 0, "")]);
    sheet.normal_mode();
    assert_eq!(texts(&sheet), vec!["start", "code"]);
    assert_eq!(sheet.selected, 0);
    assert_eq!(sheet.register.as_ref().map(|point| point.time), Some(clock(7, 0)));
    let mut empty = sheet_of_nothing();
    empty.normal_mode();
    assert!(empty.times.is_empty());
}

fn sheet_of_nothing() -> TimeSheet {
    TimeSheet { times: Vec::new(), selected: 0, register: None }
}

#[test]
fn time_sheet_edits_and_moves_like_any_list() {
    let mut sheet = sheet(&[(8, 0, "start")]);
    sheet.insert(TimePoint::at("", clock(9, 0)), None);
    assert_eq!(sheet.selected, 1);
    sheet.append_to_current('g');
    sheet.append_to_current('o');
    sheet.append_to_current('!');
    sheet.backspace();
    assert_eq!(texts(&sheet), vec!["start", "go"]);
    assert_eq!(sheet.times[1].time, clock(9, 0));
    sheet.selection_up();
    sheet.remove_current();
    assert_eq!(texts(&sheet), vec!["go"]);
    sheet.paste();
    assert_eq!(texts(&sheet), vec!["go", "start"]);
    assert_eq!(sheet.times[1].time, clock(8, 0));
    assert_eq!(ListView::printable(&mut sheet), vec!["[09:00] go", "[08:00] start"]);
}
