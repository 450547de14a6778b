use tracc::clock::ClockTime;
use tracc::timesheet::{TimePoint, TimeSheet};
use tracc::todolist::Todo;
use tracc::tracc::{Effect, Focus, Key, Mode, Pending, Tracc};

fn at(hour: u8, minute: u8) -> ClockTime {
    ClockTime { hour, minute, second: 0, nanosecond: 0 }
}

fn editor() -> Tracc {
    Tracc::new(
        Some(vec![Todo::new("a"), Todo::new("b"), Todo::new("c")]),
        Some(vec![TimePoint::at("start", at(8, 0)), TimePoint::at("code", at(9, 0))]),
    )
}

fn todo_texts(tracc: &Tracc) -> Vec<String> {
    tracc.todos.todos.iter().map(|todo| todo.text.clone()).collect()
}

fn time_texts(tracc: &Tracc) -> Vec<String> {
    tracc.times.times.iter().map(|point| point.text.clone()).collect()
}

fn press(tracc: &mut Tracc, keys: &str, now: ClockTime) -> Effect {
    let mut effect = Effect::Nothing;
    for chr in keys.chars() {
        effect = tracc.handle_key_at(Key::Char(chr), now);
    }
    effect
}

#[test]
fn new_editor_starts_in_normal_mode_on_the_checklist() {
    let tracc = editor();
    assert_eq!(tracc.input_mode, Mode::Normal);
    assert_eq!(tracc.focus, Focus::Top);
    assert_eq!(tracc.pending, Pending::Nothing);
    assert_eq!(todo_texts(&tracc), vec!["a", "b", "c"]);
    assert_eq!(tracc.todos.selected, 0);
    assert_eq!(time_texts(&tracc), vec!["start", "code"]);
    assert_eq!(tracc.times.selected, 1);
}

#[test]
fn new_editor_seeds_both_lists() {
    let tracc = Tracc::new(None, None);
    assert_eq!(todo_texts(&tracc), vec!["This is a list entry"]);
    assert_eq!(time_texts(&tracc), vec!["start"]);
    assert_eq!(tracc.todos.selected, 0);
    assert_eq!(tracc.times.selected, 0);
}

#[test]
fn q_quits() {
    let mut tracc = editor();
    assert_eq!(tracc.handle_key_at(Key::Char('q'), at(10, 0)), Effect::Quit);
    assert_eq!(tracc.input_mode, Mode::Normal);
    assert_eq!(todo_texts(&tracc), vec!["a", "b", "c"]);
}

#[test]
fn j_and_k_move_the_focused_cursor() {
    let mut tracc = editor();
    assert_eq!(press(&mut tracc, "jj", at(10, 0)), Effect::Nothing);
    assert_eq!(tracc.todos.selected, 2);
    assert_eq!(tracc.times.selected, 1);
    press(&mut tracc, "jk", at(10, 0));
    assert_eq!(tracc.todos.selected, 1);
    press(&mut tracc, "\tk", at(10, 0));
    assert_eq!(tracc.focus, Focus::Bottom);
    assert_eq!(tracc.todos.selected, 1);
    assert_eq!(tracc.times.selected, 0);
    press(&mut tracc, "kjjj", at(10, 0));
    assert_eq!(tracc.times.selected, 1);
}

#[test]
fn tab_switches_the_focus() {
    let mut tracc = editor();
    assert_eq!(tracc.handle_key_at(Key::Char('\t'), at(10, 0)), Effect::Nothing);
    assert_eq!(tracc.focus, Focus::Bottom);
    tracc.handle_key_at(Key::Char('\t'), at(10, 0));
    assert_eq!(tracc.focus, Focus::Top);
}

#[test]
fn selection_follows_the_focus() {
    let mut tracc = editor();
    assert_eq!(tracc.todo_selection(), Some(0));
    assert_eq!(tracc.time_selection(), None);
    tracc.handle_key_at(Key::Char('\t'), at(10, 0));
    assert_eq!(tracc.todo_selection(), None);
    assert_eq!(tracc.time_selection(), Some(1));
}

#[test]
fn o_opens_a_new_todo_for_editing() {
    let mut tracc = editor();
    assert_eq!(tracc.handle_key_at(Key::Char('o'), at(10, 0)), Effect::ShowCursor);
    assert_eq!(tracc.input_mode, Mode::Insert);
    assert_eq!(todo_texts(&tracc), vec!["a", "", "b", "c"]);
    assert_eq!(tracc.todos.selected, 1);
    assert!(!tracc.todos.todos[1].done);
    assert_eq!(press(&mut tracc, "jq o", at(10, 0)), Effect::Nothing);
    assert_eq!(todo_texts(&tracc), vec!["a", "jq o", "b", "c"]);
    assert_eq!(tracc.handle_key_at(Key::Backspace, at(10, 0)), Effect::Nothing);
    assert_eq!(todo_texts(&tracc), vec!["a", "jq ", "b", "c"]);
    assert_eq!(tracc.handle_key_at(Key::Other, at(10, 0)), Effect::Nothing);
    assert_eq!(tracc.handle_key_at(Key::Esc, at(10, 0)), Effect::HideCursor);
    assert_eq!(tracc.input_mode, Mode::Normal);
    assert_eq!(todo_texts(&tracc), vec!["a", "jq ", "b", "c"]);
    assert_eq!(tracc.todos.selected, 1);
    assert_eq!(time_texts(&tracc), vec!["start", "code"]);
}

#[test]
fn o_opens_a_new_time_entry_stamped_now() {
    let mut tracc = editor();
    press(&mut tracc, "\tk", at(10, 0));
    assert_eq!(tracc.handle_key_at(Key::Char('o'), at(8, 30)), Effect::ShowCursor);
    assert_eq!(time_texts(&tracc), vec!["start", "", "code"]);
    assert_eq!(tracc.times.times[1].time, at(8, 30));
    assert_eq!(tracc.times.selected, 1);
    press(&mut tracc, "mail", at(8, 31));
    assert_eq!(tracc.handle_key_at(Key::Char('\n'), at(8, 32)), Effect::HideCursor);
    assert_eq!(time_texts(&tracc), vec!["start", "mail", "code"]);
    assert_eq!(todo_texts(&tracc), vec!["a", "b", "c"]);
}

#[test]
fn leaving_insert_mode_sorts_the_time_log() {
    let mut tracc = editor();
    tracc.handle_key_at(Key::Char('\t'), at(7, 0));
    tracc.handle_key_at(Key::Char('o'), at(7, 0));
    press(&mut tracc, "early", at(7, 0));
    assert_eq!(time_texts(&tracc), vec!["start", "code", "early"]);
    tracc.handle_key_at(Key::Esc, at(7, 0));
    assert_eq!(time_texts(&tracc), vec!["early", "start", "code"]);
    assert_eq!(tracc.times.selected, 2);
}

#[test]
fn leaving_insert_mode_drops_abandoned_entries_of_both_lists() {
    let mut tracc = editor();
    tracc.handle_key_at(Key::Char('o'), at(10, 0));
    assert_eq!(todo_texts(&tracc), vec!["a", "", "b", "c"]);
    tracc.handle_key_at(Key::Esc, at(10, 0));
    assert_eq!(todo_texts(&tracc), vec!["a", "b", "c"]);
    assert_eq!(tracc.todos.selected, 0);
    assert_eq!(tracc.todos.register.as_ref().map(|todo| todo.text.as_str()), Some(""));
    assert_eq!(time_texts(&tracc), vec!["start", "code"]);
    assert_eq!(tracc.times.selected, 1);
}

#[test]
fn a_starts_editing_the_selected_entry() {
    let mut tracc = editor();
    assert_eq!(tracc.handle_key_at(Key::Char('a'), at(10, 0)), Effect::ShowCursor);
    assert_eq!(tracc.input_mode, Mode::Insert);
    press(&mut tracc, "1", at(10, 0));
    tracc.handle_key_at(Key::Esc, at(10, 0));
    assert_eq!(tracc.handle_key_at(Key::Char('A'), at(10, 0)), Effect::ShowCursor);
    press(&mut tracc, "2", at(10, 0));
    tracc.handle_key_at(Key::Char('\n'), at(10, 0));
    assert_eq!(todo_texts(&tracc), vec!["a12", "b", "c"]);
    assert_eq!(tracc.input_mode, Mode::Normal);
}

#[test]
fn space_toggles_the_todo_in_focus_only() {
    let mut tracc = editor();
    assert_eq!(tracc.handle_key_at(Key::Char(' '), at(10, 0)), Effect::Nothing);
    assert!(tracc.todos.todos[0].done);
    tracc.handle_key_at(Key::Char('\t'), at(10, 0));
    tracc.handle_key_at(Key::Char(' '), at(10, 0));
    assert!(tracc.todos.todos[0].done);
    assert_eq!(time_texts(&tracc), vec!["start", "code"]);
    tracc.handle_key_at(Key::Char('\t'), at(10, 0));
    tracc.handle_key_at(Key::Char(' '), at(10, 0));
    assert!(!tracc.todos.todos[0].done);
}

#[test]
fn dd_removes_the_selected_entry() {
    let mut tracc = editor();
    assert_eq!(tracc.handle_key_at(Key::Char('d'), at(10, 0)), Effect::Nothing);
    assert_eq!(tracc.pending, Pending::Delete);
    assert_eq!(todo_texts(&tracc), vec!["a", "b", "c"]);
    assert_eq!(tracc.handle_key_at(Key::Char('d'), at(10, 0)), Effect::Nothing);
    assert_eq!(tracc.pending, Pending::Nothing);
    assert_eq!(todo_texts(&tracc), vec!["b", "c"]);
    assert_eq!(tracc.todos.register.as_ref().map(|todo| todo.text.as_str()), Some("a"));
    press(&mut tracc, "\tdd", at(10, 0));
    assert_eq!(time_texts(&tracc), vec!["start"]);
    assert_eq!(tracc.times.selected, 0);
    assert_eq!(todo_texts(&tracc), vec!["b", "c"]);
}

#[test]
fn d_swallows_the_key_behind_it() {
    let mut tracc = editor();
    assert_eq!(press(&mut tracc, "dq", at(10, 0)), Effect::Nothing);
    assert_eq!(tracc.pending, Pending::Nothing);
    assert_eq!(todo_texts(&tracc), vec!["a", "b", "c"]);
    assert_eq!(press(&mut tracc, "dj", at(10, 0)), Effect::Nothing);
    assert_eq!(tracc.todos.selected, 0);
    tracc.handle_key_at(Key::Char('d'), at(10, 0));
    assert_eq!(tracc.handle_key_at(Key::Esc, at(10, 0)), Effect::Nothing);
    assert_eq!(tracc.input_mode, Mode::Normal);
    assert_eq!(todo_texts(&tracc), vec!["a", "b", "c"]);
}

#[test]
fn y_swallows_the_key_behind_it() {
    let mut tracc = editor();
    assert_eq!(tracc.handle_key_at(Key::Char('y'), at(10, 0)), Effect::Nothing);
    assert_eq!(tracc.pending, Pending::Yank);
    assert_eq!(press(&mut tracc, "y", at(10, 0)), Effect::Nothing);
    assert_eq!(tracc.pending, Pending::Nothing);
    assert!(tracc.todos.register.is_none());
    assert_eq!(press(&mut tracc, "yd", at(10, 0)), Effect::Nothing);
    assert_eq!(tracc.pending, Pending::Nothing);
    assert_eq!(press(&mut tracc, "yq", at(10, 0)), Effect::Nothing);
    assert_eq!(todo_texts(&tracc), vec!["a", "b", "c"]);
}

#[test]
fn p_pastes_what_dd_removed() {
    let mut tracc = editor();
    press(&mut tracc, "ddjp", at(10, 0));
    assert_eq!(todo_texts(&tracc), vec!["b", "c", "a"]);
    assert_eq!(tracc.todos.selected, 2);
    press(&mut tracc, "kkp", at(10, 0));
    assert_eq!(todo_texts(&tracc), vec!["b", "a", "c", "a"]);
    press(&mut tracc, "\tp", at(10, 0));
    assert_eq!(time_texts(&tracc), vec!["start", "code"]);
}

#[test]
fn other_keys_do_nothing_in_normal_mode() {
    let mut tracc = editor();
    assert_eq!(press(&mut tracc, "xz1", at(10, 0)), Effect::Nothing);
    assert_eq!(tracc.handle_key_at(Key::Esc, at(10, 0)), Effect::Nothing);
    assert_eq!(tracc.handle_key_at(Key::Backspace, at(10, 0)), Effect::Nothing);
    assert_eq!(tracc.handle_key_at(Key::Other, at(10, 0)), Effect::Nothing);
    assert_eq!(tracc.handle_key_at(Key::Char('\n'), at(10, 0)), Effect::Nothing);
    assert_eq!(tracc.input_mode, Mode::Normal);
    assert_eq!(todo_texts(&tracc), vec!["a", "b", "c"]);
    assert_eq!(tracc.todos.selected, 0);
}

#[test]
fn keys_work_on_empty_lists() {
    let mut tracc = Tracc::new(Some(Vec::new()), Some(Vec::new()));
    press(&mut tracc, "jkddp a", at(10, 0));
    assert_eq!(tracc.input_mode, Mode::Insert);
    press(&mut tracc, "xy", at(10, 0));
    tracc.handle_key_at(Key::Backspace, at(10, 0));
    tracc.handle_key_at(Key::Esc, at(10, 0));
    assert!(tracc.todos.todos.is_empty());
    assert!(tracc.times.times.is_empty());
    press(&mut tracc, "\tjkddp a", at(10, 0));
    tracc.handle_key_at(Key::Esc, at(10, 0));
    assert!(tracc.times.times.is_empty());
    tracc.handle_key_at(Key::Char('o'), at(10, 0));
    press(&mut tracc, "go", at(10, 0));
    tracc.handle_key_at(Key::Esc, at(10, 0));
    assert_eq!(time_texts(&tracc), vec!["go"]);
    assert_eq!(tracc.times.selected, 0);
}

#[test]
fn set_mode_reports_the_cursor_to_show_or_hide() {
    let mut tracc = editor();
    assert_eq!(tracc.set_mode(Mode::Insert), Effect::ShowCursor);
    assert_eq!(tracc.input_mode, Mode::Insert);
    assert_eq!(tracc.set_mode(Mode::Normal), Effect::HideCursor);
    assert_eq!(tracc.input_mode, Mode::Normal);
    assert_eq!(todo_texts(&tracc), vec!["a", "b", "c"]);
}

#[test]
fn handle_key_reads_the_clock_for_a_new_time_entry() {
    let mut tracc = editor();
    tracc.handle_key(Key::Char('\t'));
    assert_eq!(tracc.handle_key(Key::Char('o')), Effect::ShowCursor);
    assert_eq!(time_texts(&tracc), vec!["start", "code", ""]);
    assert!(tracc.times.times[2].time.hour < 24);
    assert!(tracc.times.times[2].time.minute < 60);
    assert_eq!(tracc.handle_key(Key::Char('q')), Effect::Nothing);
    assert_eq!(time_texts(&tracc), vec!["start", "code", "q"]);
}

#[test]
fn summary_shows_sum_and_tasks() {
    let tracc = Tracc::new(
        None,
        Some(vec![
            TimePoint::at("start", at(8, 0)),
            TimePoint::at("lunch", at(12, 0)),
            TimePoint::at("code", at(13, 0)),
            TimePoint::at("end", at(17, 0)),
        ]),
    );
    assert_eq!(tracc.summary_at(at(18, 0)), "Sum for today: 8:00\ncode: 4:00 | start: 4:00");
    assert_eq!(tracc.summary(), "Sum for today: 8:00\ncode: 4:00 | start: 4:00");
    let empty = Tracc::new(None, Some(Vec::new()));
    assert_eq!(empty.summary_at(at(18, 0)), "Sum for today: 0:00\n");
}

#[test]
fn time_sheet_type_is_shared_with_the_editor() {
    let sheet = TimeSheet::open_or_create(Some(vec![TimePoint::at("start", at(8, 0))]));
    let tracc = Tracc { todos: tracc::todolist::TodoList::open_or_create(None), times: sheet, input_mode: Mode::Normal, focus: Focus::Bottom, pending: Pending::Nothing };
    assert_eq!(tracc.time_selection(), Some(0));
}
