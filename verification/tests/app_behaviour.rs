use pomodoro_todo::app::{
    App, Focus, InputMode, PomodoroMode, TickStep, BREAK_SECONDS, WORK_SECONDS,
};
use pomodoro_todo::display::RowKind;
use pomodoro_todo::folder::{SelectedTaskRow, TaskFolder, Todo};
use pomodoro_todo::keys::{Command, Key, KeyPress};

fn press(app: &mut App, code: Key) -> Command {
    app.handle_key(KeyPress { code, ctrl: false })
}

fn type_text(app: &mut App, text: &str) {
    for c in text.chars() {
        press(app, Key::Char(c));
    }
}

fn open_texts(app: &App) -> Vec<String> {
    app.folders[app.selected_folder].todos.iter().map(|t| t.text.clone()).collect()
}

fn done_texts(app: &App) -> Vec<String> {
    app.folders[app.selected_folder].completed.iter().map(|t| t.text.clone()).collect()
}

#[test]
fn default_app_has_inbox_and_paused_work_period() {
    let app = App::default();
    assert_eq!(app.folders.len(), 1);
    assert_eq!(app.folders[0].name, "Inbox");
    assert_eq!(open_texts(&app), vec!["Add your first task", "Create a task folder with f"]);
    assert!(app.mode == PomodoroMode::Work);
    assert_eq!(app.remaining_secs, WORK_SECONDS);
    assert_eq!(WORK_SECONDS, 25 * 60);
    assert_eq!(BREAK_SECONDS, 5 * 60);
    assert!(!app.running);
    assert!(app.focus == Focus::Todos);
    assert!(app.input_mode == InputMode::Todo);
    assert_eq!(app.status, "Export/import: e exports, i imports (pomodoro-todo-export.txt)");
}

#[test]
fn control_c_quits_and_q_quits_only_with_empty_input() {
    let mut app = App::default();
    assert!(app.handle_key(KeyPress { code: Key::Char('c'), ctrl: true }) == Command::Quit);
    assert!(press(&mut app, Key::Char('q')) == Command::Quit);
    type_text(&mut app, "x");
    assert!(press(&mut app, Key::Char('q')) == Command::Continue);
    assert_eq!(app.input, "xq");
}

#[test]
fn typing_and_enter_adds_trimmed_task_and_selects_it() {
    let mut app = App::default();
    type_text(&mut app, "buy milk ");
    app.input.insert_str(0, "  ");
    assert_eq!(app.input, "  buy milk ");
    press(&mut app, Key::Enter);
    assert_eq!(open_texts(&app).last().unwrap(), "buy milk");
    assert_eq!(app.input, "");
    assert_eq!(app.folders[0].selected_row, 2);
    assert!(app.folders[0].selected_task_row() == Some(SelectedTaskRow::Active(2)));
}

#[test]
fn enter_on_blank_input_keeps_it() {
    // a space typed first is the complete-task key, so the blank text is set directly
    let mut app = App::default();
    app.input = "   ".to_string();
    press(&mut app, Key::Enter);
    assert_eq!(open_texts(&app).len(), 2);
    assert_eq!(app.input, "   ");
}

#[test]
fn backspace_and_escape_edit_the_input() {
    let mut app = App::default();
    type_text(&mut app, "ab");
    press(&mut app, Key::Backspace);
    assert_eq!(app.input, "a");
    press(&mut app, Key::Esc);
    assert_eq!(app.input, "");
    press(&mut app, Key::Backspace);
    assert_eq!(app.input, "");
}

#[test]
fn f_starts_a_folder_and_enter_creates_it() {
    let mut app = App::default();
    press(&mut app, Key::Char('f'));
    assert!(app.input_mode == InputMode::Folder);
    type_text(&mut app, " Work ");
    press(&mut app, Key::Enter);
    assert!(app.input_mode == InputMode::Todo);
    assert_eq!(app.folders.len(), 2);
    assert_eq!(app.folders[1].name, "Work");
    assert_eq!(app.selected_folder, 1);
    assert!(app.folders[1].todos.is_empty());
}

#[test]
fn escape_cancels_folder_input_and_blank_name_adds_nothing() {
    let mut app = App::default();
    press(&mut app, Key::Char('f'));
    type_text(&mut app, "x");
    press(&mut app, Key::Esc);
    assert!(app.input_mode == InputMode::Todo);
    assert_eq!(app.input, "");
    press(&mut app, Key::Char('f'));
    type_text(&mut app, "  ");
    press(&mut app, Key::Enter);
    assert_eq!(app.folders.len(), 1);
    assert!(app.input_mode == InputMode::Todo);
}

#[test]
fn e_and_i_ask_for_export_and_import_when_nothing_is_typed() {
    let mut app = App::default();
    assert!(press(&mut app, Key::Char('e')) == Command::Export);
    assert!(press(&mut app, Key::Char('i')) == Command::Import);
    type_text(&mut app, "z");
    assert!(press(&mut app, Key::Char('e')) == Command::Continue);
    assert_eq!(app.input, "ze");
}

#[test]
fn space_completes_and_reopens_tasks() {
    let mut app = App::default();
    press(&mut app, Key::Char(' '));
    assert_eq!(open_texts(&app), vec!["Create a task folder with f"]);
    assert_eq!(done_texts(&app), vec!["Add your first task"]);
    assert!(app.folders[0].completed[0].done);
    // rows: open(0), header(1), completed(2)
    app.folders[0].selected_row = 2;
    press(&mut app, Key::Char(' '));
    assert_eq!(open_texts(&app), vec!["Create a task folder with f", "Add your first task"]);
    assert!(done_texts(&app).is_empty());
    assert!(!app.folders[0].todos[1].done);
    assert_eq!(app.folders[0].selected_row, 1);
}

#[test]
fn space_on_header_collapses_and_c_toggles_collapse() {
    let mut app = App::default();
    app.folders[0].selected_row = 2;
    press(&mut app, Key::Char(' '));
    assert!(app.folders[0].completed_collapsed);
    press(&mut app, Key::Char('c'));
    assert!(!app.folders[0].completed_collapsed);
}

#[test]
fn collapse_clamps_selection_off_completed_tasks() {
    let mut app = App::default();
    app.folders[0].completed.push(Todo { text: "old".to_string(), done: true });
    app.folders[0].selected_row = 3;
    press(&mut app, Key::Char('c'));
    assert!(app.folders[0].completed_collapsed);
    assert_eq!(app.folders[0].selected_row, 2);
}

#[test]
fn delete_removes_selected_task_only() {
    let mut app = App::default();
    app.folders[0].selected_row = 1;
    press(&mut app, Key::Delete);
    assert_eq!(open_texts(&app), vec!["Add your first task"]);
    assert_eq!(app.folders[0].selected_row, 1);
    press(&mut app, Key::Delete);
    assert_eq!(open_texts(&app), vec!["Add your first task"]);
}

#[test]
fn arrows_wrap_rows_and_folders() {
    let mut app = App::default();
    press(&mut app, Key::Up);
    assert_eq!(app.folders[0].selected_row, 2);
    press(&mut app, Key::Down);
    assert_eq!(app.folders[0].selected_row, 0);
    app.folders.push(TaskFolder::new("Second".to_string()));
    press(&mut app, Key::Left);
    assert_eq!(app.selected_folder, 1);
    press(&mut app, Key::Right);
    assert_eq!(app.selected_folder, 0);
    type_text(&mut app, "x");
    press(&mut app, Key::Right);
    assert_eq!(app.selected_folder, 0);
}

#[test]
fn tab_moves_focus_and_timer_keys_drive_the_timer() {
    let mut app = App::default();
    press(&mut app, Key::Tab);
    assert!(app.focus == Focus::Timer);
    press(&mut app, Key::Char(' '));
    assert!(app.running);
    press(&mut app, Key::Enter);
    assert!(!app.running);
    press(&mut app, Key::Char('s'));
    assert!(app.mode == PomodoroMode::Break);
    assert_eq!(app.remaining_secs, BREAK_SECONDS);
    app.remaining_secs = 10;
    press(&mut app, Key::Char('r'));
    assert_eq!(app.remaining_secs, BREAK_SECONDS);
    press(&mut app, Key::Char('x'));
    assert_eq!(app.input, "");
    press(&mut app, Key::Tab);
    assert!(app.focus == Focus::Todos);
}

#[test]
fn timer_counts_down_only_while_running() {
    let mut app = App::default();
    app.advance_timer(30);
    assert_eq!(app.remaining_secs, WORK_SECONDS);
    app.running = true;
    app.advance_timer(0);
    assert_eq!(app.remaining_secs, WORK_SECONDS);
    app.advance_timer(100);
    assert_eq!(app.remaining_secs, WORK_SECONDS - 100);
    assert!(app.running);
}

#[test]
fn timer_switches_period_when_time_is_used_up() {
    let mut app = App::default();
    app.running = true;
    app.remaining_secs = 5;
    app.advance_timer(5);
    assert!(app.mode == PomodoroMode::Break);
    assert_eq!(app.remaining_secs, BREAK_SECONDS);
    assert!(!app.running);
    app.running = true;
    app.advance_timer(1000);
    assert!(app.mode == PomodoroMode::Work);
    assert_eq!(app.remaining_secs, WORK_SECONDS);
}

#[test]
fn update_timer_on_paused_timer_changes_nothing() {
    let mut app = App::default();
    app.update_timer();
    assert_eq!(app.remaining_secs, WORK_SECONDS);
    assert!(!app.running);
}

#[test]
fn countdown_in_two_steps_equals_one_step() {
    let mut a = App::default();
    let mut b = App::default();
    a.running = true;
    b.running = true;
    a.advance_timer(40);
    a.advance_timer(60);
    b.advance_timer(100);
    assert_eq!(a.remaining_secs, b.remaining_secs);
}

#[test]
fn switching_twice_gives_back_the_period_reset() {
    let mut app = App::default();
    app.remaining_secs = 12;
    app.running = true;
    app.switch_mode();
    app.switch_mode();
    assert!(app.mode == PomodoroMode::Work);
    assert_eq!(app.remaining_secs, WORK_SECONDS);
    assert!(!app.running);
}

#[test]
fn task_counts_sum_over_folders() {
    let mut app = App::default();
    let mut f = TaskFolder::new("B".to_string());
    f.completed.push(Todo { text: "x".to_string(), done: true });
    f.todos.push(Todo { text: "y".to_string(), done: false });
    app.folders.push(f);
    assert_eq!(app.task_counts(), (3, 1));
}

#[test]
fn finish_export_records_status() {
    let mut app = App::default();
    app.finish_export(Ok(()));
    assert_eq!(app.status, "Exported to pomodoro-todo-export.txt");
    app.finish_export(Err("disk full".to_string()));
    assert_eq!(app.status, "Export failed: disk full");
}

#[test]
fn finish_import_replaces_folders_or_reports_failure() {
    let mut app = App::default();
    app.finish_import(Err("not found".to_string()));
    assert_eq!(app.status, "Import failed: not found");
    app.finish_import(Ok("nothing here".to_string()));
    assert_eq!(app.status, "Import failed: invalid export text");
    assert_eq!(app.folders.len(), 1);
    app.selected_folder = 0;
    app.finish_import(Ok("## Folder: A\n- [ ] a\n## Folder: B\n- [x] b\n".to_string()));
    assert_eq!(app.status, "Imported from pomodoro-todo-export.txt");
    assert_eq!(app.folders.len(), 2);
    assert_eq!(app.selected_folder, 0);
    assert_eq!(app.folders[1].completed[0].text, "b");
}

#[test]
fn export_then_import_restores_the_tasks() {
    let mut app = App::default();
    press(&mut app, Key::Char(' '));
    let text = app.to_export_text();
    let mut other = App::default();
    other.finish_import(Ok(text));
    assert_eq!(open_texts(&other), vec!["Create a task folder with f"]);
    assert_eq!(done_texts(&other), vec!["Add your first task"]);
}

#[test]
fn screen_texts_describe_the_state() {
    let mut app = App::default();
    assert_eq!(app.folder_labels(), vec!["Inbox (2/0)".to_string()]);
    assert_eq!(app.input_title(), " New task in Inbox ");
    assert_eq!(app.timer_line(), "Work  |  Paused  |  25:00");
    assert_eq!(app.timer_progress(), (0, 1500));
    assert_eq!(app.stats_line(), "Folders: 1   Open: 2   Done: 0");
    assert_eq!(
        app.help_line(),
        "Todos: type task | Enter add | f folder | e export | i import | Arrows nav | Space complete | c collapse | Delete remove | Export/import: e exports, i imports (pomodoro-todo-export.txt)"
    );
    let rows = app.current_task_rows();
    let shown: Vec<(String, bool)> = rows.iter().map(|r| (r.text.clone(), r.selected)).collect();
    assert_eq!(
        shown,
        vec![
            ("[ ] Add your first task".to_string(), true),
            ("[ ] Create a task folder with f".to_string(), false),
            ("[-] Completed tasks (0)".to_string(), false),
        ]
    );
    assert!(rows[2].kind == RowKind::Header);
    press(&mut app, Key::Char('f'));
    assert_eq!(app.input_title(), " New folder ");
    assert_eq!(app.help_line(), "Folder: type folder name | Enter create | Esc cancel | Export/import: e exports, i imports (pomodoro-todo-export.txt)");
    app.running = true;
    app.remaining_secs = 1499;
    assert_eq!(app.timer_line(), "Work  |  Running  |  24:59");
    assert_eq!(app.timer_progress(), (1, 1500));
}

#[test]
fn empty_folder_shows_placeholder_and_collapsed_header() {
    let mut app = App::default();
    app.folders[0].todos.clear();
    app.folders[0].selected_row = 0;
    let rows = app.current_task_rows();
    assert_eq!(rows.len(), 1);
    assert!(rows[0].kind == RowKind::Placeholder);
    assert_eq!(rows[0].text, "No tasks in this folder. Type below and press Enter.");
    app.folders[0].completed.push(Todo { text: "done".to_string(), done: true });
    app.folders[0].completed_collapsed = true;
    let rows = app.current_task_rows();
    assert_eq!(rows.len(), 1);
    assert_eq!(rows[0].text, "[+] Completed tasks (1)");
    assert!(rows[0].selected);
    app.folders[0].completed_collapsed = false;
    app.folders[0].selected_row = 1;
    let rows = app.current_task_rows();
    assert_eq!(rows[1].text, "[x] done");
    assert!(rows[1].selected);
    assert!(rows[1].kind == RowKind::Done);
}

#[test]
fn next_then_previous_folder_returns_to_start() {
    let mut app = App::default();
    app.folders.push(TaskFolder::new("Two".to_string()));
    app.folders.push(TaskFolder::new("Three".to_string()));
    app.selected_folder = 2;
    press(&mut app, Key::Right);
    assert_eq!(app.selected_folder, 0);
    press(&mut app, Key::Left);
    assert_eq!(app.selected_folder, 2);
    press(&mut app, Key::Left);
    press(&mut app, Key::Right);
    assert_eq!(app.selected_folder, 2);
}

#[test]
fn collapsing_twice_restores_the_folder() {
    let mut app = App::default();
    app.folders[0].completed.push(Todo { text: "old".to_string(), done: true });
    app.folders[0].selected_row = 1;
    press(&mut app, Key::Char('c'));
    press(&mut app, Key::Char('c'));
    assert!(!app.folders[0].completed_collapsed);
    assert_eq!(app.folders[0].selected_row, 1);
    assert_eq!(done_texts(&app), vec!["old"]);
}

#[test]
fn default_app_accepts_keys_and_counts_tasks() {
    let app = App::default();
    assert!(app.accepts_keys());
    assert!(app.has_current_folder());
    assert_eq!(app.checked_total_tasks(), Some(2));
    let mut broken = App::default();
    broken.selected_folder = 3;
    assert!(!broken.accepts_keys());
    assert!(!broken.has_current_folder());
}

#[test]
fn advance_timer_reports_what_became_of_the_tick() {
    let mut app = App::default();
    assert!(app.advance_timer(3) == TickStep::Restart);
    app.running = true;
    let before = app.last_tick;
    assert!(app.advance_timer(0) == TickStep::Keep);
    assert!(app.last_tick == before);
    assert!(app.advance_timer(7) == TickStep::Advance(7));
    assert!(app.last_tick == before + std::time::Duration::from_secs(7));
    app.remaining_secs = 2;
    assert!(app.advance_timer(2) == TickStep::Restart);
    assert!(app.mode == PomodoroMode::Break);
}

#[test]
fn keys_other_than_timer_reset_keep_the_tick() {
    let mut app = App::default();
    let before = app.last_tick;
    type_text(&mut app, "ab");
    press(&mut app, Key::Backspace);
    press(&mut app, Key::Enter);
    press(&mut app, Key::Tab);
    press(&mut app, Key::Char(' '));
    press(&mut app, Key::Char('x'));
    assert!(app.last_tick == before);
    assert!(app.running);
}

#[test]
fn completing_and_reopening_keeps_the_task_texts() {
    let mut app = App::default();
    let all = |app: &App| {
        let mut v: Vec<String> = app.folders[0].todos.iter().map(|t| t.text.clone()).collect();
        v.extend(app.folders[0].completed.iter().map(|t| t.text.clone()));
        v.sort();
        v
    };
    let start = all(&app);
    press(&mut app, Key::Char(' '));
    assert_eq!(all(&app), start);
    app.folders[0].selected_row = 2;
    press(&mut app, Key::Char(' '));
    assert_eq!(all(&app), start);
}
