use pomodoro_todo::app::App;
use pomodoro_todo::display::format_duration;
use pomodoro_todo::export::folders_from_export_text;
use pomodoro_todo::folder::{SelectedTaskRow, TaskFolder, Todo};
use pomodoro_todo::text::{trimmed, EXPORT_PATH};

fn todo(text: &str, done: bool) -> Todo {
    Todo { text: text.to_string(), done }
}

fn folder(name: &str, open: &[&str], done: &[&str]) -> TaskFolder {
    let mut f = TaskFolder::new(name.to_string());
    for t in open {
        f.todos.push(todo(t, false));
    }
    for t in done {
        f.completed.push(todo(t, true));
    }
    f
}

fn names(folders: &[TaskFolder]) -> Vec<String> {
    folders.iter().map(|f| f.name.clone()).collect()
}

fn texts(todos: &[Todo]) -> Vec<(String, bool)> {
    todos.iter().map(|t| (t.text.clone(), t.done)).collect()
}

#[test]
fn visible_rows_count_open_header_and_expanded_completed() {
    let mut f = folder("Work", &["a", "b"], &["c"]);
    assert_eq!(f.visible_task_rows(), 4);
    f.completed_collapsed = true;
    assert_eq!(f.visible_task_rows(), 3);
    let empty = folder("Empty", &[], &[]);
    assert_eq!(empty.visible_task_rows(), 1);
}

#[test]
fn selected_row_maps_to_task_header_or_completed() {
    let mut f = folder("Work", &["a", "b"], &["c", "d"]);
    f.selected_row = 1;
    assert!(f.selected_task_row() == Some(SelectedTaskRow::Active(1)));
    f.selected_row = 2;
    assert!(f.selected_task_row() == Some(SelectedTaskRow::CompletedHeader));
    f.selected_row = 4;
    assert!(f.selected_task_row() == Some(SelectedTaskRow::Completed(1)));
    f.selected_row = 5;
    assert!(f.selected_task_row() == None);
    f.completed_collapsed = true;
    assert!(f.selected_task_row() == Some(SelectedTaskRow::CompletedHeader));
}

#[test]
fn clamp_moves_selection_onto_last_visible_row() {
    let mut f = folder("Work", &["a"], &["b", "c"]);
    f.selected_row = 3;
    f.clamp_selection();
    assert_eq!(f.selected_row, 3);
    f.completed_collapsed = true;
    f.clamp_selection();
    assert_eq!(f.selected_row, 1);
    f.selected_row = 0;
    f.clamp_selection();
    assert_eq!(f.selected_row, 0);
}

#[test]
fn format_duration_pads_minutes_and_seconds() {
    assert_eq!(format_duration(0), "00:00");
    assert_eq!(format_duration(65), "01:05");
    assert_eq!(format_duration(1500), "25:00");
    assert_eq!(format_duration(300), "05:00");
    assert_eq!(format_duration(6001), "100:01");
}

#[test]
fn trimmed_removes_unicode_white_space() {
    assert_eq!(trimmed("  hello world \t\n"), "hello world");
    assert_eq!(trimmed("\u{3000}x\u{a0}"), "x");
    assert_eq!(trimmed("   "), "");
    assert_eq!(trimmed(""), "");
}

#[test]
fn export_of_default_app_is_exact() {
    let app = App::default();
    assert_eq!(
        app.to_export_text(),
        "# Pomodoro Todo Export v1\n\n## Folder: Inbox\n- [ ] Add your first task\n- [ ] Create a task folder with f\n\n"
    );
}

#[test]
fn export_lists_open_then_completed_tasks_per_folder() {
    let mut app = App::default();
    app.folders = vec![folder("A", &["one"], &["two"]), folder("B", &[], &[])];
    assert_eq!(
        app.to_export_text(),
        "# Pomodoro Todo Export v1\n\n## Folder: A\n- [ ] one\n- [x] two\n\n## Folder: B\n\n"
    );
}

#[test]
fn import_reads_folders_and_tasks() {
    let text = "# Pomodoro Todo Export v1\n\n## Folder:  Home \n- [ ] dishes\n- [x] laundry\nnoise line\n\n## Folder: Work\n- [ ] report\r\n";
    let folders = folders_from_export_text(text).unwrap();
    assert_eq!(names(&folders), vec!["Home", "Work"]);
    assert_eq!(texts(&folders[0].todos), vec![("dishes".to_string(), false)]);
    assert_eq!(texts(&folders[0].completed), vec![("laundry".to_string(), true)]);
    assert_eq!(texts(&folders[1].todos), vec![("report".to_string(), false)]);
    assert_eq!(folders[1].selected_row, 0);
    assert!(!folders[1].completed_collapsed);
}

#[test]
fn import_keeps_carriage_return_of_last_unterminated_line() {
    let folders = folders_from_export_text("## Folder: X\n- [ ] a\r").unwrap();
    assert_eq!(texts(&folders[0].todos), vec![("a\r".to_string(), false)]);
}

#[test]
fn import_fails_on_task_before_folder() {
    assert!(folders_from_export_text("- [ ] orphan\n## Folder: A\n").is_none());
    assert!(folders_from_export_text("- [x] orphan\n").is_none());
}

#[test]
fn import_fails_without_folder() {
    assert!(folders_from_export_text("").is_none());
    assert!(folders_from_export_text("# Pomodoro Todo Export v1\n\njust text\n").is_none());
    assert!(folders_from_export_text("## Folder:A\n").is_none());
}

#[test]
fn import_of_export_restores_folders_on_example() {
    let mut app = App::default();
    let mut a = folder("A", &["one", "two"], &["three"]);
    a.selected_row = 3;
    a.completed_collapsed = false;
    let b = folder("B", &[], &["x"]);
    app.folders = vec![a, b];
    let back = folders_from_export_text(&app.to_export_text()).unwrap();
    assert_eq!(names(&back), vec!["A", "B"]);
    assert_eq!(
        texts(&back[0].todos),
        vec![("one".to_string(), false), ("two".to_string(), false)]
    );
    assert_eq!(texts(&back[0].completed), vec![("three".to_string(), true)]);
    assert_eq!(back[0].selected_row, 0);
    assert_eq!(texts(&back[1].completed), vec![("x".to_string(), true)]);
}

#[test]
fn export_path_is_the_file_name() {
    assert_eq!(EXPORT_PATH, "pomodoro-todo-export.txt");
}

#[test]
fn unrecognised_lines_do_not_change_an_import() {
    let text = "## Folder: A\n- [ ] a\n- [x] b\n";
    let noisy = "stray\n## Folder: A\n-- [ ] not a task\n- [ ] a\n#comment\r\n- [x] b\n\n";
    let plain = folders_from_export_text(text).unwrap();
    let with_noise = folders_from_export_text(noisy).unwrap();
    assert_eq!(names(&plain), names(&with_noise));
    assert_eq!(texts(&plain[0].todos), texts(&with_noise[0].todos));
    assert_eq!(texts(&plain[0].completed), texts(&with_noise[0].completed));
}
