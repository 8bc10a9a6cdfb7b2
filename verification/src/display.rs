//! The text the screen shows: labels, rows and lines computed from the
//! application state, for a terminal front end to lay out and colour.
use vstd::prelude::*;
use crate::app::{mode_seconds, open_total, done_total, App, Focus, InputMode, PomodoroMode};
use crate::folder::{total_tasks, FolderModel, SelectedTaskRow};
use crate::text::{decimal, decimal2, owned, push_decimal, push_decimal2, push_str};

verus! {

/// `seconds` as minutes and seconds, each of at least two digits
/// (`format!("{:02}:{:02}", seconds / 60, seconds % 60)`).
pub open spec fn duration_text(seconds: nat) -> Seq<char> {
    decimal2(seconds / 60) + seq![':'] + decimal2(seconds % 60)
}

/// Shows a number of seconds as `mm:ss`.
pub fn format_duration(seconds: u64) -> (text: String)
    ensures
        text@ == duration_text(seconds as nat),
{
    let mut text = String::new();
    push_decimal2(&mut text, seconds / 60);
    push_str(&mut text, ":");
    proof {
        reveal_strlit(":");
    }
    push_decimal2(&mut text, seconds % 60);
    assert(text@ =~= duration_text(seconds as nat));
    text
}

/// What a row of the task list is.
#[derive(Clone, Copy, PartialEq, Eq, Structural)]
pub enum RowKind {
    Open,
    Header,
    Done,
    Placeholder,
}

/// A row of the task list: its kind, its text and whether it is selected.
pub struct TaskRow {
    pub kind: RowKind,
    pub text: String,
    pub selected: bool,
}

pub struct TaskRowModel {
    pub kind: RowKind,
    pub text: Seq<char>,
    pub selected: bool,
}

impl View for TaskRow {
    type V = TaskRowModel;

    open spec fn view(&self) -> TaskRowModel {
        TaskRowModel { kind: self.kind, text: self.text@, selected: self.selected }
    }
}

/// A folder's label in the folder list: its name, then its numbers of open
/// and of completed tasks.
pub open spec fn folder_label(f: FolderModel) -> Seq<char> {
    f.name + " ("@ + decimal(f.todos.len()) + "/"@ + decimal(f.completed.len()) + ")"@
}

/// The row of the open task `i`.
pub open spec fn open_row(f: FolderModel, i: int) -> TaskRowModel {
    TaskRowModel {
        kind: RowKind::Open,
        text: "[ ] "@ + f.todos[i].text,
        selected: f.selected() == Some(SelectedTaskRow::Active(i as usize)),
    }
}

/// The row of the completed task `i`.
pub open spec fn done_row(f: FolderModel, i: int) -> TaskRowModel {
    TaskRowModel {
        kind: RowKind::Done,
        text: "[x] "@ + f.completed[i].text,
        selected: f.selected() == Some(SelectedTaskRow::Completed(i as usize)),
    }
}

/// The header of the completed section: `[+]` when collapsed, `[-]` when
/// not, and the number of completed tasks.
pub open spec fn header_row(f: FolderModel) -> TaskRowModel {
    TaskRowModel {
        kind: RowKind::Header,
        text: (if f.completed_collapsed {
            "[+]"@
        } else {
            "[-]"@
        }) + " Completed tasks ("@ + decimal(f.completed.len()) + ")"@,
        selected: f.selected() == Some(SelectedTaskRow::CompletedHeader),
    }
}

/// The row shown in place of the list when a folder has no task.
pub open spec fn placeholder_row() -> TaskRowModel {
    TaskRowModel {
        kind: RowKind::Placeholder,
        text: "No tasks in this folder. Type below and press Enter."@,
        selected: false,
    }
}

/// The rows of a folder's task list: its open tasks, the header of the
/// completed section and, unless collapsed, its completed tasks; or the
/// placeholder when it has no task.
pub open spec fn task_rows(f: FolderModel) -> Seq<TaskRowModel> {
    if f.todos.len() == 0 && f.completed.len() == 0 {
        seq![placeholder_row()]
    } else {
        Seq::new(f.todos.len(), |i: int| open_row(f, i)).push(header_row(f)) + if f.completed_collapsed {
            Seq::empty()
        } else {
            Seq::new(f.completed.len(), |i: int| done_row(f, i))
        }
    }
}

/// The title of the input box.
pub open spec fn input_title_text(mode: InputMode, folder_name: Seq<char>) -> Seq<char> {
    match mode {
        InputMode::Todo => " New task in "@ + folder_name + " "@,
        InputMode::Folder => " New folder "@,
    }
}

/// The line above the progress bar: the period, whether the timer runs,
/// and the time left.
pub open spec fn timer_text(mode: PomodoroMode, running: bool, remaining: nat) -> Seq<char> {
    (match mode {
        PomodoroMode::Work => "Work"@,
        PomodoroMode::Break => "Break"@,
    }) + "  |  "@ + (if running {
        "Running"@
    } else {
        "Paused"@
    }) + "  |  "@ + duration_text(remaining)
}

/// The key help for the pane that has the focus.
pub open spec fn help_for(focus: Focus, mode: InputMode) -> Seq<char> {
    match (focus, mode) {
        (Focus::Todos, InputMode::Todo) => "Todos: type task | Enter add | f folder | e export | i import | Arrows nav | Space complete | c collapse | Delete remove"@,
        (Focus::Todos, InputMode::Folder) => "Folder: type folder name | Enter create | Esc cancel"@,
        (Focus::Timer, _) => "Timer: Space/Enter start-pause | r reset | s switch mode | Tab todos | q quit"@,
    }
}

fn push_row(rows: &mut Vec<TaskRow>, kind: RowKind, prefix: &str, text: &str, selected: bool)
    ensures
        final(rows)@.len() == old(rows)@.len() + 1,
        forall|i: int| 0 <= i < old(rows)@.len() ==> final(rows)@[i] == old(rows)@[i],
        final(rows)@.last()@ == (TaskRowModel { kind, text: prefix@ + text@, selected }),
{
    let mut s = owned(prefix);
    push_str(&mut s, text);
    rows.push(TaskRow { kind, text: s, selected });
}

impl App {
    /// The labels of the folder list, one per folder (see `folder_label`).
    pub fn folder_labels(&self) -> (labels: Vec<String>)
        ensures
            labels@.len() == self.folders@.len(),
            forall|i: int| 0 <= i < labels@.len() ==> (#[trigger] labels@[i])@ == folder_label(
                self.folders@[i]@,
            ),
    {
        let mut labels: Vec<String> = Vec::new();
        let mut k: usize = 0;
        while k < self.folders.len()
            invariant
                k <= self.folders@.len(),
                labels@.len() == k,
                forall|i: int| 0 <= i < k ==> (#[trigger] labels@[i])@ == folder_label(
                    self.folders@[i]@,
                ),
            decreases self.folders@.len() - k,
        {
            let folder = &self.folders[k];
            let mut label = owned(folder.name.as_str());
            push_str(&mut label, " (");
            push_decimal(&mut label, folder.todos.len() as u64);
            push_str(&mut label, "/");
            push_decimal(&mut label, folder.completed.len() as u64);
            push_str(&mut label, ")");
            labels.push(label);
            k += 1;
        }
        labels
    }

    /// The rows of the selected folder's task list (see `task_rows`).
    pub fn current_task_rows(&self) -> (rows: Vec<TaskRow>)
        requires
            self@.has_current(),
        ensures
            rows@.map_values(|r: TaskRow| r@) == task_rows(self@.current()),
    {
        let folder = self.current_folder();
        let ghost f = folder@;
        let mut rows: Vec<TaskRow> = Vec::new();
        if folder.todos.len() == 0 && folder.completed.len() == 0 {
            let text = owned("No tasks in this folder. Type below and press Enter.");
            rows.push(TaskRow { kind: RowKind::Placeholder, text, selected: false });
            assert(rows@.map_values(|r: TaskRow| r@) =~= task_rows(f));
            return rows;
        }
        let selected = folder.selected_task_row();
        let mut k: usize = 0;
        while k < folder.todos.len()
            invariant
                f == folder@,
                f.fits(),
                selected == f.selected(),
                k <= folder.todos@.len(),
                rows@.len() == k,
                forall|i: int| 0 <= i < k ==> (#[trigger] rows@[i])@ == open_row(f, i),
            decreases folder.todos@.len() - k,
        {
            let is_selected = match selected {
                Some(SelectedTaskRow::Active(index)) => index == k,
                _ => false,
            };
            push_row(&mut rows, RowKind::Open, "[ ] ", folder.todos[k].text.as_str(), is_selected);
            k += 1;
        }
        let icon = if folder.completed_collapsed {
            "[+]"
        } else {
            "[-]"
        };
        let mut header = owned(icon);
        push_str(&mut header, " Completed tasks (");
        push_decimal(&mut header, folder.completed.len() as u64);
        push_str(&mut header, ")");
        let header_selected = match selected {
            Some(SelectedTaskRow::CompletedHeader) => true,
            _ => false,
        };
        rows.push(TaskRow { kind: RowKind::Header, text: header, selected: header_selected });
        assert(rows@.last()@.text =~= header_row(f).text);
        assert(rows@.last()@ == header_row(f));
        let ghost head_rows = rows@;
        let base = rows.len();
        if !folder.completed_collapsed {
            let mut k: usize = 0;
            while k < folder.completed.len()
                invariant
                    f == folder@,
                    selected == f.selected(),
                    k <= folder.completed@.len(),
                    base == head_rows.len(),
                    rows@.len() == base + k,
                    forall|i: int| 0 <= i < base ==> rows@[i] == head_rows[i],
                    forall|i: int| 0 <= i < k ==> (#[trigger] rows@[base + i])@ == done_row(f, i),
                decreases folder.completed@.len() - k,
            {
                let is_selected = match selected {
                    Some(SelectedTaskRow::Completed(index)) => index == k,
                    _ => false,
                };
                push_row(
                    &mut rows,
                    RowKind::Done,
                    "[x] ",
                    folder.completed[k].text.as_str(),
                    is_selected,
                );
                k += 1;
            }
        }
        let ghost n = f.todos.len() as int;
        assert forall|j: int| 0 <= j < rows@.len() implies rows@.map_values(|r: TaskRow| r@)[j]
            == task_rows(f)[j] by {
            if j < n {
                assert(rows@[j] == head_rows[j]);
            } else if j == n {
                assert(rows@[j] == head_rows[j]);
            } else {
                assert(rows@[base + (j - base)] == rows@[j]);
            }
        }
        assert(rows@.map_values(|r: TaskRow| r@) =~= task_rows(f));
        rows
    }

    /// The title of the input box (see `input_title_text`).
    pub fn input_title(&self) -> (title: String)
        requires
            self.selected_folder < self.folders@.len(),
        ensures
            title@ == input_title_text(self.input_mode, self@.current().name),
    {
        match self.input_mode {
            InputMode::Todo => {
                let mut title = owned(" New task in ");
                push_str(&mut title, self.current_folder().name.as_str());
                push_str(&mut title, " ");
                title
            },
            InputMode::Folder => owned(" New folder "),
        }
    }

    /// The line above the progress bar (see `timer_text`).
    pub fn timer_line(&self) -> (line: String)
        ensures
            line@ == timer_text(self.mode, self.running, self.remaining_secs as nat),
    {
        let mut line = owned(
            match self.mode {
                PomodoroMode::Work => "Work",
                PomodoroMode::Break => "Break",
            },
        );
        push_str(&mut line, "  |  ");
        push_str(&mut line, if self.running { "Running" } else { "Paused" });
        push_str(&mut line, "  |  ");
        let left = format_duration(self.remaining_secs);
        push_str(&mut line, left.as_str());
        line
    }

    /// How far the current period has gone: the seconds gone, out of the
    /// seconds it lasts.
    pub fn timer_progress(&self) -> (progress: (u64, u64))
        ensures
            progress.1 == mode_seconds(self.mode),
            progress.0 == if self.remaining_secs <= progress.1 {
                progress.1 - self.remaining_secs
            } else {
                0
            },
    {
        let total = match self.mode {
            PomodoroMode::Work => crate::app::WORK_SECONDS,
            PomodoroMode::Break => crate::app::BREAK_SECONDS,
        };
        let elapsed = if self.remaining_secs <= total {
            total - self.remaining_secs
        } else {
            0
        };
        (elapsed, total)
    }

    /// The statistics line: numbers of folders, of open and of completed
    /// tasks.
    pub fn stats_line(&self) -> (line: String)
        requires
            total_tasks(self@.folders) <= usize::MAX,
        ensures
            line@ == "Folders: "@ + decimal(self.folders@.len()) + "   Open: "@ + decimal(
                open_total(self@.folders),
            ) + "   Done: "@ + decimal(done_total(self@.folders)),
    {
        let (open, done) = self.task_counts();
        let mut line = owned("Folders: ");
        push_decimal(&mut line, self.folders.len() as u64);
        push_str(&mut line, "   Open: ");
        push_decimal(&mut line, open as u64);
        push_str(&mut line, "   Done: ");
        push_decimal(&mut line, done as u64);
        assert(line@ =~= "Folders: "@ + decimal(self.folders@.len()) + "   Open: "@ + decimal(
            open_total(self@.folders),
        ) + "   Done: "@ + decimal(done_total(self@.folders)));
        line
    }

    /// The help line: the key help for the focused pane, then the status.
    pub fn help_line(&self) -> (line: String)
        ensures
            line@ == help_for(self.focus, self.input_mode) + " | "@ + self.status@,
    {
        let mut line = owned(
            match (self.focus, self.input_mode) {
                (Focus::Todos, InputMode::Todo) => "Todos: type task | Enter add | f folder | e export | i import | Arrows nav | Space complete | c collapse | Delete remove",
                (Focus::Todos, InputMode::Folder) => "Folder: type folder name | Enter create | Esc cancel",
                (Focus::Timer, _) => "Timer: Space/Enter start-pause | r reset | s switch mode | Tab todos | q quit",
            },
        );
        push_str(&mut line, " | ");
        push_str(&mut line, self.status.as_str());
        line
    }
}

} // verus!
