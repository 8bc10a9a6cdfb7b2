//! The state of the pomodoro todo application and what each operation does
//! to it.
use std::time::Instant;
use vstd::prelude::*;
use crate::clock::{clock_now, later_by_secs, whole_secs_since};
use crate::export::{
    export_folders, export_text, folder_models, folders_from_export_text,
    lemma_imported_folders_consistent, parse_export_text,
};
use crate::folder::{
    empty_folder, lemma_delete_selected_keeps, lemma_toggle_done_keeps, lemma_total_tasks_push,
    task_count, total_tasks, FolderModel, SelectedTaskRow,
    TaskFolder, Todo, TodoModel,
};
use crate::text::{owned, push_str, trim, trimmed, EXPORT_PATH};

verus! {

/// Length of a work period, in seconds.
pub const WORK_SECONDS: u64 = 25 * 60;

/// Length of a break, in seconds.
pub const BREAK_SECONDS: u64 = 5 * 60;

/// Which pane receives the keys.
#[derive(Clone, Copy, PartialEq, Eq, Structural)]
pub enum Focus {
    Todos,
    Timer,
}

/// What the text being typed will become.
#[derive(Clone, Copy, PartialEq, Eq, Structural)]
pub enum InputMode {
    Todo,
    Folder,
}

/// The period the timer counts down.
#[derive(Clone, Copy, PartialEq, Eq, Structural)]
pub enum PomodoroMode {
    Work,
    Break,
}

/// The length of a period, in seconds.
pub open spec fn mode_seconds(mode: PomodoroMode) -> nat {
    match mode {
        PomodoroMode::Work => WORK_SECONDS as nat,
        PomodoroMode::Break => BREAK_SECONDS as nat,
    }
}

/// The other period.
pub open spec fn other_mode(mode: PomodoroMode) -> PomodoroMode {
    match mode {
        PomodoroMode::Work => PomodoroMode::Break,
        PomodoroMode::Break => PomodoroMode::Work,
    }
}

/// The other pane.
pub open spec fn other_focus(focus: Focus) -> Focus {
    match focus {
        Focus::Todos => Focus::Timer,
        Focus::Timer => Focus::Todos,
    }
}

/// What a clock tick does to the instant the timer counts from: keep it
/// (less than a second has passed), move it on by the whole seconds counted
/// (keeping the fraction of a second), or set it to the clock's reading (a
/// paused timer, or a period that ended and was reset).
#[derive(Clone, Copy, PartialEq, Eq, Structural)]
pub enum TickStep {
    Keep,
    Advance(u64),
    Restart,
}

/// The application: task folders, the text being typed, the timer and a
/// status message.
pub struct App {
    pub folders: Vec<TaskFolder>,
    pub selected_folder: usize,
    pub input: String,
    pub input_mode: InputMode,
    pub focus: Focus,
    pub mode: PomodoroMode,
    /// Whole seconds left in the current period.
    pub remaining_secs: u64,
    pub running: bool,
    pub last_tick: Instant,
    pub status: String,
}

/// What the application is, apart from the instant of its last clock tick.
pub struct AppModel {
    pub folders: Seq<FolderModel>,
    pub selected_folder: nat,
    pub input: Seq<char>,
    pub input_mode: InputMode,
    pub focus: Focus,
    pub mode: PomodoroMode,
    pub remaining_secs: nat,
    pub running: bool,
    pub status: Seq<char>,
}

impl View for App {
    type V = AppModel;

    open spec fn view(&self) -> AppModel {
        AppModel {
            folders: folder_models(self.folders@),
            selected_folder: self.selected_folder as nat,
            input: self.input@,
            input_mode: self.input_mode,
            focus: self.focus,
            mode: self.mode,
            remaining_secs: self.remaining_secs as nat,
            running: self.running,
            status: self.status@,
        }
    }
}

/// Per-folder task counts are bounded by the total.
pub proof fn lemma_task_count_le_total(fs: Seq<FolderModel>, i: int)
    requires
        0 <= i < fs.len(),
    ensures
        task_count(fs[i]) <= total_tasks(fs),
    decreases fs.len(),
{
    if i < fs.len() - 1 {
        lemma_task_count_le_total(fs.drop_last(), i);
        assert(fs.drop_last()[i] == fs[i]);
    }
}

impl AppModel {
    /// The selected folder exists, and the tasks of all folders together
    /// fit the counters that count them.
    pub open spec fn wf(self) -> bool {
        &&& self.selected_folder < self.folders.len()
        &&& total_tasks(self.folders) < usize::MAX
    }

    /// What every state the application reaches satisfies: there is a
    /// folder, each folder's selection lies on a visible row and its tasks
    /// are in the list their state says, and the timer has between one
    /// second and a whole period left.
    pub open spec fn consistent(self) -> bool {
        &&& self.folders.len() > 0
        &&& forall|i: int| 0 <= i < self.folders.len() ==> (#[trigger] self.folders[i]).consistent()
        &&& 1 <= self.remaining_secs <= mode_seconds(self.mode)
    }

    /// The selected folder exists and its rows can be counted.
    pub open spec fn has_current(self) -> bool {
        &&& self.selected_folder < self.folders.len()
        &&& self.current().fits()
    }

    pub open spec fn current(self) -> FolderModel {
        self.folders[self.selected_folder as int]
    }

    /// The application with the selected folder replaced by `f`.
    pub open spec fn with_current(self, f: FolderModel) -> AppModel {
        AppModel { folders: self.folders.update(self.selected_folder as int, f), ..self }
    }
}

impl AppModel {
    /// Typing a task: the trimmed input, unless empty, becomes a new open
    /// task of the selected folder, selected, and the input is cleared.
    pub open spec fn add_todo(self) -> AppModel {
        let text = trim(self.input);
        if text.len() == 0 {
            self
        } else {
            AppModel { input: Seq::empty(), ..self.with_current(self.current().add_task(text)) }
        }
    }

    /// Typing a folder name: the trimmed input, unless empty, becomes a new
    /// folder, selected; the input is cleared and tasks are typed again.
    pub open spec fn add_folder(self) -> AppModel {
        let name = trim(self.input);
        let m = if name.len() == 0 {
            self
        } else {
            AppModel {
                folders: self.folders.push(empty_folder(name)),
                selected_folder: self.folders.len(),
                ..self
            }
        };
        AppModel { input: Seq::empty(), input_mode: InputMode::Todo, ..m }
    }

    /// The previous folder, from the first to the last, unless text is
    /// being typed.
    pub open spec fn select_previous_folder(self) -> AppModel {
        if self.folders.len() == 0 || self.input.len() > 0 {
            self
        } else if self.selected_folder == 0 {
            AppModel { selected_folder: (self.folders.len() - 1) as nat, ..self }
        } else {
            AppModel { selected_folder: (self.selected_folder - 1) as nat, ..self }
        }
    }

    /// The next folder, from the last to the first, unless text is being
    /// typed.
    pub open spec fn select_next_folder(self) -> AppModel {
        if self.folders.len() == 0 || self.input.len() > 0 {
            self
        } else {
            AppModel { selected_folder: (self.selected_folder + 1) % self.folders.len(), ..self }
        }
    }

    /// The timer paused with a whole period of the current kind left.
    pub open spec fn reset_timer(self) -> AppModel {
        AppModel { running: false, remaining_secs: mode_seconds(self.mode), ..self }
    }

    /// The other kind of period, with the timer reset.
    pub open spec fn switch_mode(self) -> AppModel {
        AppModel { mode: other_mode(self.mode), ..self }.reset_timer()
    }

    /// What `secs` whole seconds do to the instant the timer counts from.
    pub open spec fn tick_step(self, secs: nat) -> TickStep {
        if !self.running {
            TickStep::Restart
        } else if secs == 0 {
            TickStep::Keep
        } else if self.remaining_secs > secs {
            TickStep::Advance(secs as u64)
        } else {
            TickStep::Restart
        }
    }

    /// What `secs` whole seconds do to a running timer: count it down, or,
    /// when they use up what is left, switch to the other period, paused.
    pub open spec fn after_elapsed(self, secs: nat) -> AppModel {
        if !self.running || secs == 0 {
            self
        } else if self.remaining_secs > secs {
            AppModel { remaining_secs: (self.remaining_secs - secs) as nat, ..self }
        } else {
            AppModel { running: false, ..self.switch_mode() }
        }
    }
}

/// Number of open tasks in all the folders.
pub open spec fn open_total(fs: Seq<FolderModel>) -> nat
    decreases fs.len(),
{
    if fs.len() == 0 {
        0
    } else {
        open_total(fs.drop_last()) + fs.last().todos.len()
    }
}

/// Number of completed tasks in all the folders.
pub open spec fn done_total(fs: Seq<FolderModel>) -> nat
    decreases fs.len(),
{
    if fs.len() == 0 {
        0
    } else {
        done_total(fs.drop_last()) + fs.last().completed.len()
    }
}

/// The folder every application starts with.
pub open spec fn inbox() -> FolderModel {
    FolderModel {
        name: "Inbox"@,
        todos: seq![
            TodoModel { text: "Add your first task"@, done: false },
            TodoModel { text: "Create a task folder with f"@, done: false },
        ],
        completed: Seq::empty(),
        selected_row: 0,
        completed_collapsed: false,
    }
}

/// The status line an application starts with.
pub open spec fn start_status() -> Seq<char> {
    "Export/import: e exports, i imports ("@ + EXPORT_PATH@ + ")"@
}

impl Default for App {
    /// A work period of full length, paused, with the inbox folder and its
    /// two starter tasks.
    fn default() -> (app: Self)
        ensures
            app@ == (AppModel {
                folders: seq![inbox()],
                selected_folder: 0,
                input: Seq::empty(),
                input_mode: InputMode::Todo,
                focus: Focus::Todos,
                mode: PomodoroMode::Work,
                remaining_secs: WORK_SECONDS as nat,
                running: false,
                status: start_status(),
            }),
            app@.wf(),
            app@.consistent(),
    {
        let mut todos: Vec<Todo> = Vec::new();
        todos.push(Todo { text: owned("Add your first task"), done: false });
        todos.push(Todo { text: owned("Create a task folder with f"), done: false });
        let inbox_folder = TaskFolder {
            name: owned("Inbox"),
            todos,
            completed: Vec::new(),
            selected_row: 0,
            completed_collapsed: false,
        };
        assert(todos@.len() == 2);
        assert(todos@[0]@ == inbox().todos[0]);
        assert(inbox_folder@.todos =~= inbox().todos);
        assert(inbox_folder@.completed =~= inbox().completed);
        assert(inbox_folder@ == inbox());
        let mut folders: Vec<TaskFolder> = Vec::new();
        folders.push(inbox_folder);
        let mut status = owned("Export/import: e exports, i imports (");
        push_str(&mut status, EXPORT_PATH);
        push_str(&mut status, ")");
        let app = App {
            folders,
            selected_folder: 0,
            input: String::new(),
            input_mode: InputMode::Todo,
            focus: Focus::Todos,
            mode: PomodoroMode::Work,
            remaining_secs: WORK_SECONDS,
            running: false,
            last_tick: clock_now(),
            status,
        };
        assert(app@.folders =~= seq![inbox()]);
        assert(app@.status =~= start_status());
        assert(total_tasks(app@.folders) == 2) by {
            lemma_total_tasks_push(Seq::<FolderModel>::empty(), inbox());
            assert(Seq::<FolderModel>::empty().push(inbox()) =~= seq![inbox()]);
            assert(total_tasks(Seq::<FolderModel>::empty()) == 0);
        }
        app
    }
}

impl App {
    /// The selected folder.
    pub fn current_folder(&self) -> (folder: &TaskFolder)
        requires
            self.selected_folder < self.folders@.len(),
        ensures
            *folder == self.folders@[self.selected_folder as int],
    {
        &self.folders[self.selected_folder]
    }

    /// The selected folder, to change it in place.
    pub fn current_folder_mut(&mut self) -> (folder: &mut TaskFolder)
        requires
            old(self).selected_folder < old(self).folders@.len(),
        ensures
            *folder == old(self).folders@[old(self).selected_folder as int],
            final(self).folders@ == old(self).folders@.update(
                old(self).selected_folder as int,
                *final(folder),
            ),
            final(self).selected_folder == old(self).selected_folder,
            final(self).input == old(self).input,
            final(self).input_mode == old(self).input_mode,
            final(self).focus == old(self).focus,
            final(self).mode == old(self).mode,
            final(self).remaining_secs == old(self).remaining_secs,
            final(self).running == old(self).running,
            final(self).last_tick == old(self).last_tick,
            final(self).status == old(self).status,
    {
        &mut self.folders[self.selected_folder]
    }

    /// Starts typing the name of a new folder.
    pub fn start_folder_input(&mut self)
        ensures
            final(self)@ == (AppModel {
                input: Seq::empty(),
                input_mode: InputMode::Folder,
                ..old(self)@
            }),
            final(self).last_tick == old(self).last_tick,
    {
        self.input = String::new();
        self.input_mode = InputMode::Folder;
    }

    /// Adds the trimmed input as a new open task of the selected folder,
    /// unless it is empty (see `AppModel::add_todo`).
    pub fn add_todo_from_input(&mut self)
        requires
            old(self).selected_folder < old(self).folders@.len(),
        ensures
            final(self)@ == old(self)@.add_todo(),
            final(self).last_tick == old(self).last_tick,
            old(self)@.wf() && total_tasks(old(self)@.folders) + 1 < usize::MAX ==> final(self)@.wf(),
            old(self)@.consistent() ==> final(self)@.consistent(),
    {
        let text = trimmed(self.input.as_str());
        if !text.as_str().is_empty() {
            let ghost i = self.selected_folder as int;
            let ghost t = text@;
            let folder = self.current_folder_mut();
            let ghost f0 = folder@;
            folder.todos.push(Todo { text, done: false });
            folder.selected_row = folder.todos.len() - 1;
            assert(folder@.todos =~= f0.todos.push(TodoModel { text: t, done: false }));
            let ghost fm = folder@;
            proof {
                assert(self@.folders =~= old(self)@.folders.update(i, fm));
                lemma_total_tasks_update(old(self)@.folders, i, fm);
            }
            self.input = String::new();
        }
    }

    /// Adds a folder named by the trimmed input, unless it is empty, and
    /// goes back to typing tasks (see `AppModel::add_folder`).
    pub fn add_folder_from_input(&mut self)
        ensures
            final(self)@ == old(self)@.add_folder(),
            final(self).last_tick == old(self).last_tick,
            old(self)@.wf() ==> final(self)@.wf(),
            old(self)@.consistent() ==> final(self)@.consistent(),
    {
        let name = trimmed(self.input.as_str());
        if !name.as_str().is_empty() {
            let ghost n = name@;
            let folder = TaskFolder::new(name);
            self.folders.push(folder);
            self.selected_folder = self.folders.len() - 1;
            proof {
                assert(self@.folders =~= old(self)@.folders.push(empty_folder(n)));
                lemma_total_tasks_push(old(self)@.folders, empty_folder(n));
            }
        }
        self.input = String::new();
        self.input_mode = InputMode::Todo;
    }

    /// Selects the previous folder, unless text is being typed.
    pub fn select_previous_folder(&mut self)
        ensures
            final(self)@ == old(self)@.select_previous_folder(),
            final(self).last_tick == old(self).last_tick,
            old(self)@.wf() ==> final(self)@.wf(),
            old(self)@.consistent() ==> final(self)@.consistent(),
    {
        if self.folders.is_empty() || !self.input.as_str().is_empty() {
            return;
        }
        if self.selected_folder == 0 {
            self.selected_folder = self.folders.len() - 1;
        } else {
            self.selected_folder -= 1;
        }
    }

    /// Selects the next folder, unless text is being typed.
    pub fn select_next_folder(&mut self)
        requires
            old(self).selected_folder < usize::MAX,
        ensures
            final(self)@ == old(self)@.select_next_folder(),
            final(self).last_tick == old(self).last_tick,
            old(self)@.wf() ==> final(self)@.wf(),
            old(self)@.consistent() ==> final(self)@.consistent(),
    {
        if self.folders.is_empty() || !self.input.as_str().is_empty() {
            return;
        }
        self.selected_folder = (self.selected_folder + 1) % self.folders.len();
    }

    /// Pauses the timer with a whole period of the current kind left.
    pub fn reset_timer(&mut self)
        ensures
            final(self)@ == old(self)@.reset_timer(),
            old(self)@.wf() ==> final(self)@.wf(),
            old(self)@.consistent() ==> final(self)@.consistent(),
    {
        self.running = false;
        self.remaining_secs = match self.mode {
            PomodoroMode::Work => WORK_SECONDS,
            PomodoroMode::Break => BREAK_SECONDS,
        };
        self.last_tick = clock_now();
    }

    /// Switches between work and break, with the timer reset.
    pub fn switch_mode(&mut self)
        ensures
            final(self)@ == old(self)@.switch_mode(),
            old(self)@.wf() ==> final(self)@.wf(),
            old(self)@.consistent() ==> final(self)@.consistent(),
    {
        self.mode = match self.mode {
            PomodoroMode::Work => PomodoroMode::Break,
            PomodoroMode::Break => PomodoroMode::Work,
        };
        self.reset_timer();
    }

    /// Counts the timer down by `elapsed_secs` whole seconds, the time since
    /// its last tick (see `AppModel::after_elapsed`), and says what became
    /// of the last tick (see `AppModel::tick_step`): kept, moved on by the
    /// seconds counted, or read anew from the clock.
    pub fn advance_timer(&mut self, elapsed_secs: u64) -> (step: TickStep)
        ensures
            final(self)@ == old(self)@.after_elapsed(elapsed_secs as nat),
            step == old(self)@.tick_step(elapsed_secs as nat),
            step == TickStep::Keep ==> final(self).last_tick == old(self).last_tick,
            old(self)@.wf() ==> final(self)@.wf(),
            old(self)@.consistent() ==> final(self)@.consistent(),
    {
        if !self.running {
            self.last_tick = clock_now();
            return TickStep::Restart;
        }
        if elapsed_secs == 0 {
            return TickStep::Keep;
        }
        self.last_tick = match later_by_secs(&self.last_tick, elapsed_secs) {
            Some(t) => t,
            None => clock_now(),
        };
        if self.remaining_secs > elapsed_secs {
            self.remaining_secs -= elapsed_secs;
            TickStep::Advance(elapsed_secs)
        } else {
            self.switch_mode();
            self.running = false;
            TickStep::Restart
        }
    }

    /// Reads the clock and counts the timer down by the whole seconds since
    /// its last tick; a paused timer only has its last tick moved to now.
    /// Returns the seconds it counted: the clock's reading of the whole
    /// seconds since the last tick, each counted once.
    pub fn update_timer(&mut self) -> (counted: u64)
        ensures
            final(self)@ == old(self)@.after_elapsed(counted as nat),
            old(self)@.tick_step(counted as nat) == TickStep::Keep ==> final(self).last_tick
                == old(self).last_tick,
            exists|secs: nat|
                final(self)@ == old(self)@.after_elapsed(secs) && (old(self)@.tick_step(secs)
                    == TickStep::Keep ==> final(self).last_tick == old(self).last_tick),
            old(self)@.wf() ==> final(self)@.wf(),
            old(self)@.consistent() ==> final(self)@.consistent(),
    {
        let elapsed = whole_secs_since(&self.last_tick);
        let _step = self.advance_timer(elapsed);
        elapsed
    }

    /// Number of open tasks and number of completed tasks in all folders.
    pub fn task_counts(&self) -> (counts: (usize, usize))
        requires
            total_tasks(self@.folders) <= usize::MAX,
        ensures
            counts.0 == open_total(self@.folders),
            counts.1 == done_total(self@.folders),
            counts.0 + counts.1 == total_tasks(self@.folders),
    {
        let ghost fs = self@.folders;
        let mut open: usize = 0;
        let mut done: usize = 0;
        let mut k: usize = 0;
        assert(fs.take(0) =~= Seq::<FolderModel>::empty());
        while k < self.folders.len()
            invariant
                k <= fs.len(),
                fs == self@.folders,
                total_tasks(fs) <= usize::MAX,
                open == open_total(fs.take(k as int)),
                done == done_total(fs.take(k as int)),
                open + done == total_tasks(fs.take(k as int)),
            decreases fs.len() - k,
        {
            proof {
                assert(fs.take(k + 1).drop_last() =~= fs.take(k as int));
                assert(fs.take(k + 1).last() == fs[k as int]);
                lemma_total_tasks_prefix(fs, k + 1);
            }
            open = open + self.folders[k].todos.len();
            done = done + self.folders[k].completed.len();
            k += 1;
        }
        assert(fs.take(fs.len() as int) =~= fs);
        (open, done)
    }

    /// The number of tasks of all folders, if it fits a `usize`.
    pub fn checked_total_tasks(&self) -> (total: Option<usize>)
        ensures
            match total {
                Some(t) => t == total_tasks(self@.folders),
                None => total_tasks(self@.folders) > usize::MAX,
            },
    {
        let ghost fs = self@.folders;
        let mut sum: usize = 0;
        let mut k: usize = 0;
        assert(fs.take(0) =~= Seq::<FolderModel>::empty());
        while k < self.folders.len()
            invariant
                k <= fs.len(),
                fs == self@.folders,
                sum == total_tasks(fs.take(k as int)),
            decreases fs.len() - k,
        {
            proof {
                assert(fs.take(k + 1).drop_last() =~= fs.take(k as int));
                assert(fs.take(k + 1).last() == fs[k as int]);
            }
            let folder = &self.folders[k];
            if folder.todos.len() > usize::MAX - sum {
                proof {
                    lemma_total_tasks_prefix(fs, k + 1);
                }
                return None;
            }
            let with_open = sum + folder.todos.len();
            if folder.completed.len() > usize::MAX - with_open {
                proof {
                    lemma_total_tasks_prefix(fs, k + 1);
                }
                return None;
            }
            sum = with_open + folder.completed.len();
            k += 1;
        }
        assert(fs.take(fs.len() as int) =~= fs);
        Some(sum)
    }

    /// Whether the selected folder exists and its rows can be counted.
    pub fn has_current_folder(&self) -> (b: bool)
        ensures
            b == self@.has_current(),
    {
        if self.selected_folder >= self.folders.len() {
            return false;
        }
        let folder = &self.folders[self.selected_folder];
        folder.completed.len() < usize::MAX - folder.todos.len()
    }

    /// Whether the application can take any key (see
    /// `AppModel::ready_for_key`).
    pub fn accepts_keys(&self) -> (b: bool)
        ensures
            b == self@.ready_for_key(),
    {
        self.has_current_folder() && self.folders[self.selected_folder].selected_row < usize::MAX
    }

    /// The export text of all folders (see `export_text`).
    pub fn to_export_text(&self) -> (text: String)
        ensures
            text@ == export_text(self@.folders),
    {
        export_folders(&self.folders)
    }

    /// Records how writing the export file went, in the status line.
    pub fn finish_export(&mut self, outcome: Result<(), String>)
        ensures
            final(self)@ == (AppModel {
                status: match outcome {
                    Ok(()) => "Exported to "@ + EXPORT_PATH@,
                    Err(e) => "Export failed: "@ + e@,
                },
                ..old(self)@
            }),
            final(self).last_tick == old(self).last_tick,
            old(self)@.wf() ==> final(self)@.wf(),
            old(self)@.consistent() ==> final(self)@.consistent(),
    {
        match outcome {
            Ok(()) => {
                let mut status = owned("Exported to ");
                push_str(&mut status, EXPORT_PATH);
                self.status = status;
            },
            Err(error) => {
                let mut status = owned("Export failed: ");
                push_str(&mut status, error.as_str());
                self.status = status;
            },
        }
    }

    /// Takes the folders of the export file that was read, or records in
    /// the status line why there are none.
    pub fn finish_import(&mut self, read: Result<String, String>)
        ensures
            final(self)@ == match read {
                Ok(text) => match parse_export_text(text@) {
                    Some(fs) => AppModel {
                        folders: fs,
                        selected_folder: 0,
                        status: "Imported from "@ + EXPORT_PATH@,
                        ..old(self)@
                    },
                    None => AppModel {
                        status: "Import failed: invalid export text"@,
                        ..old(self)@
                    },
                },
                Err(e) => AppModel { status: "Import failed: "@ + e@, ..old(self)@ },
            },
            final(self).last_tick == old(self).last_tick,
            old(self)@.wf() ==> final(self)@.wf(),
            old(self)@.consistent() ==> final(self)@.consistent(),
    {
        match read {
            Ok(text) => match folders_from_export_text(text.as_str()) {
                Some(folders) => {
                    proof {
                        lemma_imported_folders_consistent(text@);
                    }
                    self.folders = folders;
                    self.selected_folder = 0;
                    let mut status = owned("Imported from ");
                    push_str(&mut status, EXPORT_PATH);
                    self.status = status;
                },
                None => {
                    self.status = owned("Import failed: invalid export text");
                },
            },
            Err(error) => {
                let mut status = owned("Import failed: ");
                push_str(&mut status, error.as_str());
                self.status = status;
            },
        }
    }

    /// Moves the selection of the selected folder up one row.
    pub fn select_previous_todo(&mut self)
        requires
            old(self)@.has_current(),
        ensures
            final(self)@ == old(self)@.with_current(old(self)@.current().select_previous()),
            final(self).last_tick == old(self).last_tick,
            old(self)@.wf() ==> final(self)@.wf(),
            old(self)@.consistent() ==> final(self)@.consistent(),
    {
        let ghost i = self.selected_folder as int;
        let folder = self.current_folder_mut();
        let row_count = folder.visible_task_rows();
        if row_count == 0 {
            folder.selected_row = 0;
        } else if folder.selected_row == 0 {
            folder.selected_row = row_count - 1;
        } else {
            folder.selected_row -= 1;
        }
        folder.clamp_selection();
        let ghost fm = folder@;
        proof {
            assert(self@.folders =~= old(self)@.folders.update(i, fm));
            lemma_replace_folder(old(self)@, self@, fm);
        }
    }

    /// Moves the selection of the selected folder down one row.
    pub fn select_next_todo(&mut self)
        requires
            old(self)@.has_current(),
            old(self)@.current().selected_row < usize::MAX,
        ensures
            final(self)@ == old(self)@.with_current(old(self)@.current().select_next()),
            final(self).last_tick == old(self).last_tick,
            old(self)@.wf() ==> final(self)@.wf(),
            old(self)@.consistent() ==> final(self)@.consistent(),
    {
        let ghost i = self.selected_folder as int;
        let folder = self.current_folder_mut();
        let row_count = folder.visible_task_rows();
        if row_count == 0 {
            folder.selected_row = 0;
        } else {
            folder.selected_row = (folder.selected_row + 1) % row_count;
        }
        folder.clamp_selection();
        let ghost fm = folder@;
        proof {
            assert(self@.folders =~= old(self)@.folders.update(i, fm));
            lemma_replace_folder(old(self)@, self@, fm);
        }
    }

    /// Completes the selected open task, reopens the selected completed
    /// task, or collapses or expands the completed section (see
    /// `FolderModel::toggle_done`).
    pub fn toggle_selected_task_done(&mut self)
        requires
            old(self)@.has_current(),
        ensures
            final(self)@ == old(self)@.with_current(old(self)@.current().toggle_done()),
            final(self).last_tick == old(self).last_tick,
            old(self)@.wf() ==> final(self)@.wf(),
            old(self)@.consistent() ==> final(self)@.consistent(),
    {
        let ghost i = self.selected_folder as int;
        let folder = self.current_folder_mut();
        let ghost f0 = folder@;
        match folder.selected_task_row() {
            Some(SelectedTaskRow::Active(index)) => {
                let mut todo = folder.todos.remove(index);
                todo.done = true;
                folder.completed.push(todo);
                assert(folder@.todos =~= f0.todos.remove(index as int));
                assert(folder@.completed =~= f0.completed.push(
                    TodoModel { done: true, ..f0.todos[index as int] },
                ));
            },
            Some(SelectedTaskRow::Completed(index)) => {
                let mut todo = folder.completed.remove(index);
                todo.done = false;
                folder.todos.push(todo);
                folder.selected_row = folder.todos.len() - 1;
                assert(folder@.completed =~= f0.completed.remove(index as int));
                assert(folder@.todos =~= f0.todos.push(
                    TodoModel { done: false, ..f0.completed[index as int] },
                ));
            },
            Some(SelectedTaskRow::CompletedHeader) | None => {
                folder.completed_collapsed = !folder.completed_collapsed;
            },
        }
        folder.clamp_selection();
        let ghost fm = folder@;
        proof {
            lemma_toggle_done_keeps(f0);
            assert(self@.folders =~= old(self)@.folders.update(i, fm));
            lemma_replace_folder(old(self)@, self@, fm);
        }
    }

    /// Collapses or expands the completed section of the selected folder.
    pub fn toggle_completed_collapse(&mut self)
        requires
            old(self)@.has_current(),
        ensures
            final(self)@ == old(self)@.with_current(old(self)@.current().toggle_collapse()),
            final(self).last_tick == old(self).last_tick,
            old(self)@.wf() ==> final(self)@.wf(),
            old(self)@.consistent() ==> final(self)@.consistent(),
    {
        let ghost i = self.selected_folder as int;
        let folder = self.current_folder_mut();
        folder.completed_collapsed = !folder.completed_collapsed;
        folder.clamp_selection();
        let ghost fm = folder@;
        proof {
            assert(self@.folders =~= old(self)@.folders.update(i, fm));
            lemma_replace_folder(old(self)@, self@, fm);
        }
    }

    /// Removes the selected task, open or completed, of the selected folder.
    pub fn delete_selected_todo(&mut self)
        requires
            old(self)@.has_current(),
        ensures
            final(self)@ == old(self)@.with_current(old(self)@.current().delete_selected()),
            final(self).last_tick == old(self).last_tick,
            old(self)@.wf() ==> final(self)@.wf(),
            old(self)@.consistent() ==> final(self)@.consistent(),
    {
        let ghost i = self.selected_folder as int;
        let folder = self.current_folder_mut();
        let ghost f0 = folder@;
        match folder.selected_task_row() {
            Some(SelectedTaskRow::Active(index)) => {
                folder.todos.remove(index);
                assert(folder@.todos =~= f0.todos.remove(index as int));
            },
            Some(SelectedTaskRow::Completed(index)) => {
                folder.completed.remove(index);
                assert(folder@.completed =~= f0.completed.remove(index as int));
            },
            Some(SelectedTaskRow::CompletedHeader) | None => {},
        }
        folder.clamp_selection();
        let ghost fm = folder@;
        proof {
            lemma_delete_selected_keeps(f0);
            assert(self@.folders =~= old(self)@.folders.update(i, fm));
            lemma_replace_folder(old(self)@, self@, fm);
        }
    }
}

/// What replacing the selected folder does to the model.
proof fn lemma_replace_folder(before: AppModel, after: AppModel, f: FolderModel)
    requires
        before.selected_folder < before.folders.len(),
        after == before.with_current(f),
    ensures
        before.wf() && task_count(f) <= task_count(before.current()) ==> after.wf(),
        before.consistent() && f.consistent() ==> after.consistent(),
{
    lemma_total_tasks_update(before.folders, before.selected_folder as int, f);
}

/// The tasks of the first folders are no more than those of all.
pub proof fn lemma_total_tasks_prefix(fs: Seq<FolderModel>, k: int)
    requires
        0 <= k <= fs.len(),
    ensures
        total_tasks(fs.take(k)) <= total_tasks(fs),
    decreases fs.len() - k,
{
    if k < fs.len() {
        lemma_total_tasks_prefix(fs, k + 1);
        assert(fs.take(k + 1).drop_last() =~= fs.take(k));
    } else {
        assert(fs.take(k) =~= fs);
    }
}

/// Replacing a folder changes the total by the difference of their counts.
pub proof fn lemma_total_tasks_update(fs: Seq<FolderModel>, i: int, f: FolderModel)
    requires
        0 <= i < fs.len(),
    ensures
        total_tasks(fs.update(i, f)) + task_count(fs[i]) == total_tasks(fs) + task_count(f),
    decreases fs.len(),
{
    let g = fs.update(i, f);
    if i < fs.len() - 1 {
        lemma_total_tasks_update(fs.drop_last(), i, f);
        assert(g.drop_last() =~= fs.drop_last().update(i, f));
        assert(fs.drop_last()[i] == fs[i]);
    } else {
        assert(g.drop_last() =~= fs.drop_last());
    }
}

} // verus!
