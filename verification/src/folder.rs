//! Tasks and task folders: the rows a folder shows and which one is selected.
use vstd::prelude::*;

verus! {

/// One task: its text and whether it is done.
#[derive(Clone)]
pub struct Todo {
    pub text: String,
    pub done: bool,
}

/// What a task is: its text and whether it is done.
pub struct TodoModel {
    pub text: Seq<char>,
    pub done: bool,
}

impl View for Todo {
    type V = TodoModel;

    open spec fn view(&self) -> TodoModel {
        TodoModel { text: self.text@, done: self.done }
    }
}

/// A named list of open tasks and of completed tasks, with a selected row.
pub struct TaskFolder {
    pub name: String,
    pub todos: Vec<Todo>,
    pub completed: Vec<Todo>,
    pub selected_row: usize,
    pub completed_collapsed: bool,
}

/// What a folder is: its name, its open and completed tasks, its selected
/// row and whether its completed section is collapsed.
pub struct FolderModel {
    pub name: Seq<char>,
    pub todos: Seq<TodoModel>,
    pub completed: Seq<TodoModel>,
    pub selected_row: nat,
    pub completed_collapsed: bool,
}

pub open spec fn todo_models(v: Seq<Todo>) -> Seq<TodoModel> {
    v.map_values(|t: Todo| t@)
}

impl View for TaskFolder {
    type V = FolderModel;

    open spec fn view(&self) -> FolderModel {
        FolderModel {
            name: self.name@,
            todos: todo_models(self.todos@),
            completed: todo_models(self.completed@),
            selected_row: self.selected_row as nat,
            completed_collapsed: self.completed_collapsed,
        }
    }
}

/// A row of a folder's task list: an open task, the header of the completed
/// section, or a completed task, each by its index in its own list.
#[derive(Clone, Copy, PartialEq, Eq, Structural)]
pub enum SelectedTaskRow {
    Active(usize),
    CompletedHeader,
    Completed(usize),
}

impl FolderModel {
    /// Number of rows the folder shows: its open tasks, the header of the
    /// completed section, and the completed tasks unless that section is
    /// collapsed.
    pub open spec fn visible_rows(self) -> nat {
        self.todos.len() + 1 + if self.completed_collapsed {
            0
        } else {
            self.completed.len()
        }
    }

    /// The row that `selected_row` designates, if any.
    pub open spec fn selected(self) -> Option<SelectedTaskRow> {
        let row = self.selected_row;
        if self.visible_rows() == 0 {
            None
        } else if row < self.todos.len() {
            Some(SelectedTaskRow::Active(row as usize))
        } else if row == self.todos.len() {
            Some(SelectedTaskRow::CompletedHeader)
        } else if self.completed_collapsed {
            Some(SelectedTaskRow::CompletedHeader)
        } else if row - self.todos.len() - 1 < self.completed.len() {
            Some(SelectedTaskRow::Completed((row - self.todos.len() - 1) as usize))
        } else {
            None
        }
    }

    /// The selection moved back onto the last visible row if it lies past it.
    pub open spec fn clamped_row(self) -> nat {
        let last = if self.visible_rows() == 0 {
            0
        } else {
            (self.visible_rows() - 1) as nat
        };
        if self.selected_row <= last {
            self.selected_row
        } else {
            last
        }
    }

    /// The folder with its selection clamped onto the visible rows.
    pub open spec fn clamped(self) -> FolderModel {
        FolderModel { selected_row: self.clamped_row(), ..self }
    }

    /// The selection moved up one row, from the first row to the last.
    pub open spec fn select_previous(self) -> FolderModel {
        let rows = self.visible_rows();
        let row: nat = if rows == 0 {
            0
        } else if self.selected_row == 0 {
            (rows - 1) as nat
        } else {
            (self.selected_row - 1) as nat
        };
        FolderModel { selected_row: row, ..self }.clamped()
    }

    /// The selection moved down one row, from the last row to the first.
    pub open spec fn select_next(self) -> FolderModel {
        let rows = self.visible_rows();
        let row: nat = if rows == 0 {
            0
        } else {
            (self.selected_row + 1) % rows
        };
        FolderModel { selected_row: row, ..self }.clamped()
    }

    /// The selected open task moved to the end of the completed tasks and
    /// marked done; or the selected completed task moved to the end of the
    /// open tasks, marked not done and selected; or, on the header of the
    /// completed section, that section collapsed or expanded.
    pub open spec fn toggle_done(self) -> FolderModel {
        match self.selected() {
            Some(SelectedTaskRow::Active(i)) => FolderModel {
                todos: self.todos.remove(i as int),
                completed: self.completed.push(TodoModel { done: true, ..self.todos[i as int] }),
                ..self
            }.clamped(),
            Some(SelectedTaskRow::Completed(i)) => FolderModel {
                todos: self.todos.push(TodoModel { done: false, ..self.completed[i as int] }),
                completed: self.completed.remove(i as int),
                selected_row: self.todos.len(),
                ..self
            }.clamped(),
            _ => self.toggle_collapse(),
        }
    }

    /// The completed section collapsed or expanded.
    pub open spec fn toggle_collapse(self) -> FolderModel {
        FolderModel { completed_collapsed: !self.completed_collapsed, ..self }.clamped()
    }

    /// The selected task, open or completed, removed.
    pub open spec fn delete_selected(self) -> FolderModel {
        match self.selected() {
            Some(SelectedTaskRow::Active(i)) => FolderModel {
                todos: self.todos.remove(i as int),
                ..self
            }.clamped(),
            Some(SelectedTaskRow::Completed(i)) => FolderModel {
                completed: self.completed.remove(i as int),
                ..self
            }.clamped(),
            _ => self.clamped(),
        }
    }

    /// A new open task with the given text, selected.
    pub open spec fn add_task(self, text: Seq<char>) -> FolderModel {
        FolderModel {
            todos: self.todos.push(TodoModel { text, done: false }),
            selected_row: self.todos.len(),
            ..self
        }
    }

    /// The folder's open and completed tasks together fit the counters that
    /// count them.
    pub open spec fn fits(self) -> bool {
        self.todos.len() + self.completed.len() < usize::MAX
    }

    /// The selection lies on a visible row, open tasks are not done and
    /// completed tasks are.
    pub open spec fn consistent(self) -> bool {
        &&& self.selected_row < self.visible_rows()
        &&& forall|i: int| 0 <= i < self.todos.len() ==> !(#[trigger] self.todos[i]).done
        &&& forall|i: int| 0 <= i < self.completed.len() ==> (#[trigger] self.completed[i]).done
    }
}

/// Number of tasks, open and completed, in a folder.
pub open spec fn task_count(f: FolderModel) -> nat {
    f.todos.len() + f.completed.len()
}

/// Number of tasks, open and completed, in all the folders.
pub open spec fn total_tasks(fs: Seq<FolderModel>) -> nat
    decreases fs.len(),
{
    if fs.len() == 0 {
        0
    } else {
        total_tasks(fs.drop_last()) + task_count(fs.last())
    }
}

/// Adding a folder adds its tasks to the total.
pub proof fn lemma_total_tasks_push(fs: Seq<FolderModel>, f: FolderModel)
    ensures
        total_tasks(fs.push(f)) == total_tasks(fs) + task_count(f),
{
    assert(fs.push(f).drop_last() =~= fs);
}

/// Completing, reopening or collapsing keeps the folder's tasks and its
/// consistency.
pub proof fn lemma_toggle_done_keeps(f: FolderModel)
    requires
        f.fits(),
    ensures
        task_count(f.toggle_done()) == task_count(f),
        f.consistent() ==> f.toggle_done().consistent(),
{
}

/// Removing the selected task removes one task when a task is selected, and
/// keeps the folder's consistency.
pub proof fn lemma_delete_selected_keeps(f: FolderModel)
    requires
        f.fits(),
    ensures
        task_count(f.delete_selected()) <= task_count(f),
        f.consistent() ==> f.delete_selected().consistent(),
{
}

/// A new folder with the given name and no tasks.
pub open spec fn empty_folder(name: Seq<char>) -> FolderModel {
    FolderModel {
        name,
        todos: Seq::empty(),
        completed: Seq::empty(),
        selected_row: 0,
        completed_collapsed: false,
    }
}

impl TaskFolder {
    /// A folder with the given name, no tasks, the first row selected and
    /// the completed section expanded.
    pub fn new(name: String) -> (f: TaskFolder)
        ensures
            f@ == empty_folder(name@),
    {
        let f = TaskFolder {
            name,
            todos: Vec::new(),
            completed: Vec::new(),
            selected_row: 0,
            completed_collapsed: false,
        };
        assert(f@.todos =~= Seq::<TodoModel>::empty());
        assert(f@.completed =~= Seq::<TodoModel>::empty());
        f
    }

    /// Number of rows the folder shows (see `FolderModel::visible_rows`).
    pub fn visible_task_rows(&self) -> (rows: usize)
        requires
            self@.fits(),
        ensures
            rows == self@.visible_rows(),
    {
        let completed_rows = if self.completed_collapsed {
            0
        } else {
            self.completed.len()
        };
        self.todos.len() + 1 + completed_rows
    }

    /// The row that the selection designates (see `FolderModel::selected`).
    pub fn selected_task_row(&self) -> (r: Option<SelectedTaskRow>)
        requires
            self@.fits(),
        ensures
            r == self@.selected(),
    {
        if self.visible_task_rows() == 0 {
            return None;
        }
        if self.selected_row < self.todos.len() {
            return Some(SelectedTaskRow::Active(self.selected_row));
        }
        if self.selected_row == self.todos.len() {
            return Some(SelectedTaskRow::CompletedHeader);
        }
        if self.completed_collapsed {
            return Some(SelectedTaskRow::CompletedHeader);
        }
        let completed_index = self.selected_row - self.todos.len() - 1;
        if completed_index < self.completed.len() {
            Some(SelectedTaskRow::Completed(completed_index))
        } else {
            None
        }
    }

    /// Moves the selection onto the last visible row if it lies past it.
    pub fn clamp_selection(&mut self)
        requires
            old(self)@.fits(),
        ensures
            final(self)@ == (FolderModel { selected_row: old(self)@.clamped_row(), ..old(self)@ }),
            final(self).selected_row < final(self)@.visible_rows(),
    {
        let rows = self.visible_task_rows();
        let last = if rows == 0 { 0 } else { rows - 1 };
        self.selected_row = if self.selected_row < last { self.selected_row } else { last };
    }
}

} // verus!
