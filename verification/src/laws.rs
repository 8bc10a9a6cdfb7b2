//! Properties that relate the operations of the application to each other.
use vstd::prelude::*;
use vstd::multiset::Multiset;
use crate::app::{
    done_total, lemma_task_count_le_total, mode_seconds, open_total, AppModel, InputMode,
    PomodoroMode, Focus, BREAK_SECONDS, WORK_SECONDS,
};
use crate::export::{as_imported, export_text, exportable, import_reads_back_export, parse_export_text};
use crate::folder::{task_count, total_tasks, FolderModel, SelectedTaskRow, TodoModel};
use crate::keys::{Command, Key, KeyPress};
use crate::text::{is_white_space, lemma_trim_end_shape, lemma_trim_start_shape, trim, trim_start};
use vstd::arithmetic::div_mod::{lemma_mod_self_0, lemma_small_mod};

verus! {

/// Moving to the next folder and back, or back and then on, returns to the
/// folder one started from.
pub proof fn next_and_previous_folder_cancel(m: AppModel)
    requires
        m.wf(),
        m.input.len() == 0,
    ensures
        m.select_next_folder().select_previous_folder() == m,
        m.select_previous_folder().select_next_folder() == m,
{
    let n = m.folders.len();
    let s = m.selected_folder;
    lemma_mod_self_0(n as int);
    if s + 1 < n {
        lemma_small_mod(s + 1, n);
    }
    if s > 0 {
        lemma_small_mod(s, n);
    }
}

/// Moving the selection down a row and back up, or up and then down,
/// returns to the row one started from, when it is a visible row.
pub proof fn next_and_previous_row_cancel(f: FolderModel)
    requires
        f.selected_row < f.visible_rows(),
    ensures
        f.select_next().select_previous() == f,
        f.select_previous().select_next() == f,
{
    let rows = f.visible_rows();
    let r = f.selected_row;
    lemma_mod_self_0(rows as int);
    if r + 1 < rows {
        lemma_small_mod(r + 1, rows);
    }
    if r > 0 {
        lemma_small_mod(r, rows);
    }
}

/// Collapsing and expanding the completed section again gives back the
/// folder, when the selection is not on a completed task.
pub proof fn collapse_twice_restores(f: FolderModel)
    requires
        f.consistent(),
        f.selected_row <= f.todos.len(),
    ensures
        f.toggle_collapse().toggle_collapse() == f,
{
}

/// Completing or reopening a task keeps the folder's number of tasks, and
/// moves the task with its text.
pub proof fn toggle_done_moves_the_task(f: FolderModel)
    ensures
        task_count(f.toggle_done()) == task_count(f),
        f.selected() matches Some(SelectedTaskRow::Active(i)) ==> f.toggle_done().completed.last()
            == (TodoModel { text: f.todos[i as int].text, done: true }),
        f.selected() matches Some(SelectedTaskRow::Completed(i)) ==> f.toggle_done().todos.last()
            == (TodoModel { text: f.completed[i as int].text, done: false }),
{
}

/// Deleting removes exactly one task when a task is selected, and none on
/// the header of the completed section.
pub proof fn delete_removes_one_task(f: FolderModel)
    ensures
        task_count(f.delete_selected()) == if f.selected() matches Some(
            SelectedTaskRow::CompletedHeader,
        ) || f.selected() is None {
            task_count(f)
        } else {
            (task_count(f) - 1) as nat
        },
{
}

/// A task added from the input is the selected row of its folder.
pub proof fn added_task_is_selected(m: AppModel)
    requires
        m.wf(),
        trim(m.input).len() > 0,
    ensures
        m.add_todo().current().selected() == Some(
            SelectedTaskRow::Active(m.current().todos.len() as usize),
        ),
        m.add_todo().current().todos.last() == (TodoModel { text: trim(m.input), done: false }),
{
}

/// Switching between work and break twice gives back the same period,
/// reset.
pub proof fn switch_twice_resets(m: AppModel)
    ensures
        m.switch_mode().switch_mode() == m.reset_timer(),
{
}

/// Counting a running timer down in two steps is counting it down by their
/// sum, as long as time is left.
pub proof fn countdown_adds_up(m: AppModel, a: nat, b: nat)
    requires
        m.running,
        a + b < m.remaining_secs,
    ensures
        m.after_elapsed(a).after_elapsed(b) == m.after_elapsed(a + b),
{
}

/// Counting down never leaves the timer outside one second to a whole
/// period, whatever time has passed.
pub proof fn countdown_stays_in_period(m: AppModel, secs: nat)
    requires
        1 <= m.remaining_secs <= mode_seconds(m.mode),
    ensures
        1 <= m.after_elapsed(secs).remaining_secs <= mode_seconds(m.after_elapsed(secs).mode),
{
}

/// The open and the completed tasks together are all the tasks.
pub proof fn task_totals_add_up(fs: Seq<FolderModel>)
    ensures
        open_total(fs) + done_total(fs) == total_tasks(fs),
    decreases fs.len(),
{
    if fs.len() > 0 {
        task_totals_add_up(fs.drop_last());
    }
}

/// The application quits on Control-C, and on `q` while nothing is typed,
/// and on no other key.
pub proof fn quits_exactly_on_quit_keys(m: AppModel, key: KeyPress)
    ensures
        (m.on_key(key).1 == Command::Quit) <==> (key.ctrl && key.code == Key::Char('c')) || (
        key.code == Key::Char('q') && m.input.len() == 0),
{
}

/// Importing the export of consistent folders whose names and task texts
/// stay on one line gives back the same folders, each with its first row
/// selected and its completed section expanded.
pub proof fn import_of_export_restores_folders(fs: Seq<FolderModel>)
    requires
        fs.len() > 0,
        forall|i: int| 0 <= i < fs.len() ==> exportable(#[trigger] fs[i]),
        forall|i: int| 0 <= i < fs.len() ==> (#[trigger] fs[i]).consistent(),
    ensures
        parse_export_text(export_text(fs)) == Some(
            fs.map_values(
                |f: FolderModel| FolderModel { selected_row: 0, completed_collapsed: false, ..f },
            ),
        ),
{
    import_reads_back_export(fs);
    let got = fs.map_values(|f: FolderModel| as_imported(f));
    let want = fs.map_values(
        |f: FolderModel| FolderModel { selected_row: 0, completed_collapsed: false, ..f },
    );
    assert forall|i: int| 0 <= i < fs.len() implies got[i] == want[i] by {
        let f = fs[i];
        assert(f.consistent());
        assert(as_imported(f).todos =~= f.todos);
        assert(as_imported(f).completed =~= f.completed);
    }
    assert(got =~= want);
}

/// A well formed, consistent application takes any key: its selected
/// folder's rows can be counted and its selected row can move down.
pub proof fn steady_state_accepts_keys(m: AppModel)
    requires
        m.wf(),
        m.consistent(),
    ensures
        m.ready_for_key(),
{
    lemma_task_count_le_total(m.folders, m.selected_folder as int);
    assert(m.folders[m.selected_folder as int].consistent());
}

/// The texts of a folder's tasks, open and completed together, counted
/// with repetition.
pub open spec fn task_texts(f: FolderModel) -> Multiset<Seq<char>> {
    f.todos.map_values(|t: TodoModel| t.text).to_multiset().add(
        f.completed.map_values(|t: TodoModel| t.text).to_multiset(),
    )
}

/// Completing, reopening or collapsing keeps the texts of the folder's
/// tasks, each as many times as before.
pub proof fn toggle_done_keeps_task_texts(f: FolderModel)
    ensures
        task_texts(f.toggle_done()) == task_texts(f),
{
    broadcast use vstd::seq_lib::group_to_multiset_ensures;
    broadcast use vstd::multiset::group_multiset_axioms;

    let g = f.toggle_done();
    let ot = f.todos.map_values(|t: TodoModel| t.text);
    let dt = f.completed.map_values(|t: TodoModel| t.text);
    let ot2 = g.todos.map_values(|t: TodoModel| t.text);
    let dt2 = g.completed.map_values(|t: TodoModel| t.text);
    match f.selected() {
        Some(SelectedTaskRow::Active(i)) => {
            let i = i as int;
            assert(0 <= i < f.todos.len());
            assert(ot2 =~= ot.remove(i));
            assert(dt2 =~= dt.push(ot[i]));
            assert(ot.to_multiset().count(ot[i]) > 0);
            assert(task_texts(g) =~= task_texts(f));
        },
        Some(SelectedTaskRow::Completed(i)) => {
            let i = i as int;
            assert(0 <= i < f.completed.len());
            assert(dt2 =~= dt.remove(i));
            assert(ot2 =~= ot.push(dt[i]));
            assert(dt.to_multiset().count(dt[i]) > 0);
            assert(task_texts(g) =~= task_texts(f));
        },
        _ => {
            assert(ot2 =~= ot);
            assert(dt2 =~= dt);
        },
    }
}

/// A running timer counts each elapsed second once: short of the end of
/// the period, `secs` seconds take exactly `secs` seconds off what is left
/// and change nothing else; at or past the end, the other period begins,
/// whole and paused. A paused timer, or no time at all, changes nothing.
pub proof fn countdown_counts_each_second_once(m: AppModel, secs: nat)
    ensures
        !m.running || secs == 0 ==> m.after_elapsed(secs) == m,
        m.running && 0 < secs < m.remaining_secs ==> m.after_elapsed(secs) == (AppModel {
            remaining_secs: (m.remaining_secs - secs) as nat,
            ..m
        }),
        m.running && 0 < secs && m.remaining_secs <= secs ==> {
            let n = m.after_elapsed(secs);
            &&& n.mode != m.mode
            &&& n.mode == PomodoroMode::Work ==> n.remaining_secs == WORK_SECONDS
            &&& n.mode == PomodoroMode::Break ==> n.remaining_secs == BREAK_SECONDS
            &&& !n.running
            &&& n.folders == m.folders
            &&& n.input == m.input
        },
{
}

/// Deleting the selected open task removes that task and no other: the
/// tasks before it stay where they are, the ones after it move up by one,
/// and the completed tasks are untouched.
pub proof fn delete_removes_the_selected_open_task(f: FolderModel)
    requires
        f.fits(),
        f.selected_row < f.todos.len(),
    ensures
        f.delete_selected().todos.len() == f.todos.len() - 1,
        forall|j: int| 0 <= j < f.selected_row ==> #[trigger] f.delete_selected().todos[j] == f.todos[j],
        forall|j: int|
            f.selected_row <= j < f.todos.len() - 1 ==> #[trigger] f.delete_selected().todos[j]
                == f.todos[j + 1],
        f.delete_selected().completed == f.completed,
        f.delete_selected().name == f.name,
{
    let r = f.selected_row as int;
    assert(f.selected() == Some(SelectedTaskRow::Active(r as usize)));
    assert(f.delete_selected().todos == f.todos.remove(r));
}

/// Deleting the selected completed task removes that task and no other,
/// and leaves the open tasks untouched.
pub proof fn delete_removes_the_selected_completed_task(f: FolderModel)
    requires
        f.fits(),
        !f.completed_collapsed,
        f.todos.len() < f.selected_row,
        f.selected_row < f.todos.len() + 1 + f.completed.len(),
    ensures
        ({
            let k = f.selected_row - f.todos.len() - 1;
            let g = f.delete_selected();
            &&& g.completed.len() == f.completed.len() - 1
            &&& forall|j: int| 0 <= j < k ==> #[trigger] g.completed[j] == f.completed[j]
            &&& forall|j: int| k <= j < f.completed.len() - 1 ==> #[trigger] g.completed[j] == f.completed[j + 1]
            &&& g.todos == f.todos
            &&& g.name == f.name
        }),
{
    let k = f.selected_row - f.todos.len() - 1;
    assert(f.selected() == Some(SelectedTaskRow::Completed(k as usize)));
    assert(f.delete_selected().completed == f.completed.remove(k));
}

/// While text is typed, a letter typed in the task list is added to the
/// end of the text, whatever the letter (command letters act only on an
/// empty input), and nothing else changes; the same holds of every letter
/// while a folder name is typed.
pub proof fn letters_are_typed_into_the_input(m: AppModel, ch: char)
    requires
        m.input.len() > 0 || m.input_mode == InputMode::Folder,
    ensures
        m.on_todo_key(Key::Char(ch)) == (AppModel { input: m.input.push(ch), ..m }, Command::Continue),
        m.on_todo_key(Key::Char(ch)).0.folders == m.folders,
{
}

/// A key press of a letter, without Control-C, reaches the text being
/// typed in the task list and is added to its end.
pub proof fn typed_letters_reach_the_input(m: AppModel, ch: char, ctrl: bool)
    requires
        m.input.len() > 0,
        m.focus == Focus::Todos,
        !(ctrl && ch == 'c'),
    ensures
        m.on_key(KeyPress { code: Key::Char(ch), ctrl }) == (AppModel {
            input: m.input.push(ch),
            ..m
        }, Command::Continue),
{
}

/// The open total counts each folder's open tasks and the done total each
/// folder's completed tasks, whether its completed section is collapsed or
/// not.
pub proof fn totals_count_each_folder(fs: Seq<FolderModel>, f: FolderModel)
    ensures
        open_total(Seq::<FolderModel>::empty()) == 0,
        done_total(Seq::<FolderModel>::empty()) == 0,
        open_total(fs.push(f)) == open_total(fs) + f.todos.len(),
        done_total(fs.push(f)) == done_total(fs) + f.completed.len(),
        open_total(seq![f]) == f.todos.len(),
        done_total(seq![f]) == f.completed.len(),
{
    assert(fs.push(f).drop_last() =~= fs);
    assert(seq![f].drop_last() =~= Seq::<FolderModel>::empty());
}

/// A folder made from typed text is named by the whole text, less the white
/// space around it; it is added after the others, empty, and selected, and
/// the input is cleared.
pub proof fn added_folder_is_named_by_the_input(m: AppModel)
    requires
        trim(m.input).len() > 0,
    ensures
        ({
            let g = m.add_folder();
            &&& g.folders.len() == m.folders.len() + 1
            &&& forall|j: int| 0 <= j < m.folders.len() ==> #[trigger] g.folders[j] == m.folders[j]
            &&& g.folders.last().name == trim(m.input)
            &&& g.folders.last().todos.len() == 0
            &&& g.folders.last().completed.len() == 0
            &&& g.folders.last().selected_row == 0
            &&& !g.folders.last().completed_collapsed
            &&& g.selected_folder == m.folders.len()
            &&& g.input.len() == 0
            &&& g.input_mode == InputMode::Todo
        }),
{
}

/// Trimming removes white space from both ends and nothing else: what is
/// left is a stretch of the text, everything around it is white space, and
/// it neither starts nor ends with white space.
pub proof fn trim_removes_only_outer_white_space(s: Seq<char>)
    ensures
        exists|a: int, b: int|
            {
                &&& 0 <= a <= b <= s.len()
                &&& trim(s) == s.subrange(a, b)
                &&& forall|i: int| 0 <= i < a ==> is_white_space(#[trigger] s[i])
                &&& forall|i: int| b <= i < s.len() ==> is_white_space(#[trigger] s[i])
            },
        trim(s).len() > 0 ==> !is_white_space(trim(s)[0]) && !is_white_space(trim(s).last()),
{
    let a = lemma_trim_start_shape(s);
    let t = trim_start(s);
    let b = lemma_trim_end_shape(t);
    assert(trim(s) =~= s.subrange(a, a + b));
    assert forall|i: int| a + b <= i < s.len() implies is_white_space(#[trigger] s[i]) by {
        assert(s[i] == t[i - a]);
    }
    if trim(s).len() > 0 {
        assert(trim(s)[0] == t[0]);
    }
    assert(0 <= a <= a + b <= s.len());
}

/// Switching periods starts the other period, whole and paused, and
/// touches nothing but the timer.
pub proof fn switch_starts_the_other_period(m: AppModel)
    ensures
        m.switch_mode().mode != m.mode,
        m.switch_mode().mode == PomodoroMode::Work ==> m.switch_mode().remaining_secs == WORK_SECONDS,
        m.switch_mode().mode == PomodoroMode::Break ==> m.switch_mode().remaining_secs
            == BREAK_SECONDS,
        !m.switch_mode().running,
        m.switch_mode().folders == m.folders,
        m.switch_mode().input == m.input,
        m.switch_mode().selected_folder == m.selected_folder,
{
}

/// With nothing typed, the next folder is the one after the selected one,
/// and after the last comes the first; the previous folder is the one
/// before it, and before the first comes the last. While text is typed
/// the selection stays.
pub proof fn folder_selection_moves_by_one(m: AppModel)
    requires
        m.selected_folder < m.folders.len(),
    ensures
        m.input.len() == 0 ==> m.select_next_folder().selected_folder == if m.selected_folder + 1
            < m.folders.len() {
            m.selected_folder + 1
        } else {
            0
        },
        m.input.len() == 0 ==> m.select_previous_folder().selected_folder == if m.selected_folder
            == 0 {
            m.folders.len() - 1
        } else {
            m.selected_folder - 1
        },
        m.input.len() > 0 ==> m.select_next_folder() == m && m.select_previous_folder() == m,
        m.select_next_folder().folders == m.folders,
        m.select_previous_folder().folders == m.folders,
{
    let n = m.folders.len();
    let s = m.selected_folder;
    lemma_mod_self_0(n as int);
    if s + 1 < n {
        lemma_small_mod(s + 1, n);
    }
}

/// The selection moves one row down, from the last row to the first, and
/// one row up, from the first row to the last; the tasks stay as they are.
pub proof fn row_selection_moves_by_one(f: FolderModel)
    requires
        f.selected_row < f.visible_rows(),
    ensures
        f.select_next().selected_row == if f.selected_row + 1 < f.visible_rows() {
            f.selected_row + 1
        } else {
            0
        },
        f.select_previous().selected_row == if f.selected_row == 0 {
            f.visible_rows() - 1
        } else {
            f.selected_row - 1
        },
        f.select_next().todos == f.todos && f.select_next().completed == f.completed,
        f.select_previous().todos == f.todos && f.select_previous().completed == f.completed,
{
    let rows = f.visible_rows();
    let r = f.selected_row;
    lemma_mod_self_0(rows as int);
    if r + 1 < rows {
        lemma_small_mod(r + 1, rows);
    }
}

/// Completing the selected open task takes that task, and no other, out of
/// the open tasks (the ones after it move up by one) and puts it, done, at
/// the end of the completed tasks.
pub proof fn completing_moves_the_selected_task(f: FolderModel)
    requires
        f.fits(),
        f.selected_row < f.todos.len(),
    ensures
        ({
            let r = f.selected_row as int;
            let g = f.toggle_done();
            &&& g.todos.len() == f.todos.len() - 1
            &&& forall|j: int| 0 <= j < r ==> #[trigger] g.todos[j] == f.todos[j]
            &&& forall|j: int| r <= j < f.todos.len() - 1 ==> #[trigger] g.todos[j] == f.todos[j + 1]
            &&& g.completed.len() == f.completed.len() + 1
            &&& forall|j: int| 0 <= j < f.completed.len() ==> #[trigger] g.completed[j] == f.completed[j]
            &&& g.completed.last().text == f.todos[r].text
            &&& g.completed.last().done
        }),
{
    let r = f.selected_row as int;
    assert(f.selected() == Some(SelectedTaskRow::Active(r as usize)));
    assert(f.toggle_done().todos == f.todos.remove(r));
}

} // verus!
