//! The export format of the task folders: writing it and reading it back.
use vstd::prelude::*;
use crate::folder::{
    empty_folder, lemma_total_tasks_push, todo_models, total_tasks, FolderModel, TaskFolder, Todo, TodoModel,
};
use crate::text::{
    chars_of, push_str, range_has_prefix, string_of_range, strip_cr, trim_range, has_prefix, lemma_has_prefix_concat, lemma_lines_acc_append, lemma_lines_acc_single, lines,
    lines_acc, trim,
};

verus! {

// ---------------------------------------------------------------------------
// The format
// ---------------------------------------------------------------------------

/// The first line of an export.
pub open spec fn title_line() -> Seq<char> {
    "# Pomodoro Todo Export v1"@
}

/// The start of the line that opens a folder.
pub open spec fn folder_tag() -> Seq<char> {
    "## Folder: "@
}

/// The start of the line of an open task.
pub open spec fn open_tag() -> Seq<char> {
    "- [ ] "@
}

/// The start of the line of a completed task.
pub open spec fn done_tag() -> Seq<char> {
    "- [x] "@
}

pub open spec fn newline() -> Seq<char> {
    seq!['\n']
}

/// One line per task: `tag`, the task's text, a line feed.
pub open spec fn task_lines_text(tag: Seq<char>, ts: Seq<TodoModel>) -> Seq<char>
    decreases ts.len(),
{
    if ts.len() == 0 {
        Seq::empty()
    } else {
        task_lines_text(tag, ts.drop_last()) + tag + ts.last().text + newline()
    }
}

/// A folder's part of an export: its header line, its open tasks, its
/// completed tasks and an empty line.
pub open spec fn folder_text(f: FolderModel) -> Seq<char> {
    folder_tag() + f.name + newline() + task_lines_text(open_tag(), f.todos) + task_lines_text(
        done_tag(),
        f.completed,
    ) + newline()
}

pub open spec fn folders_text(fs: Seq<FolderModel>) -> Seq<char>
    decreases fs.len(),
{
    if fs.len() == 0 {
        Seq::empty()
    } else {
        folders_text(fs.drop_last()) + folder_text(fs.last())
    }
}

/// The export of a list of folders: the title line, an empty line, then
/// each folder.
pub open spec fn export_text(fs: Seq<FolderModel>) -> Seq<char> {
    title_line() + newline() + newline() + folders_text(fs)
}

/// Reading an export: the folders finished so far, the folder being read,
/// and whether a task line came before any folder line.
pub struct ImportState {
    pub folders: Seq<FolderModel>,
    pub current: Option<FolderModel>,
    pub failed: bool,
}

pub open spec fn start_state() -> ImportState {
    ImportState { folders: Seq::empty(), current: None, failed: false }
}

/// The finished folders followed by the one being read, if any.
pub open spec fn flush(st: ImportState) -> Seq<FolderModel> {
    match st.current {
        Some(f) => st.folders.push(f),
        None => st.folders,
    }
}

/// One line of an export: a folder line starts a new folder named by the
/// trimmed rest of the line; a task line adds its rest as an open or a
/// completed task to the folder being read, or fails if there is none;
/// any other line is ignored.
pub open spec fn import_line(st: ImportState, line: Seq<char>) -> ImportState {
    if st.failed {
        st
    } else if has_prefix(line, folder_tag()) {
        ImportState {
            folders: flush(st),
            current: Some(empty_folder(trim(line.skip(folder_tag().len() as int)))),
            failed: false,
        }
    } else if has_prefix(line, open_tag()) {
        match st.current {
            None => ImportState { failed: true, ..st },
            Some(f) => ImportState {
                current: Some(
                    FolderModel {
                        todos: f.todos.push(
                            TodoModel { text: line.skip(open_tag().len() as int), done: false },
                        ),
                        ..f
                    },
                ),
                ..st
            },
        }
    } else if has_prefix(line, done_tag()) {
        match st.current {
            None => ImportState { failed: true, ..st },
            Some(f) => ImportState {
                current: Some(
                    FolderModel {
                        completed: f.completed.push(
                            TodoModel { text: line.skip(done_tag().len() as int), done: true },
                        ),
                        ..f
                    },
                ),
                ..st
            },
        }
    } else {
        st
    }
}

pub open spec fn import_lines(st: ImportState, ls: Seq<Seq<char>>) -> ImportState
    decreases ls.len(),
{
    if ls.len() == 0 {
        st
    } else {
        import_line(import_lines(st, ls.drop_last()), ls.last())
    }
}

/// The folders an export text describes: `None` when a task line comes
/// before any folder line, or when the text holds no folder line.
pub open spec fn parse_export_text(text: Seq<char>) -> Option<Seq<FolderModel>> {
    let st = import_lines(start_state(), lines(text));
    if st.failed {
        None
    } else if flush(st).len() == 0 {
        None
    } else {
        Some(flush(st))
    }
}

pub open spec fn folder_models(v: Seq<TaskFolder>) -> Seq<FolderModel> {
    v.map_values(|f: TaskFolder| f@)
}

/// A folder as it reads back from its export: open tasks not done, completed
/// tasks done, the first row selected and the completed section expanded.
pub open spec fn as_imported(f: FolderModel) -> FolderModel {
    FolderModel {
        name: f.name,
        todos: f.todos.map_values(|t: TodoModel| TodoModel { text: t.text, done: false }),
        completed: f.completed.map_values(|t: TodoModel| TodoModel { text: t.text, done: true }),
        selected_row: 0,
        completed_collapsed: false,
    }
}

/// A task text that stays one line of an export: no line feed, and no
/// carriage return at its end.
pub open spec fn one_line(t: Seq<char>) -> bool {
    &&& !t.contains('\n')
    &&& (t.len() == 0 || t.last() != '\r')
}

/// A folder whose export reads back to it: its name is one line and
/// trimmed, and each task text is one line.
pub open spec fn exportable(f: FolderModel) -> bool {
    &&& !f.name.contains('\n')
    &&& trim(f.name) == f.name
    &&& forall|i: int| 0 <= i < f.todos.len() ==> one_line(#[trigger] f.todos[i].text)
    &&& forall|i: int| 0 <= i < f.completed.len() ==> one_line(#[trigger] f.completed[i].text)
}

// ---------------------------------------------------------------------------
// Reading back an export
// ---------------------------------------------------------------------------

/// The lines an exported folder is made of.
pub open spec fn folder_lines(f: FolderModel) -> Seq<Seq<char>> {
    seq![folder_tag() + f.name] + f.todos.map_values(|t: TodoModel| open_tag() + t.text)
        + f.completed.map_values(|t: TodoModel| done_tag() + t.text) + seq![Seq::<char>::empty()]
}

pub open spec fn all_folder_lines(fs: Seq<FolderModel>) -> Seq<Seq<char>>
    decreases fs.len(),
{
    if fs.len() == 0 {
        Seq::empty()
    } else {
        all_folder_lines(fs.drop_last()) + folder_lines(fs.last())
    }
}

proof fn lemma_not_prefix(s: Seq<char>, p: Seq<char>, k: int)
    requires
        0 <= k < p.len(),
        k < s.len(),
        s[k] != p[k],
    ensures
        !has_prefix(s, p),
{
    if has_prefix(s, p) {
        assert(s.subrange(0, p.len() as int)[k] == s[k]);
    }
}

proof fn lemma_tags()
    ensures
        title_line().len() == 25,
        title_line()[0] == '#',
        title_line()[1] == ' ',
        folder_tag().len() == 11,
        folder_tag()[0] == '#',
        folder_tag()[1] == '#',
        folder_tag().last() == ' ',
        !folder_tag().contains('\n'),
        open_tag().len() == 6,
        open_tag()[0] == '-',
        open_tag()[3] == ' ',
        open_tag().last() == ' ',
        !open_tag().contains('\n'),
        done_tag().len() == 6,
        done_tag()[0] == '-',
        done_tag()[3] == 'x',
        done_tag().last() == ' ',
        !done_tag().contains('\n'),
{
    reveal_strlit("# Pomodoro Todo Export v1");
    reveal_strlit("## Folder: ");
    reveal_strlit("- [ ] ");
    reveal_strlit("- [x] ");
}

/// A tag and a one-line text form one line that the tag begins.
proof fn lemma_tagged_line(tag: Seq<char>, t: Seq<char>)
    requires
        tag.len() > 0,
        !tag.contains('\n'),
        tag.last() != '\r',
        one_line(t),
    ensures
        one_line(tag + t),
        lines_acc((tag + t).push('\n')) == (seq![tag + t], Seq::<char>::empty()),
{
    let s = tag + t;
    assert(!s.contains('\n')) by {
        if s.contains('\n') {
            let k = choose|k: int| 0 <= k < s.len() && s[k] == '\n';
            if k < tag.len() {
                assert(tag[k] == '\n');
            } else {
                assert(t[k - tag.len()] == '\n');
            }
        }
    }
    if t.len() == 0 {
        assert(s =~= tag);
    } else {
        assert(s.last() == t.last());
    }
    lemma_lines_acc_single(s);
}

proof fn lemma_task_lines(tag: Seq<char>, ts: Seq<TodoModel>)
    requires
        tag.len() > 0,
        !tag.contains('\n'),
        tag.last() != '\r',
        forall|i: int| 0 <= i < ts.len() ==> one_line(#[trigger] ts[i].text),
    ensures
        lines_acc(task_lines_text(tag, ts)) == (
            ts.map_values(|t: TodoModel| tag + t.text),
            Seq::<char>::empty(),
        ),
    decreases ts.len(),
{
    if ts.len() == 0 {
        assert(ts.map_values(|t: TodoModel| tag + t.text) =~= Seq::<Seq<char>>::empty());
    } else {
        let init = ts.drop_last();
        assert forall|i: int| 0 <= i < init.len() implies one_line(#[trigger] init[i].text) by {
            assert(init[i] == ts[i]);
        }
        lemma_task_lines(tag, init);
        let t = ts.last();
        assert(one_line(ts[ts.len() - 1].text));
        lemma_tagged_line(tag, t.text);
        let a = task_lines_text(tag, init);
        let b = (tag + t.text).push('\n');
        assert(task_lines_text(tag, ts) =~= a + b);
        lemma_lines_acc_append(a, b);
        assert(init.map_values(|t: TodoModel| tag + t.text) + seq![tag + t.text]
            =~= ts.map_values(|t: TodoModel| tag + t.text));
    }
}

proof fn lemma_folder_lines(f: FolderModel)
    requires
        exportable(f),
    ensures
        lines_acc(folder_text(f)) == (folder_lines(f), Seq::<char>::empty()),
{
    lemma_tags();
    assert(one_line(f.name)) by {
        if f.name.len() > 0 && f.name.last() == '\r' {
            assert(trim(f.name) == f.name);
            // a trimmed text does not end in white space
            let s = crate::text::trim_start(f.name);
            assert(crate::text::trim_end(s) == f.name);
            lemma_trim_end_last(s);
        }
    }
    lemma_tagged_line(folder_tag(), f.name);
    lemma_task_lines(open_tag(), f.todos);
    lemma_task_lines(done_tag(), f.completed);
    let h = (folder_tag() + f.name).push('\n');
    let o = task_lines_text(open_tag(), f.todos);
    let d = task_lines_text(done_tag(), f.completed);
    let e = newline();
    assert(folder_text(f) =~= ((h + o) + d) + e);
    lemma_lines_acc_append(h, o);
    lemma_lines_acc_append(h + o, d);
    lemma_lines_acc_append((h + o) + d, e);
    lemma_lines_acc_newline();
}

/// A single line feed is read as one empty line.
proof fn lemma_lines_acc_newline()
    ensures
        lines_acc(newline()) == (seq![Seq::<char>::empty()], Seq::<char>::empty()),
{
    let e = newline();
    assert(e.drop_last() =~= Seq::<char>::empty());
    assert(e.last() == '\n');
    assert(lines_acc(e.drop_last()) == (Seq::<Seq<char>>::empty(), Seq::<char>::empty()));
    assert(Seq::<Seq<char>>::empty().push(Seq::<char>::empty()) =~= seq![Seq::<char>::empty()]);
}

/// A text cut down by `trim_end` does not end in white space.
proof fn lemma_trim_end_last(s: Seq<char>)
    ensures
        crate::text::trim_end(s).len() == 0 || !crate::text::is_white_space(
            crate::text::trim_end(s).last(),
        ),
    decreases s.len(),
{
    if s.len() > 0 && crate::text::is_white_space(s.last()) {
        lemma_trim_end_last(s.drop_last());
    }
}

proof fn lemma_folders_lines(fs: Seq<FolderModel>)
    requires
        forall|i: int| 0 <= i < fs.len() ==> exportable(#[trigger] fs[i]),
    ensures
        lines_acc(folders_text(fs)) == (all_folder_lines(fs), Seq::<char>::empty()),
    decreases fs.len(),
{
    if fs.len() > 0 {
        let init = fs.drop_last();
        assert forall|i: int| 0 <= i < init.len() implies exportable(#[trigger] init[i]) by {
            assert(init[i] == fs[i]);
        }
        lemma_folders_lines(init);
        assert(exportable(fs[fs.len() - 1]));
        lemma_folder_lines(fs.last());
        lemma_lines_acc_append(folders_text(init), folder_text(fs.last()));
    }
}

proof fn lemma_import_lines_append(st: ImportState, a: Seq<Seq<char>>, b: Seq<Seq<char>>)
    ensures
        import_lines(st, a + b) == import_lines(import_lines(st, a), b),
    decreases b.len(),
{
    if b.len() == 0 {
        assert(a + b =~= a);
    } else {
        lemma_import_lines_append(st, a, b.drop_last());
        assert((a + b).drop_last() =~= a + b.drop_last());
        assert((a + b).last() == b.last());
    }
}

proof fn lemma_import_open_tasks(st: ImportState, c: FolderModel, ts: Seq<TodoModel>)
    requires
        !st.failed,
        st.current == Some(c),
    ensures
        import_lines(st, ts.map_values(|t: TodoModel| open_tag() + t.text)) == (ImportState {
            current: Some(
                FolderModel {
                    todos: c.todos + ts.map_values(
                        |t: TodoModel| TodoModel { text: t.text, done: false },
                    ),
                    ..c
                },
            ),
            ..st
        }),
    decreases ts.len(),
{
    lemma_tags();
    let ls = ts.map_values(|t: TodoModel| open_tag() + t.text);
    if ts.len() == 0 {
        assert(c.todos + ts.map_values(|t: TodoModel| TodoModel { text: t.text, done: false })
            =~= c.todos);
    } else {
        let init = ts.drop_last();
        lemma_import_open_tasks(st, c, init);
        assert(ls.drop_last() =~= init.map_values(|t: TodoModel| open_tag() + t.text));
        let line = ls.last();
        assert(line == open_tag() + ts.last().text);
        lemma_has_prefix_concat(open_tag(), ts.last().text);
        lemma_not_prefix(line, folder_tag(), 0);
        assert(line.skip(6) =~= ts.last().text);
        assert(c.todos + init.map_values(|t: TodoModel| TodoModel { text: t.text, done: false })
            .push(TodoModel { text: ts.last().text, done: false }) =~= c.todos + ts.map_values(
            |t: TodoModel| TodoModel { text: t.text, done: false },
        ));
    }
}

proof fn lemma_import_done_tasks(st: ImportState, c: FolderModel, ts: Seq<TodoModel>)
    requires
        !st.failed,
        st.current == Some(c),
    ensures
        import_lines(st, ts.map_values(|t: TodoModel| done_tag() + t.text)) == (ImportState {
            current: Some(
                FolderModel {
                    completed: c.completed + ts.map_values(
                        |t: TodoModel| TodoModel { text: t.text, done: true },
                    ),
                    ..c
                },
            ),
            ..st
        }),
    decreases ts.len(),
{
    lemma_tags();
    let ls = ts.map_values(|t: TodoModel| done_tag() + t.text);
    if ts.len() == 0 {
        assert(c.completed + ts.map_values(|t: TodoModel| TodoModel { text: t.text, done: true })
            =~= c.completed);
    } else {
        let init = ts.drop_last();
        lemma_import_done_tasks(st, c, init);
        assert(ls.drop_last() =~= init.map_values(|t: TodoModel| done_tag() + t.text));
        let line = ls.last();
        assert(line == done_tag() + ts.last().text);
        lemma_has_prefix_concat(done_tag(), ts.last().text);
        lemma_not_prefix(line, folder_tag(), 0);
        lemma_not_prefix(line, open_tag(), 3);
        assert(line.skip(6) =~= ts.last().text);
        assert(c.completed + init.map_values(
            |t: TodoModel| TodoModel { text: t.text, done: true },
        ).push(TodoModel { text: ts.last().text, done: true }) =~= c.completed + ts.map_values(
            |t: TodoModel| TodoModel { text: t.text, done: true },
        ));
    }
}

proof fn lemma_import_folder(st: ImportState, f: FolderModel)
    requires
        !st.failed,
        exportable(f),
    ensures
        import_lines(st, folder_lines(f)) == (ImportState {
            folders: flush(st),
            current: Some(as_imported(f)),
            failed: false,
        }),
{
    lemma_tags();
    let head = folder_tag() + f.name;
    let opens = f.todos.map_values(|t: TodoModel| open_tag() + t.text);
    let dones = f.completed.map_values(|t: TodoModel| done_tag() + t.text);
    let blank = seq![Seq::<char>::empty()];
    assert(folder_lines(f) =~= ((seq![head] + opens) + dones) + blank);
    lemma_has_prefix_concat(folder_tag(), f.name);
    assert(head.skip(11) =~= f.name);
    let s1 = import_lines(st, seq![head]);
    assert(seq![head].drop_last() =~= Seq::<Seq<char>>::empty());
    assert(import_lines(st, seq![head].drop_last()) == st);
    assert(seq![head].last() == head);
    assert(has_prefix(head, folder_tag()));
    assert(trim(head.skip(folder_tag().len() as int)) == f.name);
    assert(s1 == ImportState {
        folders: flush(st),
        current: Some(empty_folder(f.name)),
        failed: false,
    });
    lemma_import_lines_append(st, seq![head], opens);
    lemma_import_open_tasks(s1, empty_folder(f.name), f.todos);
    let s2 = import_lines(s1, opens);
    let c2 = FolderModel {
        todos: Seq::<TodoModel>::empty() + f.todos.map_values(
            |t: TodoModel| TodoModel { text: t.text, done: false },
        ),
        ..empty_folder(f.name)
    };
    assert(s2 == ImportState { current: Some(c2), ..s1 });
    lemma_import_lines_append(st, seq![head] + opens, dones);
    lemma_import_done_tasks(s2, c2, f.completed);
    let s3 = import_lines(s2, dones);
    lemma_import_lines_append(st, (seq![head] + opens) + dones, blank);
    assert(blank.drop_last() =~= Seq::<Seq<char>>::empty());
    assert(blank.last() == Seq::<char>::empty());
    assert(import_lines(s3, blank.drop_last()) == s3);
    assert(!has_prefix(Seq::<char>::empty(), folder_tag()));
    assert(!has_prefix(Seq::<char>::empty(), open_tag()));
    assert(!has_prefix(Seq::<char>::empty(), done_tag()));
    assert(import_lines(s3, blank) == s3);
    let c3 = FolderModel {
        completed: c2.completed + f.completed.map_values(
            |t: TodoModel| TodoModel { text: t.text, done: true },
        ),
        ..c2
    };
    assert(s3 == ImportState { current: Some(c3), ..s2 });
    assert(Seq::<TodoModel>::empty() + f.todos.map_values(
        |t: TodoModel| TodoModel { text: t.text, done: false },
    ) =~= as_imported(f).todos);
    assert(Seq::<TodoModel>::empty() + f.completed.map_values(
        |t: TodoModel| TodoModel { text: t.text, done: true },
    ) =~= as_imported(f).completed);
    assert(c3 == as_imported(f));
}

proof fn lemma_import_folders(fs: Seq<FolderModel>)
    requires
        fs.len() > 0,
        forall|i: int| 0 <= i < fs.len() ==> exportable(#[trigger] fs[i]),
    ensures
        import_lines(start_state(), all_folder_lines(fs)) == (ImportState {
            folders: fs.drop_last().map_values(|f: FolderModel| as_imported(f)),
            current: Some(as_imported(fs.last())),
            failed: false,
        }),
    decreases fs.len(),
{
    let init = fs.drop_last();
    assert(exportable(fs[fs.len() - 1]));
    if init.len() == 0 {
        assert(all_folder_lines(init) =~= Seq::<Seq<char>>::empty());
        assert(all_folder_lines(fs) =~= folder_lines(fs.last()));
        lemma_import_folder(start_state(), fs.last());
        assert(flush(start_state()) =~= init.map_values(|f: FolderModel| as_imported(f)));
    } else {
        assert forall|i: int| 0 <= i < init.len() implies exportable(#[trigger] init[i]) by {
            assert(init[i] == fs[i]);
        }
        lemma_import_folders(init);
        lemma_import_lines_append(start_state(), all_folder_lines(init), folder_lines(fs.last()));
        let st = import_lines(start_state(), all_folder_lines(init));
        lemma_import_folder(st, fs.last());
        assert(flush(st) =~= init.drop_last().map_values(|f: FolderModel| as_imported(f)).push(
            as_imported(init.last()),
        ));
        assert(init.drop_last().map_values(|f: FolderModel| as_imported(f)).push(
            as_imported(init.last()),
        ) =~= init.map_values(|f: FolderModel| as_imported(f)));
    }
}

/// Reading back an export gives the exported folders, each as
/// `as_imported` describes it, provided the folder names and task texts stay
/// on one line and the names are trimmed; an export of no folder reads back
/// as a failure.
pub proof fn import_reads_back_export(fs: Seq<FolderModel>)
    requires
        forall|i: int| 0 <= i < fs.len() ==> exportable(#[trigger] fs[i]),
    ensures
        parse_export_text(export_text(fs)) == if fs.len() == 0 {
            None
        } else {
            Some(fs.map_values(|f: FolderModel| as_imported(f)))
        },
{
    lemma_tags();
    let t = title_line().push('\n');
    let b = newline();
    assert(export_text(fs) =~= (t + b) + folders_text(fs));
    assert(!title_line().contains('\n')) by {
        reveal_strlit("# Pomodoro Todo Export v1");
    }
    assert(title_line().last() != '\r') by {
        reveal_strlit("# Pomodoro Todo Export v1");
    }
    lemma_lines_acc_single(title_line());
    lemma_lines_acc_newline();
    lemma_lines_acc_append(t, b);
    lemma_folders_lines(fs);
    lemma_lines_acc_append(t + b, folders_text(fs));
    let head = seq![title_line()] + seq![Seq::<char>::empty()];
    assert(lines_acc(t + b).0 =~= head);
    assert(lines(export_text(fs)) == head + all_folder_lines(fs));
    lemma_import_lines_append(start_state(), head, all_folder_lines(fs));
    // neither the title nor the empty line is a folder or task line
    lemma_not_prefix(title_line(), folder_tag(), 1);
    lemma_not_prefix(title_line(), open_tag(), 0);
    lemma_not_prefix(title_line(), done_tag(), 0);
    assert(head.drop_last() =~= seq![title_line()]);
    assert(head.last() == Seq::<char>::empty());
    assert(seq![title_line()].drop_last() =~= Seq::<Seq<char>>::empty());
    assert(seq![title_line()].last() == title_line());
    assert(import_lines(start_state(), Seq::<Seq<char>>::empty()) == start_state());
    assert(import_lines(start_state(), seq![title_line()]) == start_state());
    assert(!has_prefix(Seq::<char>::empty(), folder_tag()));
    assert(!has_prefix(Seq::<char>::empty(), open_tag()));
    assert(!has_prefix(Seq::<char>::empty(), done_tag()));
    assert(import_lines(start_state(), head) == start_state());
    if fs.len() == 0 {
        assert(all_folder_lines(fs) =~= Seq::<Seq<char>>::empty());
    } else {
        lemma_import_folders(fs);
        assert(fs.drop_last().map_values(|f: FolderModel| as_imported(f)).push(
            as_imported(fs.last()),
        ) =~= fs.map_values(|f: FolderModel| as_imported(f)));
    }
}

// ---------------------------------------------------------------------------
// Writing an export
// ---------------------------------------------------------------------------

fn push_task_lines(text: &mut String, tag: &str, todos: &Vec<Todo>)
    ensures
        final(text)@ == old(text)@ + task_lines_text(tag@, todo_models(todos@)),
{
    let ghost ts = todo_models(todos@);
    let mut j: usize = 0;
    assert(ts.take(0) =~= Seq::<TodoModel>::empty());
    assert(old(text)@ + task_lines_text(tag@, ts.take(0)) =~= old(text)@);
    while j < todos.len()
        invariant
            j <= todos@.len(),
            ts == todo_models(todos@),
            text@ == old(text)@ + task_lines_text(tag@, ts.take(j as int)),
        decreases todos@.len() - j,
    {
        push_str(text, tag);
        push_str(text, todos[j].text.as_str());
        push_str(text, "\n");
        proof {
            reveal_strlit("\n");
            assert(ts.take(j + 1).drop_last() =~= ts.take(j as int));
            assert(ts.take(j + 1).last() == todos@[j as int]@);
            assert(text@ =~= old(text)@ + task_lines_text(tag@, ts.take(j + 1)));
        }
        j += 1;
    }
    assert(ts.take(todos@.len() as int) =~= ts);
}

/// The export text of a list of folders (see `export_text`).
pub fn export_folders(folders: &Vec<TaskFolder>) -> (text: String)
    ensures
        text@ == export_text(folder_models(folders@)),
{
    let ghost fs = folder_models(folders@);
    let mut text = String::new();
    push_str(&mut text, "# Pomodoro Todo Export v1\n\n");
    proof {
        reveal_strlit("# Pomodoro Todo Export v1\n\n");
        reveal_strlit("# Pomodoro Todo Export v1");
        assert(fs.take(0) =~= Seq::<FolderModel>::empty());
        assert(text@ =~= export_text(fs.take(0)));
    }
    let mut k: usize = 0;
    while k < folders.len()
        invariant
            k <= folders@.len(),
            fs == folder_models(folders@),
            text@ == export_text(fs.take(k as int)),
        decreases folders@.len() - k,
    {
        let folder = &folders[k];
        push_str(&mut text, "## Folder: ");
        push_str(&mut text, folder.name.as_str());
        push_str(&mut text, "\n");
        push_task_lines(&mut text, "- [ ] ", &folder.todos);
        push_task_lines(&mut text, "- [x] ", &folder.completed);
        push_str(&mut text, "\n");
        proof {
            reveal_strlit("\n");
            assert(fs.take(k + 1).drop_last() =~= fs.take(k as int));
            assert(fs.take(k + 1).last() == folders@[k as int]@);
            assert(text@ =~= export_text(fs.take(k + 1)));
        }
        k += 1;
    }
    assert(fs.take(folders@.len() as int) =~= fs);
    text
}

// ---------------------------------------------------------------------------
// Reading an export
// ---------------------------------------------------------------------------

/// The characters of the three line tags.
struct Tags {
    folder: Vec<char>,
    open: Vec<char>,
    done: Vec<char>,
}

impl Tags {
    spec fn wf(&self) -> bool {
        &&& self.folder@ == folder_tag()
        &&& self.open@ == open_tag()
        &&& self.done@ == done_tag()
    }

    fn new() -> (t: Tags)
        ensures
            t.wf(),
    {
        Tags { folder: chars_of("## Folder: "), open: chars_of("- [ ] "), done: chars_of("- [x] ") }
    }
}

/// An export being read (see `ImportState`).
struct Importer {
    folders: Vec<TaskFolder>,
    current: Option<TaskFolder>,
    failed: bool,
}

pub open spec fn opt_folder_model(o: Option<TaskFolder>) -> Option<FolderModel> {
    match o {
        Some(f) => Some(f@),
        None => None,
    }
}

impl Importer {
    spec fn model(&self) -> ImportState {
        ImportState {
            folders: folder_models(self.folders@),
            current: opt_folder_model(self.current),
            failed: self.failed,
        }
    }

    spec fn count(&self) -> nat {
        total_tasks(flush(self.model()))
    }

    fn new() -> (imp: Importer)
        ensures
            imp.model() == start_state(),
            imp.count() == 0,
    {
        let imp = Importer { folders: Vec::new(), current: None, failed: false };
        assert(imp.model().folders =~= Seq::<FolderModel>::empty());
        imp
    }

    fn take_line(&mut self, v: &Vec<char>, lo: usize, hi: usize, tags: &Tags)
        requires
            lo <= hi <= v@.len(),
            tags.wf(),
        ensures
            final(self).model() == import_line(old(self).model(), v@.subrange(lo as int, hi as int)),
            final(self).count() <= old(self).count() + 1,
            final(self).count() > old(self).count() ==> hi - lo >= 6,
    {
        let ghost line = v@.subrange(lo as int, hi as int);
        proof {
            lemma_tags();
        }
        if self.failed {
            return;
        }
        if range_has_prefix(v, lo, hi, &tags.folder) {
            let (a, b) = trim_range(v, lo + tags.folder.len(), hi);
            assert(line.skip(folder_tag().len() as int) =~= v@.subrange(lo + 11, hi as int));
            let name = string_of_range(v, a, b);
            let prev = self.current.take();
            let ghost before = self.folders@;
            match prev {
                Some(f) => {
                    self.folders.push(f);
                    assert(folder_models(self.folders@) =~= folder_models(before).push(f@));
                },
                None => {},
            }
            self.current = Some(TaskFolder::new(name));
            assert(flush(self.model()) =~= flush(old(self).model()).push(self.current.unwrap()@));
            proof {
                lemma_total_tasks_push(flush(old(self).model()), self.current.unwrap()@);
            }
        } else if range_has_prefix(v, lo, hi, &tags.open) {
            let text = string_of_range(v, lo + tags.open.len(), hi);
            assert(line.skip(open_tag().len() as int) =~= v@.subrange(lo + 6, hi as int));
            match &mut self.current {
                Some(f) => {
                    let ghost before = f.todos@;
                    f.todos.push(Todo { text, done: false });
                    assert(todo_models(f.todos@) =~= todo_models(before).push(
                        TodoModel { text: text@, done: false },
                    ));
                    proof {
                        lemma_total_tasks_push(self.model().folders, old(self).current.unwrap()@);
                        lemma_total_tasks_push(self.model().folders, f@);
                    }
                },
                None => {
                    self.failed = true;
                },
            }
        } else if range_has_prefix(v, lo, hi, &tags.done) {
            let text = string_of_range(v, lo + tags.done.len(), hi);
            assert(line.skip(done_tag().len() as int) =~= v@.subrange(lo + 6, hi as int));
            match &mut self.current {
                Some(f) => {
                    let ghost before = f.completed@;
                    f.completed.push(Todo { text, done: true });
                    assert(todo_models(f.completed@) =~= todo_models(before).push(
                        TodoModel { text: text@, done: true },
                    ));
                    proof {
                        lemma_total_tasks_push(self.model().folders, old(self).current.unwrap()@);
                        lemma_total_tasks_push(self.model().folders, f@);
                    }
                },
                None => {
                    self.failed = true;
                },
            }
        }
    }

    fn finish(self) -> (r: Option<Vec<TaskFolder>>)
        ensures
            match r {
                None => self.model().failed || flush(self.model()).len() == 0,
                Some(fs) => !self.model().failed && flush(self.model()).len() > 0
                    && folder_models(fs@) == flush(self.model()),
            },
    {
        if self.failed {
            return None;
        }
        let mut folders = self.folders;
        let ghost before = folders@;
        if let Some(folder) = self.current {
            folders.push(folder);
            assert(folder_models(folders@) =~= folder_models(before).push(folder@));
        }
        if folders.is_empty() {
            None
        } else {
            Some(folders)
        }
    }
}

/// The folders an export text describes (see `parse_export_text`); every
/// task takes at least six characters of the text.
pub fn folders_from_export_text(text: &str) -> (r: Option<Vec<TaskFolder>>)
    ensures
        match r {
            None => parse_export_text(text@) is None,
            Some(fs) => parse_export_text(text@) == Some(folder_models(fs@)) && 6 * total_tasks(
                folder_models(fs@),
            ) <= text@.len() <= usize::MAX,
        },
{
    let v = chars_of(text);
    assert(v.len() == v@.len());
    let tags = Tags::new();
    let mut imp = Importer::new();
    let mut start: usize = 0;
    let mut i: usize = 0;
    let ghost mut done_lines: Seq<Seq<char>> = Seq::empty();
    assert(v@.take(0) =~= Seq::<char>::empty());
    assert(v@.subrange(0, 0) =~= Seq::<char>::empty());
    while i < v.len()
        invariant
            start <= i <= v@.len(),
            tags.wf(),
            lines_acc(v@.take(i as int)) == (done_lines, v@.subrange(start as int, i as int)),
            imp.model() == import_lines(start_state(), done_lines),
            6 * imp.count() <= start,
        decreases v@.len() - i,
    {
        assert(v@.take(i + 1).drop_last() =~= v@.take(i as int));
        assert(v@.take(i + 1).last() == v@[i as int]);
        if v[i] == '\n' {
            let end = if i > start && v[i - 1] == '\r' {
                i - 1
            } else {
                i
            };
            assert(strip_cr(v@.subrange(start as int, i as int)) =~= v@.subrange(
                start as int,
                end as int,
            ));
            imp.take_line(&v, start, end, &tags);
            proof {
                let l = v@.subrange(start as int, end as int);
                assert(done_lines.push(l).drop_last() =~= done_lines);
                done_lines = done_lines.push(l);
            }
            start = i + 1;
            assert(v@.subrange(start as int, i + 1) =~= Seq::<char>::empty());
        } else {
            assert(v@.subrange(start as int, i + 1) =~= v@.subrange(start as int, i as int).push(
                v@[i as int],
            ));
        }
        i += 1;
    }
    assert(v@.take(v@.len() as int) =~= v@);
    if start < v.len() {
        imp.take_line(&v, start, v.len(), &tags);
        proof {
            let l = v@.subrange(start as int, v@.len() as int);
            assert(done_lines.push(l).drop_last() =~= done_lines);
            done_lines = done_lines.push(l);
        }
    }
    assert(lines(text@) == done_lines);
    imp.finish()
}

// ---------------------------------------------------------------------------
// What an import gives
// ---------------------------------------------------------------------------

/// Every folder finished or being read is consistent.
pub open spec fn import_state_consistent(st: ImportState) -> bool {
    &&& forall|i: int| 0 <= i < st.folders.len() ==> (#[trigger] st.folders[i]).consistent()
    &&& (st.current matches Some(f) ==> f.consistent())
}

proof fn lemma_import_lines_consistent(ls: Seq<Seq<char>>)
    ensures
        import_state_consistent(import_lines(start_state(), ls)),
    decreases ls.len(),
{
    if ls.len() > 0 {
        lemma_import_lines_consistent(ls.drop_last());
        let st = import_lines(start_state(), ls.drop_last());
        let nx = import_line(st, ls.last());
        assert(import_state_consistent(nx)) by {
            if !st.failed && has_prefix(ls.last(), folder_tag()) {
                assert forall|i: int| 0 <= i < nx.folders.len() implies (
                #[trigger] nx.folders[i]).consistent() by {
                    if i < st.folders.len() {
                        assert(nx.folders[i] == st.folders[i]);
                    }
                }
            }
        }
    }
}

/// Every folder an import gives is consistent: its first row is selected,
/// its open tasks are not done and its completed tasks are.
pub proof fn lemma_imported_folders_consistent(text: Seq<char>)
    ensures
        parse_export_text(text) matches Some(fs) ==> forall|i: int|
            0 <= i < fs.len() ==> (#[trigger] fs[i]).consistent() && fs[i].selected_row == 0,
{
    lemma_import_lines_consistent(lines(text));
    lemma_import_lines_row_zero(lines(text));
    let st = import_lines(start_state(), lines(text));
    if let Some(fs) = parse_export_text(text) {
        assert forall|i: int| 0 <= i < fs.len() implies (#[trigger] fs[i]).consistent()
            && fs[i].selected_row == 0 by {
            if i < st.folders.len() {
                assert(fs[i] == st.folders[i]);
            }
        }
    }
}

proof fn lemma_import_lines_row_zero(ls: Seq<Seq<char>>)
    ensures
        forall|i: int|
            0 <= i < import_lines(start_state(), ls).folders.len() ==> (#[trigger] import_lines(
                start_state(),
                ls,
            ).folders[i]).selected_row == 0,
        import_lines(start_state(), ls).current matches Some(f) ==> f.selected_row == 0,
    decreases ls.len(),
{
    if ls.len() > 0 {
        lemma_import_lines_row_zero(ls.drop_last());
        let st = import_lines(start_state(), ls.drop_last());
        let nx = import_line(st, ls.last());
        if !st.failed && has_prefix(ls.last(), folder_tag()) {
            assert forall|i: int| 0 <= i < nx.folders.len() implies (
            #[trigger] nx.folders[i]).selected_row == 0 by {
                if i < st.folders.len() {
                    assert(nx.folders[i] == st.folders[i]);
                }
            }
        }
    }
}

// ---------------------------------------------------------------------------
// Lines that are not part of the format
// ---------------------------------------------------------------------------

/// A line that is neither a folder line nor a task line.
pub open spec fn ignored_line(l: Seq<char>) -> bool {
    &&& !has_prefix(l, folder_tag())
    &&& !has_prefix(l, open_tag())
    &&& !has_prefix(l, done_tag())
}

/// A text that ends where a line ends: empty, or ending in a line feed.
pub open spec fn at_line_start(a: Seq<char>) -> bool {
    a.len() == 0 || a.last() == '\n'
}

proof fn lemma_prefix_of_strip_cr(l: Seq<char>, p: Seq<char>)
    requires
        has_prefix(strip_cr(l), p),
    ensures
        has_prefix(l, p),
{
    if l.len() > 0 && l.last() == '\r' {
        assert(l.subrange(0, p.len() as int) =~= strip_cr(l).subrange(0, p.len() as int));
    }
}

proof fn lemma_lines_acc_one_line(l: Seq<char>)
    requires
        !l.contains('\n'),
    ensures
        lines_acc(l.push('\n')) == (seq![strip_cr(l)], Seq::<char>::empty()),
{
    crate::text::lemma_lines_acc_no_newline(l);
    assert(l.push('\n').drop_last() =~= l);
    assert(Seq::<Seq<char>>::empty().push(strip_cr(l)) =~= seq![strip_cr(l)]);
}

/// Inserting an ignored line at the start of a line of an export does not
/// change what the export reads as.
pub proof fn ignored_line_changes_nothing(a: Seq<char>, l: Seq<char>, b: Seq<char>)
    requires
        at_line_start(a),
        !l.contains('\n'),
        ignored_line(l),
    ensures
        parse_export_text(a + l.push('\n') + b) == parse_export_text(a + b),
{
    let c = l.push('\n');
    assert(lines_acc(a).1.len() == 0) by {
        if a.len() > 0 {
            assert(a.last() == '\n');
        }
    }
    lemma_lines_acc_one_line(l);
    let l2 = strip_cr(l);
    assert(ignored_line(l2)) by {
        if has_prefix(l2, folder_tag()) {
            lemma_prefix_of_strip_cr(l, folder_tag());
        }
        if has_prefix(l2, open_tag()) {
            lemma_prefix_of_strip_cr(l, open_tag());
        }
        if has_prefix(l2, done_tag()) {
            lemma_prefix_of_strip_cr(l, done_tag());
        }
    }
    lemma_lines_acc_append(c, b);
    lemma_lines_acc_append(a, c + b);
    lemma_lines_acc_append(a, b);
    assert(a + c + b =~= a + (c + b));
    let pre = lines_acc(a).0;
    let (d, o) = lines_acc(b);
    let rest = if o.len() == 0 {
        d
    } else {
        d.push(o)
    };
    assert(lines(a + c + b) =~= pre + seq![l2] + rest);
    assert(lines(a + b) =~= pre + rest);
    lemma_import_lines_append(start_state(), pre + seq![l2], rest);
    lemma_import_lines_append(start_state(), pre, seq![l2]);
    lemma_import_lines_append(start_state(), pre, rest);
    let st = import_lines(start_state(), pre);
    assert(seq![l2].drop_last() =~= Seq::<Seq<char>>::empty());
    assert(seq![l2].last() == l2);
    assert(import_lines(st, Seq::<Seq<char>>::empty()) == st);
    assert(import_lines(st, seq![l2]) == st);
}

} // verus!
