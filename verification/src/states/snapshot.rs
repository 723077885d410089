//! How a table is saved to a file: the new generation is written beside
//! the file, the generation before the current one is dropped, the current
//! one is kept as the backup, and the new one takes its place.

use vstd::prelude::*;
use vstd::string::StringExecFns;

verus! {

/// One step of saving a table.
#[derive(Clone, Debug, PartialEq, Eq)]
pub enum FileStep {
    /// The table is written to this file. A failure ends the save.
    Write(String),
    /// This file is removed. A failure is passed over.
    Remove(String),
    /// The first file gets the name of the second. A failure is passed
    /// over.
    Rename(String, String),
}

/// What the failure of a step means for the save.
#[derive(Clone, Copy, Debug, PartialEq, Eq, Structural)]
pub enum Failed {
    /// The save ends with the failure, and no later step is made.
    EndsSave,
    /// The failure is passed over, and the save goes on.
    PassedOver,
}

pub enum FileStepView {
    Write(Seq<char>),
    Remove(Seq<char>),
    Rename(Seq<char>, Seq<char>),
}

impl View for FileStep {
    type V = FileStepView;

    open spec fn view(&self) -> FileStepView {
        match self {
            FileStep::Write(path) => FileStepView::Write(path@),
            FileStep::Remove(path) => FileStepView::Remove(path@),
            FileStep::Rename(from, to) => FileStepView::Rename(from@, to@),
        }
    }
}

impl DeepView for FileStep {
    type V = FileStepView;

    open spec fn deep_view(&self) -> FileStepView {
        self@
    }
}

/// What the failure of `step` means: a table that cannot be written ends
/// the save, so that nothing takes the place of the file; a file that
/// cannot be removed or renamed is passed over.
pub open spec fn failure_of(step: FileStepView) -> Failed {
    match step {
        FileStepView::Write(_) => Failed::EndsSave,
        FileStepView::Remove(_) => Failed::PassedOver,
        FileStepView::Rename(_, _) => Failed::PassedOver,
    }
}

impl FileStep {
    /// What the failure of this step means for the save.
    pub fn on_failure(&self) -> (meaning: Failed)
        ensures
            meaning == failure_of(self@),
    {
        match self {
            FileStep::Write(_) => Failed::EndsSave,
            FileStep::Remove(_) => Failed::PassedOver,
            FileStep::Rename(_, _) => Failed::PassedOver,
        }
    }
}

/// The file beside `path` that the new generation is written to.
pub open spec fn staged(path: Seq<char>) -> Seq<char> {
    path + ".new"@
}

/// The file beside `path` that keeps the generation before the current
/// one.
pub open spec fn backup(path: Seq<char>) -> Seq<char> {
    path + ".old"@
}

/// The steps that save a table to `path`.
pub open spec fn snapshot_plan(path: Seq<char>) -> Seq<FileStepView> {
    seq![
        FileStepView::Write(staged(path)),
        FileStepView::Remove(backup(path)),
        FileStepView::Rename(path, backup(path)),
        FileStepView::Rename(staged(path), path),
    ]
}

/// The files after `step`, where a write writes `data`. A file that is not
/// there is neither removed nor renamed.
pub open spec fn after_step<T>(files: Map<Seq<char>, T>, step: FileStepView, data: T) -> Map<
    Seq<char>,
    T,
> {
    match step {
        FileStepView::Write(path) => files.insert(path, data),
        FileStepView::Remove(path) => files.remove(path),
        FileStepView::Rename(from, to) => if files.contains_key(from) {
            files.remove(from).insert(to, files[from])
        } else {
            files
        },
    }
}

/// The files after `steps`, one after the other.
pub open spec fn after_steps<T>(files: Map<Seq<char>, T>, steps: Seq<FileStepView>, data: T) -> Map<
    Seq<char>,
    T,
>
    decreases steps.len(),
{
    if steps.len() == 0 {
        files
    } else {
        after_step(after_steps(files, steps.drop_last(), data), steps.last(), data)
    }
}

/// The files after `step` has failed. A removal or a renaming that fails
/// changes nothing. A write that fails leaves `left` in its file, where it
/// has left anything.
pub open spec fn after_failure<T>(files: Map<Seq<char>, T>, step: FileStepView, left: Option<T>) -> Map<
    Seq<char>,
    T,
> {
    match (step, left) {
        (FileStepView::Write(path), Some(partial)) => files.insert(path, partial),
        _ => files,
    }
}

/// The files after a save by `steps` in which the steps whose numbers are
/// in `failing` fail, and whether the save has ended with a failure. A
/// save that has ended makes no more steps.
pub open spec fn after_run<T>(
    files: Map<Seq<char>, T>,
    steps: Seq<FileStepView>,
    data: T,
    failing: Set<int>,
    left: Option<T>,
) -> (Map<Seq<char>, T>, bool)
    decreases steps.len(),
{
    if steps.len() == 0 {
        (files, false)
    } else {
        let before = after_run(files, steps.drop_last(), data, failing, left);
        if before.1 {
            before
        } else if failing.contains(steps.len() - 1) {
            (
                after_failure(before.0, steps.last(), left),
                failure_of(steps.last()) == Failed::EndsSave,
            )
        } else {
            (after_step(before.0, steps.last(), data), false)
        }
    }
}

/// The steps that save a table to `path`.
pub fn snapshot_steps(path: &str) -> (steps: Vec<FileStep>)
    ensures
        steps.deep_view() == snapshot_plan(path@),
{
    let mut new_path = String::from_str(path);
    new_path.append(".new");
    let mut new_again = String::from_str(path);
    new_again.append(".new");
    let mut old_path = String::from_str(path);
    old_path.append(".old");
    let mut old_again = String::from_str(path);
    old_again.append(".old");
    let mut steps: Vec<FileStep> = Vec::new();
    steps.push(FileStep::Write(new_path));
    steps.push(FileStep::Remove(old_path));
    steps.push(FileStep::Rename(String::from_str(path), old_again));
    steps.push(FileStep::Rename(new_again, String::from_str(path)));
    assert(steps.deep_view() =~= snapshot_plan(path@));
    steps
}

/// The files that the tables are saved to, in the order in which they are
/// saved.
pub fn table_paths() -> (paths: Vec<&'static str>)
    ensures
        paths@.len() == 3,
        paths@[0]@ == "accounts.json"@,
        paths@[1]@ == "serieses.json"@,
        paths@[2]@ == "config.json"@,
{
    let mut paths: Vec<&'static str> = Vec::new();
    paths.push("accounts.json");
    paths.push("serieses.json");
    paths.push("config.json");
    paths
}

/// The three files of a table have three names.
pub proof fn lemma_names_differ(path: Seq<char>)
    ensures
        staged(path) != path,
        backup(path) != path,
        staged(path) != backup(path),
{
    reveal_strlit(".new");
    reveal_strlit(".old");
    assert(staged(path).len() == path.len() + 4);
    assert(backup(path).len() == path.len() + 4);
    assert(staged(path)[path.len() as int + 1] == 'n');
    assert(backup(path)[path.len() as int + 1] == 'o');
}

/// The snapshot contract: after a table was saved to `path`, the file
/// holds the new generation; the backup holds the generation that the file
/// held before, and is not there where the file was not; nothing is left
/// of the staging file; and no other file has changed.
pub proof fn lemma_snapshot_rotates<T>(files: Map<Seq<char>, T>, path: Seq<char>, data: T)
    ensures
        after_steps(files, snapshot_plan(path), data).get(path) == Some(data),
        after_steps(files, snapshot_plan(path), data).get(backup(path)) == files.get(path),
        !after_steps(files, snapshot_plan(path), data).contains_key(staged(path)),
        forall|other: Seq<char>|
            other != path && other != backup(path) && other != staged(path) ==> after_steps(
                files,
                snapshot_plan(path),
                data,
            ).get(other) == files.get(other),
{
    lemma_names_differ(path);
    let plan = snapshot_plan(path);
    let one = plan.take(1);
    let two = plan.take(2);
    let three = plan.take(3);
    assert(plan.drop_last() =~= three);
    assert(three.drop_last() =~= two);
    assert(two.drop_last() =~= one);
    assert(one.drop_last() =~= Seq::<FileStepView>::empty());
    let first = after_steps(files, one, data);
    assert(first == files.insert(staged(path), data)) by {
        assert(after_steps(files, one.drop_last(), data) == files);
    }
    let second = after_steps(files, two, data);
    assert(second == first.remove(backup(path)));
    let third = after_steps(files, three, data);
    assert(third == after_step(second, FileStepView::Rename(path, backup(path)), data));
    let last = after_steps(files, plan, data);
    assert(last == after_step(third, FileStepView::Rename(staged(path), path), data));
    assert(third.contains_key(staged(path)));
}

/// A save in which no step fails is the save of the plan.
pub proof fn lemma_run_without_failure<T>(
    files: Map<Seq<char>, T>,
    steps: Seq<FileStepView>,
    data: T,
    left: Option<T>,
)
    ensures
        after_run(files, steps, data, Set::empty(), left) == (
            after_steps(files, steps, data),
            false,
        ),
    decreases steps.len(),
{
    if steps.len() > 0 {
        lemma_run_without_failure(files, steps.drop_last(), data, left);
    }
}

/// A save whose write fails ends there: the file and its backup are as
/// they were, whatever the write has left beside them.
pub proof fn lemma_failed_write_keeps_the_file<T>(
    files: Map<Seq<char>, T>,
    path: Seq<char>,
    data: T,
    failing: Set<int>,
    left: Option<T>,
)
    requires
        failing.contains(0),
    ensures
        after_run(files, snapshot_plan(path), data, failing, left).1,
        after_run(files, snapshot_plan(path), data, failing, left).0.get(path) == files.get(path),
        after_run(files, snapshot_plan(path), data, failing, left).0.get(backup(path))
            == files.get(backup(path)),
        forall|other: Seq<char>|
            other != staged(path) ==> after_run(
                files,
                snapshot_plan(path),
                data,
                failing,
                left,
            ).0.get(other) == files.get(other),
{
    lemma_names_differ(path);
    let plan = snapshot_plan(path);
    let one = plan.take(1);
    let two = plan.take(2);
    let three = plan.take(3);
    assert(plan.drop_last() =~= three);
    assert(three.drop_last() =~= two);
    assert(two.drop_last() =~= one);
    assert(one.drop_last() =~= Seq::<FileStepView>::empty());
    let first = after_run(files, one, data, failing, left);
    assert(after_run(files, one.drop_last(), data, failing, left) == (files, false));
    assert(first == (after_failure(files, FileStepView::Write(staged(path)), left), true));
    assert(after_run(files, two, data, failing, left) == first);
    assert(after_run(files, three, data, failing, left) == first);
    assert(after_run(files, plan, data, failing, left) == first);
}

/// A save whose write and whose last renaming go through puts the new
/// generation in the place of the file, whichever of the steps between
/// them fail.
pub proof fn lemma_passed_over_failures_keep_the_save<T>(
    files: Map<Seq<char>, T>,
    path: Seq<char>,
    data: T,
    failing: Set<int>,
    left: Option<T>,
)
    requires
        !failing.contains(0),
        !failing.contains(3),
    ensures
        !after_run(files, snapshot_plan(path), data, failing, left).1,
        after_run(files, snapshot_plan(path), data, failing, left).0.get(path) == Some(data),
        !after_run(files, snapshot_plan(path), data, failing, left).0.contains_key(staged(path)),
{
    lemma_names_differ(path);
    let plan = snapshot_plan(path);
    let one = plan.take(1);
    let two = plan.take(2);
    let three = plan.take(3);
    assert(plan.drop_last() =~= three);
    assert(three.drop_last() =~= two);
    assert(two.drop_last() =~= one);
    assert(one.drop_last() =~= Seq::<FileStepView>::empty());
    assert(after_run(files, one.drop_last(), data, failing, left) == (files, false));
    let first = after_run(files, one, data, failing, left);
    assert(first == (files.insert(staged(path), data), false));
    let second = after_run(files, two, data, failing, left);
    assert(!second.1 && second.0.get(staged(path)) == Some(data));
    let third = after_run(files, three, data, failing, left);
    assert(!third.1 && third.0.get(staged(path)) == Some(data));
    let last = after_run(files, plan, data, failing, left);
    assert(last == (after_step(third.0, FileStepView::Rename(staged(path), path), data), false));
}

} // verus!
