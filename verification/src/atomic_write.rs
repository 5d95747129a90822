//! Writing a cache file so that no reader sees a part of it.
//!
//! The bytes go to a temporary file beside the target, which is then renamed
//! over it. Icons are extracted by many threads at once, and several of them
//! may write one file; a complete file takes the place of another complete
//! file, so a reader sees the old one or the new one.
//!
//! The file operations are made elsewhere: an [`AtomicWrite`] says which one is
//! due, and `answer` takes how it went. `E` is the error of a file operation.

use vstd::prelude::*;
use crate::cache::{temp_file, CacheFile};

verus! {

/// How far the write has come, and what is due next.
#[derive(Debug)]
pub enum AtomicWrite<E> {
    /// Write the bytes to the temporary file.
    Write(WriteTemp),
    /// Rename the temporary file over the target.
    Rename(RenameTemp),
    /// Remove the temporary file.
    Remove(RemoveTemp<E>),
    /// Look whether the target exists.
    Check(CheckTarget<E>),
    /// Nothing more: whether the target is in place.
    Finished(Result<(), E>),
}

/// `bytes` are due to be written to `temp`.
#[derive(Debug)]
pub struct WriteTemp {
    pub temp: CacheFile,
    pub path: CacheFile,
    pub bytes: Vec<u8>,
}

/// `temp` is due to be renamed to `path`.
#[derive(Debug)]
pub struct RenameTemp {
    pub temp: CacheFile,
    pub path: CacheFile,
}

/// `temp` is due to be removed, after it could not be renamed.
#[derive(Debug)]
pub struct RemoveTemp<E> {
    pub temp: CacheFile,
    pub path: CacheFile,
    pub error: E,
}

/// It is due to be seen whether `path` exists, after a file could not be renamed
/// to it.
#[derive(Debug)]
pub struct CheckTarget<E> {
    pub path: CacheFile,
    pub error: E,
}

/// Starts to write `bytes` to the cache file `path`. The temporary file is named
/// after the process and a number that the process uses once.
pub fn write_atomically<E>(path: CacheFile, bytes: Vec<u8>, pid: u32, seq: u64) -> (write: AtomicWrite<E>)
    ensures
        write matches AtomicWrite::Write(first) && first.path == path && first.bytes == bytes
            && first.temp@ == crate::cache::temp_name(path@, pid, seq) && first.temp.name@
            == path.name@ + "."@ + crate::text::decimal(pid as nat) + "."@ + crate::text::decimal(
            seq as nat,
        ) + ".tmp"@,
{
    let temp = temp_file(&path, pid, seq);
    AtomicWrite::Write(WriteTemp { temp, path, bytes })
}

impl WriteTemp {
    /// The state after the temporary file was written, or was not.
    pub open spec fn next<E>(self, written: Result<(), E>) -> AtomicWrite<E> {
        match written {
            Ok(_) => AtomicWrite::Rename(RenameTemp { temp: self.temp, path: self.path }),
            Err(error) => AtomicWrite::Finished(Err(error)),
        }
    }

    /// Takes how the writing went.
    pub fn answer<E>(self, written: Result<(), E>) -> (write: AtomicWrite<E>)
        ensures
            write == self.next(written),
            written is Ok ==> (write matches AtomicWrite::Rename(step) && step.temp == self.temp
                && step.path == self.path),
            written matches Err(error) ==> write == AtomicWrite::Finished(Err(error)),
    {
        match written {
            Ok(_) => AtomicWrite::Rename(RenameTemp { temp: self.temp, path: self.path }),
            Err(error) => AtomicWrite::Finished(Err(error)),
        }
    }
}

impl RenameTemp {
    /// The state after the temporary file was renamed, or was not.
    pub open spec fn next<E>(self, renamed: Result<(), E>) -> AtomicWrite<E> {
        match renamed {
            Ok(_) => AtomicWrite::Finished(Ok(())),
            Err(error) => AtomicWrite::Remove(
                RemoveTemp { temp: self.temp, path: self.path, error },
            ),
        }
    }

    /// Takes how the renaming went.
    pub fn answer<E>(self, renamed: Result<(), E>) -> (write: AtomicWrite<E>)
        ensures
            write == self.next(renamed),
            renamed is Ok ==> write == AtomicWrite::<E>::Finished(Ok(())),
            renamed matches Err(error) ==> (write matches AtomicWrite::Remove(step) && step.temp
                == self.temp && step.path == self.path && step.error == error),
    {
        match renamed {
            Ok(_) => AtomicWrite::Finished(Ok(())),
            Err(error) => AtomicWrite::Remove(
                RemoveTemp { temp: self.temp, path: self.path, error },
            ),
        }
    }
}

impl<E> RemoveTemp<E> {
    /// The state after the temporary file was removed, or was not.
    pub open spec fn next(self) -> AtomicWrite<E> {
        AtomicWrite::Check(CheckTarget { path: self.path, error: self.error })
    }

    /// Goes on after the removal, whether or not it succeeded.
    pub fn answer(self) -> (write: AtomicWrite<E>)
        ensures
            write == self.next(),
            write matches AtomicWrite::Check(step) && step.path == self.path && step.error
                == self.error,
    {
        AtomicWrite::Check(CheckTarget { path: self.path, error: self.error })
    }
}

impl<E> CheckTarget<E> {
    /// The state after the target was looked for.
    pub open spec fn next(self, exists: bool) -> AtomicWrite<E> {
        if exists {
            AtomicWrite::Finished(Ok(()))
        } else {
            AtomicWrite::Finished(Err(self.error))
        }
    }

    /// Takes whether the target exists. Windows refuses to replace a file that
    /// another handle has open, so a target that is there after all was written
    /// by another writer of the same file, and that is as good.
    pub fn answer(self, exists: bool) -> (write: AtomicWrite<E>)
        ensures
            write == self.next(exists),
            exists ==> write == AtomicWrite::<E>::Finished(Ok(())),
            !exists ==> write == AtomicWrite::Finished(Err(self.error)),
    {
        if exists {
            AtomicWrite::Finished(Ok(()))
        } else {
            AtomicWrite::Finished(Err(self.error))
        }
    }
}

// ---------------------------------------------------------------------------
// Laws of one write
// ---------------------------------------------------------------------------

/// How the operations of one write go, whether or not they are made.
pub struct FileReplies<E> {
    pub written: Result<(), E>,
    pub renamed: Result<(), E>,
    pub exists: bool,
}

impl<E> AtomicWrite<E> {
    /// How many operations are due at most.
    pub open spec fn steps_left(self) -> nat {
        match self {
            AtomicWrite::Write(_) => 4,
            AtomicWrite::Rename(_) => 3,
            AtomicWrite::Remove(_) => 2,
            AtomicWrite::Check(_) => 1,
            AtomicWrite::Finished(_) => 0,
        }
    }

    /// What the write ends with, if the operations go as in `replies`.
    pub open spec fn result(self, replies: FileReplies<E>) -> Result<(), E>
        decreases self.steps_left(),
    {
        match self {
            AtomicWrite::Write(step) => step.next(replies.written).result(replies),
            AtomicWrite::Rename(step) => step.next(replies.renamed).result(replies),
            AtomicWrite::Remove(step) => step.next().result(replies),
            AtomicWrite::Check(step) => step.next(replies.exists).result(replies),
            AtomicWrite::Finished(result) => result,
        }
    }

    /// The files that are removed on the way to the end, in order, if the
    /// operations go as in `replies`.
    pub open spec fn removed(self, replies: FileReplies<E>) -> Seq<Seq<char>>
        decreases self.steps_left(),
    {
        match self {
            AtomicWrite::Write(step) => step.next(replies.written).removed(replies),
            AtomicWrite::Rename(step) => step.next(replies.renamed).removed(replies),
            AtomicWrite::Remove(step) => seq![step.temp@] + step.next().removed(replies),
            AtomicWrite::Check(step) => step.next(replies.exists).removed(replies),
            AtomicWrite::Finished(_) => seq![],
        }
    }
}

/// A write, run to its end, succeeds when the temporary file was written and
/// was renamed, or could not be renamed but the target exists. It fails
/// otherwise, with the error of the operation that failed first.
pub proof fn law_write_result<E>(first: WriteTemp, replies: FileReplies<E>)
    ensures
        AtomicWrite::Write(first).result(replies) == (match (replies.written, replies.renamed) {
            (Err(error), _) => Err(error),
            (Ok(_), Ok(_)) => Ok(()),
            (Ok(_), Err(error)) => if replies.exists {
                Ok(())
            } else {
                Err(error)
            },
        }),
{
    reveal_with_fuel(AtomicWrite::result, 5);
}

/// The temporary file is removed when it was written and could not be renamed,
/// and no other file is ever removed.
pub proof fn law_temp_removed_after_failed_rename<E>(first: WriteTemp, replies: FileReplies<E>)
    ensures
        AtomicWrite::Write(first).removed(replies) == (if replies.written is Ok
            && replies.renamed is Err {
            seq![first.temp@]
        } else {
            seq![]
        }),
{
    reveal_with_fuel(AtomicWrite::removed, 5);
    assert(seq![first.temp@] + Seq::<Seq<char>>::empty() =~= seq![first.temp@]);
}

/// Every step works on the temporary file and the target that the write started
/// with: a temporary file that was written is renamed to the target; one that
/// cannot be renamed is removed, and then the target is looked for. The error that
/// is reported is the one that came first.
pub proof fn law_every_step_keeps_its_files<E>(first: WriteTemp, error: E)
    ensures
        first.next::<E>(Err(error)) == AtomicWrite::Finished(Err(error)),
        first.next::<E>(Ok(())) matches AtomicWrite::Rename(rename) && rename.temp == first.temp
            && rename.path == first.path && rename.next::<E>(Ok(())) == AtomicWrite::<E>::Finished(
            Ok(()),
        ) && (rename.next::<E>(Err(error)) matches AtomicWrite::Remove(remove) && remove.temp
            == first.temp && remove.path == first.path && (
        remove.next() matches AtomicWrite::Check(check) && check.path == first.path && check.next(
            true,
        ) == AtomicWrite::<E>::Finished(Ok(())) && check.next(false) == AtomicWrite::Finished(
            Err(error),
        ))),
{
}

// ---------------------------------------------------------------------------
// Laws of many writes at once
// ---------------------------------------------------------------------------

/// The files of the cache directory, by name. An operation either has its
/// effect or has none, except that a file being written may hold anything.
pub type Files = Map<Seq<char>, Seq<u8>>;

/// `after` differs from `before` at most in the file `name`.
pub open spec fn only_changed(before: Files, after: Files, name: Seq<char>) -> bool {
    after.remove(name) == before.remove(name)
}

/// One step of a write, from its state and the files before to its state and the
/// files after.
pub open spec fn write_step<E>(
    before: AtomicWrite<E>,
    files: Files,
    after: AtomicWrite<E>,
    files_after: Files,
) -> bool {
    match before {
        AtomicWrite::Write(step) => {
            // Some part is written.
            ||| after == before && only_changed(files, files_after, step.temp@)
            ||| after == step.next::<E>(Ok(())) && files_after == files.insert(
                step.temp@,
                step.bytes@,
            )
            ||| after is Finished && after->Finished_0 is Err && after == step.next::<E>(
                after->Finished_0,
            ) && only_changed(files, files_after, step.temp@)
        },
        AtomicWrite::Rename(step) => {
            ||| after == step.next::<E>(Ok(())) && files.dom().contains(step.temp@) && files_after
                == files.remove(step.temp@).insert(step.path@, files[step.temp@])
            ||| after is Remove && after == step.next::<E>(Err(after->Remove_0.error))
                && files_after == files
        },
        AtomicWrite::Remove(step) => {
            after == step.next() && only_changed(files, files_after, step.temp@)
        },
        AtomicWrite::Check(step) => {
            after == step.next(files.dom().contains(step.path@)) && files_after == files
        },
        AtomicWrite::Finished(_) => false,
    }
}

/// A temporary file that was written and then renamed leaves the whole of the bytes
/// as the target and nothing under its own name, and changes no other file.
pub proof fn law_renamed_file_is_in_place<E>(
    first: WriteTemp,
    start: Files,
    written: AtomicWrite<E>,
    between: Files,
    renamed: AtomicWrite<E>,
    end: Files,
)
    requires
        first.temp@ != first.path@,
        write_step(AtomicWrite::Write(first), start, written, between),
        written is Rename,
        write_step(written, between, renamed, end),
        renamed is Finished,
    ensures
        renamed == AtomicWrite::<E>::Finished(Ok(())),
        end == start.remove(first.temp@).insert(first.path@, first.bytes@),
{
    assert(end =~= start.remove(first.temp@).insert(first.path@, first.bytes@));
}

/// A write under way: its state, and what it was started with.
pub struct Writer<E> {
    pub state: AtomicWrite<E>,
    pub temp: Seq<char>,
    pub path: Seq<char>,
    pub bytes: Seq<u8>,
}

impl<E> Writer<E> {
    /// The state still speaks of the files and bytes of the start.
    pub open spec fn consistent(self) -> bool {
        match self.state {
            AtomicWrite::Write(step) => step.temp@ == self.temp && step.path@ == self.path
                && step.bytes@ == self.bytes,
            AtomicWrite::Rename(step) => step.temp@ == self.temp && step.path@ == self.path,
            AtomicWrite::Remove(step) => step.temp@ == self.temp && step.path@ == self.path,
            AtomicWrite::Check(step) => step.path@ == self.path,
            AtomicWrite::Finished(_) => true,
        }
    }
}

/// The files, and the writes under way in them.
pub struct Scene<E> {
    pub files: Files,
    pub writers: Seq<Writer<E>>,
}

/// No temporary file serves two writers or is the target of one.
pub open spec fn names_apart<E>(writers: Seq<Writer<E>>) -> bool {
    &&& forall|i: int, j: int|
        #![trigger writers[i], writers[j]]
        0 <= i < writers.len() && 0 <= j < writers.len() && i != j ==> writers[i].temp
            != writers[j].temp
    &&& forall|i: int, j: int|
        #![trigger writers[i], writers[j]]
        0 <= i < writers.len() && 0 <= j < writers.len() ==> writers[i].temp != writers[j].path
}

/// `name` is the temporary file of some writer.
pub open spec fn is_temp<E>(writers: Seq<Writer<E>>, name: Seq<char>) -> bool {
    exists|i: int| 0 <= i < writers.len() && #[trigger] writers[i].temp == name
}

/// `content` is what some writer puts in place as `name`, the whole of it.
pub open spec fn is_whole<E>(writers: Seq<Writer<E>>, name: Seq<char>, content: Seq<u8>) -> bool {
    exists|i: int|
        0 <= i < writers.len() && #[trigger] writers[i].path == name && writers[i].bytes == content
}

/// Every file that is not a temporary file holds what it held at the start, or
/// the whole of what some writer writes to it.
pub open spec fn no_partial_file<E>(start: Files, scene: Scene<E>) -> bool {
    forall|name: Seq<char>|
        scene.files.dom().contains(name) && !is_temp(scene.writers, name) ==> {
            ||| start.dom().contains(name) && scene.files[name] == start[name]
            ||| #[trigger] is_whole(scene.writers, name, scene.files[name])
        }
}

/// What holds of the files and the writers after any number of steps.
pub open spec fn scene_invariant<E>(start: Files, scene: Scene<E>) -> bool {
    &&& names_apart(scene.writers)
    &&& forall|i: int| 0 <= i < scene.writers.len() ==> (#[trigger] scene.writers[i]).consistent()
    &&& forall|i: int|
        0 <= i < scene.writers.len() && (#[trigger] scene.writers[i]).state is Rename
            ==> scene.files.dom().contains(scene.writers[i].temp)
            && scene.files[scene.writers[i].temp] == scene.writers[i].bytes
    &&& no_partial_file(start, scene)
}

/// Writer `i` takes one step and the others wait.
pub open spec fn scene_step<E>(before: Scene<E>, after: Scene<E>, i: int) -> bool {
    &&& 0 <= i < before.writers.len()
    &&& after.writers.len() == before.writers.len()
    &&& write_step(
        before.writers[i].state,
        before.files,
        after.writers[i].state,
        after.files,
    )
    &&& after.writers == before.writers.update(
        i,
        Writer { state: after.writers[i].state, ..before.writers[i] },
    )
}

/// Each step of each writer keeps every file whole, whatever the others are
/// doing.
pub proof fn law_step_keeps_files_whole<E>(start: Files, before: Scene<E>, after: Scene<E>, i: int)
    requires
        scene_invariant(start, before),
        scene_step(before, after, i),
    ensures
        scene_invariant(start, after),
{
    let ws = before.writers;
    let ws_after = after.writers;
    let temp = ws[i].temp;
    let path = ws[i].path;
    assert forall|k: int| 0 <= k < ws.len() implies (#[trigger] ws_after[k]).temp == ws[k].temp
        && ws_after[k].path == ws[k].path && ws_after[k].bytes == ws[k].bytes && (k != i
        ==> ws_after[k] == ws[k]) by {}
    assert(ws[i].consistent());
    assert forall|name: Seq<char>| is_temp(ws_after, name) == is_temp(ws, name) by {
        if is_temp(ws, name) {
            let k = choose|k: int| 0 <= k < ws.len() && #[trigger] ws[k].temp == name;
            assert(ws_after[k].temp == name);
        }
        if is_temp(ws_after, name) {
            let k = choose|k: int| 0 <= k < ws.len() && #[trigger] ws_after[k].temp == name;
            assert(ws[k].temp == name);
        }
    }
    assert forall|name: Seq<char>, content: Seq<u8>|
        is_whole(ws, name, content) implies is_whole(ws_after, name, content) by {
        let k = choose|k: int|
            0 <= k < ws.len() && #[trigger] ws[k].path == name && ws[k].bytes == content;
        assert(ws_after[k].path == name);
    }
    // What a step may change: the writer's own temporary file, and its target.
    assert forall|name: Seq<char>| name != temp && name != path implies (
    #[trigger] after.files.dom().contains(name) == before.files.dom().contains(name)) && (
    before.files.dom().contains(name) ==> after.files[name] == before.files[name]) by {
        lemma_elsewhere(before.files, after.files, temp, name);
    }
    assert(temp != path);
    assert(after.files.dom().contains(path) ==> {
        ||| before.files.dom().contains(path) && after.files[path] == before.files[path]
        ||| after.files[path] == ws[i].bytes
    }) by {
        lemma_elsewhere(before.files, after.files, temp, path);
    }
    assert(is_temp(ws, temp));
    assert forall|k: int|
        0 <= k < ws_after.len() && (#[trigger] ws_after[k]).state is Rename implies
        after.files.dom().contains(ws_after[k].temp) && after.files[ws_after[k].temp]
        == ws_after[k].bytes by {
        if k != i {
            assert(ws[k].state is Rename);
            assert(ws[k].temp != ws[i].temp && ws[k].temp != ws[i].path);
        }
    }
    assert(no_partial_file(start, after)) by {
        assert forall|name: Seq<char>|
            after.files.dom().contains(name) && !is_temp(ws_after, name) implies {
            ||| start.dom().contains(name) && after.files[name] == start[name]
            ||| #[trigger] is_whole(ws_after, name, after.files[name])
        } by {
            assert(name != temp);
            if name == path && after.files[path] == ws[i].bytes {
                assert(ws_after[i].path == name);
                assert(is_whole(ws_after, name, after.files[name]));
            } else {
                assert(before.files.dom().contains(name));
                assert(is_whole(ws, name, before.files[name]) || start.dom().contains(name));
            }
        }
    }
    assert forall|k: int| 0 <= k < ws_after.len() implies (
    #[trigger] ws_after[k]).consistent() by {
        assert(ws[k].consistent());
    }
}

/// A file other than the one that changed is as it was.
proof fn lemma_elsewhere(before: Files, after: Files, changed: Seq<char>, name: Seq<char>)
    ensures
        only_changed(before, after, changed) && name != changed ==> (after.dom().contains(name)
            == before.dom().contains(name)) && (before.dom().contains(name) ==> after[name]
            == before[name]),
{
    if only_changed(before, after, changed) && name != changed {
        assert(after.remove(changed).dom().contains(name) == after.dom().contains(name));
        assert(before.remove(changed).dom().contains(name) == before.dom().contains(name));
        if before.dom().contains(name) {
            assert(after.remove(changed)[name] == after[name]);
            assert(before.remove(changed)[name] == before[name]);
        }
    }
}

/// The writer is at its start, as process `pid` starts its `seq`th write.
pub open spec fn just_started<E>(writer: Writer<E>, pid: u32, seq: u64) -> bool {
    &&& writer.state is Write
    &&& writer.consistent()
    &&& writer.temp == crate::cache::temp_name(writer.path, pid, seq)
}

/// `name` ends as the name of a temporary file does.
pub open spec fn ends_in_tmp(name: Seq<char>) -> bool {
    name.len() >= 4 && name.skip(name.len() - 4) == ".tmp"@
}

/// All writers are at their start. Writer `i` belongs to process `pids[i]` and is
/// its `seqs[i]`th; no process uses a number twice, and no target has the name of
/// a temporary file.
pub open spec fn all_just_started<E>(writers: Seq<Writer<E>>, pids: Seq<u32>, seqs: Seq<u64>) -> bool {
    &&& pids.len() == writers.len()
    &&& seqs.len() == writers.len()
    &&& forall|i: int|
        0 <= i < writers.len() ==> just_started(#[trigger] writers[i], pids[i], seqs[i])
    &&& forall|i: int| 0 <= i < writers.len() ==> !ends_in_tmp((#[trigger] writers[i]).path)
    &&& forall|i: int, j: int|
        #![trigger writers[i], writers[j]]
        0 <= i < writers.len() && 0 <= j < writers.len() && i != j ==> pids[i] != pids[j]
            || seqs[i] != seqs[j]
}

/// Writers of different processes, or of one process with different numbers,
/// never share a temporary file, nor does one write to the target of another.
pub proof fn law_started_writers_apart<E>(writers: Seq<Writer<E>>, pids: Seq<u32>, seqs: Seq<u64>)
    requires
        all_just_started(writers, pids, seqs),
    ensures
        names_apart(writers),
{
    assert forall|i: int, j: int|
        #![trigger writers[i], writers[j]]
        0 <= i < writers.len() && 0 <= j < writers.len() && i != j implies writers[i].temp
        != writers[j].temp by {
        crate::cache::law_temp_name_unique(
            writers[i].path,
            pids[i],
            seqs[i],
            writers[j].path,
            pids[j],
            seqs[j],
        );
    }
    assert forall|i: int, j: int|
        #![trigger writers[i], writers[j]]
        0 <= i < writers.len() && 0 <= j < writers.len() implies writers[i].temp
        != writers[j].path by {
        reveal_strlit(".tmp");
        let temp = writers[i].temp;
        assert(temp.skip(temp.len() - 4) =~= ".tmp"@);
        assert(ends_in_tmp(temp));
    }
}

/// Cached icons, of a target or the fallback, are never taken for temporary
/// files.
pub proof fn law_icon_names_are_no_temporary_names(digest: Seq<u8>)
    ensures
        !ends_in_tmp(crate::cache::digest_name(digest)),
        !ends_in_tmp(crate::cache::fallback_name()),
{
    reveal_strlit(".tmp");
    reveal_strlit(".png");
    reveal_strlit("__fallback__.png");
    let name = crate::cache::digest_name(digest);
    let fallback = crate::cache::fallback_name();
    assert(name.skip(name.len() - 4)[3] == 'g');
    assert(fallback.skip(fallback.len() - 4)[3] == 'g');
    assert(".tmp"@[3] == 'p');
}

/// However the steps of any number of writers follow on each other, a reader of
/// a file that is not a temporary file never sees a part of it: at every moment
/// the file holds what it held before the writers started, or the whole of what
/// one of them writes to it.
pub proof fn law_readers_never_see_a_part<E>(
    trace: Seq<Scene<E>>,
    chosen: Seq<int>,
    pids: Seq<u32>,
    seqs: Seq<u64>,
    moment: int,
    name: Seq<char>,
)
    requires
        0 <= moment < trace.len(),
        all_just_started(trace[0].writers, pids, seqs),
        forall|k: int|
            0 <= k < trace.len() - 1 ==> scene_step(
                #[trigger] trace[k],
                trace[k + 1],
                chosen[k],
            ),
        !is_temp(trace[0].writers, name),
    ensures
        trace[moment].files.dom().contains(name) ==> {
            ||| trace[0].files.dom().contains(name) && trace[moment].files[name]
                == trace[0].files[name]
            ||| is_whole(trace[0].writers, name, trace[moment].files[name])
        },
{
    lemma_trace_invariant(trace, chosen, pids, seqs, moment);
    let first = trace[0].writers;
    let now = trace[moment].writers;
    if trace[moment].files.dom().contains(name) {
        if is_temp(now, name) {
            let k = choose|k: int| 0 <= k < now.len() && #[trigger] now[k].temp == name;
            assert(first[k].temp == name);
        }
        let content = trace[moment].files[name];
        if is_whole(now, name, content) {
            let k = choose|k: int|
                0 <= k < now.len() && #[trigger] now[k].path == name && now[k].bytes == content;
            assert(first[k].path == name);
        }
    }
}

/// The invariant holds at every moment, and the writers keep what they were
/// started with.
proof fn lemma_trace_invariant<E>(
    trace: Seq<Scene<E>>,
    chosen: Seq<int>,
    pids: Seq<u32>,
    seqs: Seq<u64>,
    moment: int,
)
    requires
        0 <= moment < trace.len(),
        all_just_started(trace[0].writers, pids, seqs),
        forall|k: int|
            0 <= k < trace.len() - 1 ==> scene_step(
                #[trigger] trace[k],
                trace[k + 1],
                chosen[k],
            ),
    ensures
        scene_invariant(trace[0].files, trace[moment]),
        trace[moment].writers.len() == trace[0].writers.len(),
        forall|i: int|
            #![trigger trace[moment].writers[i]]
            #![trigger trace[0].writers[i]]
            0 <= i < trace[0].writers.len() ==> trace[moment].writers[i].temp
                == trace[0].writers[i].temp && trace[moment].writers[i].path
                == trace[0].writers[i].path && trace[moment].writers[i].bytes
                == trace[0].writers[i].bytes,
    decreases moment,
{
    if moment == 0 {
        law_started_writers_apart(trace[0].writers, pids, seqs);
    } else {
        lemma_trace_invariant(trace, chosen, pids, seqs, moment - 1);
        let before = trace[moment - 1];
        let after = trace[moment];
        assert(scene_step(before, after, chosen[moment - 1]));
        law_step_keeps_files_whole(trace[0].files, before, after, chosen[moment - 1]);
        assert forall|i: int| 0 <= i < before.writers.len() implies (
        #[trigger] after.writers[i]).temp == before.writers[i].temp && after.writers[i].path
            == before.writers[i].path && after.writers[i].bytes == before.writers[i].bytes by {}
    }
}

} // verus!
