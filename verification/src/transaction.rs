//! The protocol by which one file is patched and later restored.
//!
//! The library decides; whoever runs it touches the disk. A run starts with
//! a request, and each reply to a request gives the next request, until the
//! protocol has finished. The file that is patched lies at the original
//! path; its backup lies beside it, at the backup path. A backup at the
//! backup path is the one sign that a file is patched.

use vstd::prelude::*;
use crate::patch::{
    comment_ranges, instrumented, manifest_with_support, modify_rust_file, modify_toml_file,
    stripped, ModifyError,
};

verus! {

/// What is asked of the file system.
#[derive(Debug, PartialEq, Eq)]
pub enum Request {
    /// Whether there is a file at the backup path.
    BackupExists,
    /// The content of the file at the original path.
    ReadOriginal,
    /// To rename the file at the original path to the backup path.
    MoveOriginalToBackup,
    /// To write a file with this content at the original path.
    WriteOriginal(String),
    /// To rename the file at the backup path to the original path.
    MoveBackupToOriginal,
    /// To delete the file at the original path.
    RemoveOriginal,
}

/// What the file system answered.
#[derive(Debug, PartialEq, Eq)]
pub enum Reply {
    /// The answer to [`Request::BackupExists`].
    Exists(bool),
    /// The answer to [`Request::ReadOriginal`], where the file could be read.
    Content(String),
    /// What was asked has been done.
    Done,
    /// What was asked could not be done, and nothing was changed.
    Failed,
}

/// The mathematical value of a [`Request`].
pub enum RequestView {
    BackupExists,
    ReadOriginal,
    MoveOriginalToBackup,
    WriteOriginal(Seq<char>),
    MoveBackupToOriginal,
    RemoveOriginal,
}

/// The mathematical value of a [`Reply`].
pub enum ReplyView {
    Exists(bool),
    Content(Seq<char>),
    Done,
    Failed,
}

impl View for Request {
    type V = RequestView;

    open spec fn view(&self) -> RequestView {
        match self {
            Request::BackupExists => RequestView::BackupExists,
            Request::ReadOriginal => RequestView::ReadOriginal,
            Request::MoveOriginalToBackup => RequestView::MoveOriginalToBackup,
            Request::WriteOriginal(s) => RequestView::WriteOriginal(s@),
            Request::MoveBackupToOriginal => RequestView::MoveBackupToOriginal,
            Request::RemoveOriginal => RequestView::RemoveOriginal,
        }
    }
}

impl View for Reply {
    type V = ReplyView;

    open spec fn view(&self) -> ReplyView {
        match self {
            Reply::Exists(b) => ReplyView::Exists(*b),
            Reply::Content(s) => ReplyView::Content(s@),
            Reply::Done => ReplyView::Done,
            Reply::Failed => ReplyView::Failed,
        }
    }
}

/// How the content of a file is rewritten.
#[derive(Debug)]
pub enum Transform {
    /// As a library source.
    Source,
    /// As a manifest, for the support library at this path.
    Manifest(String),
}

/// Why a file was not patched.
#[derive(Clone, Copy, Debug, PartialEq, Eq, Structural)]
pub enum PatchError {
    /// The file could not be read. Nothing was changed.
    Unreadable,
    /// The content could not be rewritten. Nothing was changed.
    Rejected(ModifyError),
    /// The file could not be moved to the backup path. Nothing was changed.
    NotMoved,
    /// The new content could not be written. The file was moved back.
    NotWritten,
    /// The new content could not be written, and the file could not be
    /// moved back: it lies at the backup path.
    NotRestored,
}

/// How patching one file ended.
#[derive(Clone, Copy, Debug, PartialEq, Eq, Structural)]
pub enum PatchOutcome {
    /// There was a backup already: the file had been patched before, and
    /// was left as it is.
    AlreadyPatched,
    /// The file is patched, and its former content is in the backup.
    Patched,
    Failed(PatchError),
}

/// Where the patching of one file stands.
#[derive(Debug)]
pub enum PatchState {
    /// Asked whether the backup exists.
    Probing,
    /// Asked for the content.
    Reading,
    /// Asked to move the file to the backup path; holds the new content.
    Moving(String),
    /// Asked to write the new content.
    Writing,
    /// The write failed; asked to move the backup back.
    Undoing,
    Finished(PatchOutcome),
}

/// The mathematical value of a [`PatchState`].
pub enum PatchStateView {
    Probing,
    Reading,
    Moving(Seq<char>),
    Writing,
    Undoing,
    Finished(PatchOutcome),
}

impl View for PatchState {
    type V = PatchStateView;

    open spec fn view(&self) -> PatchStateView {
        match self {
            PatchState::Probing => PatchStateView::Probing,
            PatchState::Reading => PatchStateView::Reading,
            PatchState::Moving(s) => PatchStateView::Moving(s@),
            PatchState::Writing => PatchStateView::Writing,
            PatchState::Undoing => PatchStateView::Undoing,
            PatchState::Finished(o) => PatchStateView::Finished(*o),
        }
    }
}

/// How restoring one file ended.
#[derive(Clone, Copy, Debug, PartialEq, Eq, Structural)]
pub enum RestoreOutcome {
    /// There was no backup: the file was never patched, or is restored
    /// already. Nothing was changed.
    NothingToRestore,
    /// The backup is back at the original path.
    Restored,
    /// The backup could not be moved back: it lies at the backup path.
    NotRestored,
}

/// Where the restoring of one file stands.
#[derive(Clone, Copy, Debug, PartialEq, Eq, Structural)]
pub enum RestoreState {
    /// Asked whether the backup exists.
    Probing,
    /// Asked to delete the patched file.
    Removing,
    /// Asked to move the backup back.
    Moving,
    Finished(RestoreOutcome),
}

/// The mathematical value of a [`Transform`].
pub enum TransformView {
    Source,
    Manifest(Seq<char>),
}

impl View for Transform {
    type V = TransformView;

    open spec fn view(&self) -> TransformView {
        match self {
            Transform::Source => TransformView::Source,
            Transform::Manifest(p) => TransformView::Manifest(p@),
        }
    }
}

/// What a transform makes of a content: of a source, the source without
/// its comments and with every macro definition wrapped, where its comments
/// can be stripped; of a manifest, the manifest with the dependency on the
/// support library.
pub open spec fn rewritten(t: TransformView, content: Seq<char>) -> Result<Seq<char>, ModifyError> {
    match t {
        TransformView::Manifest(lib_path) => Ok(manifest_with_support(content, lib_path)),
        TransformView::Source => match stripped(content, comment_ranges(content)) {
            Some(bare) => Ok(instrumented(bare)),
            None => Err(ModifyError::CannotRemoveComment),
        },
    }
}

impl Transform {
    /// Rewrites `content`.
    pub fn apply(&self, content: String) -> (r: Result<String, ModifyError>)
        ensures
            match r {
                Ok(s) => rewritten(self@, content@) == Ok::<Seq<char>, ModifyError>(s@),
                Err(e) => rewritten(self@, content@) == Err::<Seq<char>, ModifyError>(e),
            },
    {
        match self {
            Transform::Source => modify_rust_file(content),
            Transform::Manifest(lib_path) => Ok(modify_toml_file(content, lib_path.as_str())),
        }
    }
}

/// The state after a reply, and the next request if the protocol goes on.
///
/// A file with a backup is left alone. Otherwise the file is read and
/// rewritten, moved to the backup path, and written anew; if it cannot be
/// written, the backup is moved back. Any reply that is not the answer to
/// what was asked counts as a failure of what was asked.
pub open spec fn patch_after(state: PatchStateView, reply: ReplyView, t: TransformView) -> (
    PatchStateView,
    Option<RequestView>,
) {
    match state {
        PatchStateView::Probing => match reply {
            ReplyView::Exists(true) => (
                PatchStateView::Finished(PatchOutcome::AlreadyPatched),
                None,
            ),
            _ => (PatchStateView::Reading, Some(RequestView::ReadOriginal)),
        },
        PatchStateView::Reading => match reply {
            ReplyView::Content(c) => match rewritten(t, c) {
                Ok(n) => (PatchStateView::Moving(n), Some(RequestView::MoveOriginalToBackup)),
                Err(e) => (
                    PatchStateView::Finished(PatchOutcome::Failed(PatchError::Rejected(e))),
                    None,
                ),
            },
            _ => (PatchStateView::Finished(PatchOutcome::Failed(PatchError::Unreadable)), None),
        },
        PatchStateView::Moving(n) => match reply {
            ReplyView::Done => (PatchStateView::Writing, Some(RequestView::WriteOriginal(n))),
            _ => (PatchStateView::Finished(PatchOutcome::Failed(PatchError::NotMoved)), None),
        },
        PatchStateView::Writing => match reply {
            ReplyView::Done => (PatchStateView::Finished(PatchOutcome::Patched), None),
            _ => (PatchStateView::Undoing, Some(RequestView::MoveBackupToOriginal)),
        },
        PatchStateView::Undoing => match reply {
            ReplyView::Done => (
                PatchStateView::Finished(PatchOutcome::Failed(PatchError::NotWritten)),
                None,
            ),
            _ => (PatchStateView::Finished(PatchOutcome::Failed(PatchError::NotRestored)), None),
        },
        PatchStateView::Finished(o) => (PatchStateView::Finished(o), None),
    }
}

/// The state after a reply, and the next request if the protocol goes on.
///
/// A file without a backup is deleted only after its backup was found, so
/// restoring twice loses nothing.
pub open spec fn restore_after(state: RestoreState, reply: ReplyView) -> (
    RestoreState,
    Option<RequestView>,
) {
    match state {
        RestoreState::Probing => match reply {
            ReplyView::Exists(true) => (RestoreState::Removing, Some(RequestView::RemoveOriginal)),
            _ => (RestoreState::Finished(RestoreOutcome::NothingToRestore), None),
        },
        RestoreState::Removing => (RestoreState::Moving, Some(RequestView::MoveBackupToOriginal)),
        RestoreState::Moving => match reply {
            ReplyView::Done => (RestoreState::Finished(RestoreOutcome::Restored), None),
            _ => (RestoreState::Finished(RestoreOutcome::NotRestored), None),
        },
        RestoreState::Finished(o) => (RestoreState::Finished(o), None),
    }
}

/// The request of an optional request, by its value.
pub open spec fn opt_request(r: Option<Request>) -> Option<RequestView> {
    match r {
        Some(q) => Some(q@),
        None => None,
    }
}

/// Starts the patching of a file: the state, and the first request.
pub fn begin_patch() -> (r: (PatchState, Request))
    ensures
        r.0@ == PatchStateView::Probing,
        r.1@ == RequestView::BackupExists,
{
    (PatchState::Probing, Request::BackupExists)
}

/// Takes the reply to the last request of the patching of a file.
pub fn patch_step(state: PatchState, reply: Reply, transform: &Transform) -> (r: (
    PatchState,
    Option<Request>,
))
    ensures
        (r.0@, opt_request(r.1)) == patch_after(state@, reply@, transform@),
{
    match state {
        PatchState::Probing => match reply {
            Reply::Exists(true) => (PatchState::Finished(PatchOutcome::AlreadyPatched), None),
            _ => (PatchState::Reading, Some(Request::ReadOriginal)),
        },
        PatchState::Reading => match reply {
            Reply::Content(c) => match transform.apply(c) {
                Ok(n) => (PatchState::Moving(n), Some(Request::MoveOriginalToBackup)),
                Err(e) => (
                    PatchState::Finished(PatchOutcome::Failed(PatchError::Rejected(e))),
                    None,
                ),
            },
            _ => (PatchState::Finished(PatchOutcome::Failed(PatchError::Unreadable)), None),
        },
        PatchState::Moving(n) => match reply {
            Reply::Done => (PatchState::Writing, Some(Request::WriteOriginal(n))),
            _ => (PatchState::Finished(PatchOutcome::Failed(PatchError::NotMoved)), None),
        },
        PatchState::Writing => match reply {
            Reply::Done => (PatchState::Finished(PatchOutcome::Patched), None),
            _ => (PatchState::Undoing, Some(Request::MoveBackupToOriginal)),
        },
        PatchState::Undoing => match reply {
            Reply::Done => (
                PatchState::Finished(PatchOutcome::Failed(PatchError::NotWritten)),
                None,
            ),
            _ => (PatchState::Finished(PatchOutcome::Failed(PatchError::NotRestored)), None),
        },
        PatchState::Finished(o) => (PatchState::Finished(o), None),
    }
}

/// Starts the restoring of a file: the state, and the first request.
pub fn begin_restore() -> (r: (RestoreState, Request))
    ensures
        r.0 == RestoreState::Probing,
        r.1@ == RequestView::BackupExists,
{
    (RestoreState::Probing, Request::BackupExists)
}

/// Takes the reply to the last request of the restoring of a file.
pub fn restore_step(state: RestoreState, reply: &Reply) -> (r: (RestoreState, Option<Request>))
    ensures
        (r.0, opt_request(r.1)) == restore_after(state, reply@),
{
    match state {
        RestoreState::Probing => match reply {
            Reply::Exists(true) => (RestoreState::Removing, Some(Request::RemoveOriginal)),
            _ => (RestoreState::Finished(RestoreOutcome::NothingToRestore), None),
        },
        RestoreState::Removing => (RestoreState::Moving, Some(Request::MoveBackupToOriginal)),
        RestoreState::Moving => match reply {
            Reply::Done => (RestoreState::Finished(RestoreOutcome::Restored), None),
            _ => (RestoreState::Finished(RestoreOutcome::NotRestored), None),
        },
        RestoreState::Finished(o) => (RestoreState::Finished(o), None),
    }
}

/// The two places of a file on disk, as far as the protocol is concerned:
/// what lies at the original path and what lies at the backup path.
pub struct Files {
    pub original: Option<Seq<char>>,
    pub backup: Option<Seq<char>>,
}

/// What a file system does with a request, and what it answers.
///
/// Where `fault` is set, a request that changes something fails and
/// changes nothing. A file that is not there cannot be read, moved or
/// deleted. Moving a file replaces what lay at the target.
pub open spec fn served(files: Files, request: RequestView, fault: bool) -> (Files, ReplyView) {
    match request {
        RequestView::BackupExists => (files, ReplyView::Exists(files.backup is Some)),
        RequestView::ReadOriginal => match files.original {
            Some(c) => if fault {
                (files, ReplyView::Failed)
            } else {
                (files, ReplyView::Content(c))
            },
            None => (files, ReplyView::Failed),
        },
        RequestView::MoveOriginalToBackup => if fault || files.original is None {
            (files, ReplyView::Failed)
        } else {
            (Files { original: None, backup: files.original }, ReplyView::Done)
        },
        RequestView::WriteOriginal(n) => if fault {
            (files, ReplyView::Failed)
        } else {
            (Files { original: Some(n), backup: files.backup }, ReplyView::Done)
        },
        RequestView::MoveBackupToOriginal => if fault || files.backup is None {
            (files, ReplyView::Failed)
        } else {
            (Files { original: files.backup, backup: None }, ReplyView::Done)
        },
        RequestView::RemoveOriginal => if fault || files.original is None {
            (files, ReplyView::Failed)
        } else {
            (Files { original: None, backup: files.backup }, ReplyView::Done)
        },
    }
}

/// The files and the state after the patching protocol has run from
/// `state` with `request` pending, for as many requests as `faults` is
/// long or until it finished, the request at step `i` failing where
/// `faults[i]` is set.
pub open spec fn patch_run(
    files: Files,
    state: PatchStateView,
    request: RequestView,
    t: TransformView,
    faults: Seq<bool>,
) -> (Files, PatchStateView)
    decreases faults.len(),
{
    if faults.len() == 0 {
        (files, state)
    } else {
        let (files2, reply) = served(files, request, faults[0]);
        let (state2, next) = patch_after(state, reply, t);
        match next {
            Some(r) => patch_run(files2, state2, r, t, faults.skip(1)),
            None => (files2, state2),
        }
    }
}

/// As [`patch_run`], for the restoring protocol.
pub open spec fn restore_run(
    files: Files,
    state: RestoreState,
    request: RequestView,
    faults: Seq<bool>,
) -> (Files, RestoreState)
    decreases faults.len(),
{
    if faults.len() == 0 {
        (files, state)
    } else {
        let (files2, reply) = served(files, request, faults[0]);
        let (state2, next) = restore_after(state, reply);
        match next {
            Some(r) => restore_run(files2, state2, r, faults.skip(1)),
            None => (files2, state2),
        }
    }
}

/// Patching from the start.
pub open spec fn patched(files: Files, t: TransformView, faults: Seq<bool>) -> (
    Files,
    PatchStateView,
) {
    patch_run(files, PatchStateView::Probing, RequestView::BackupExists, t, faults)
}

/// Restoring from the start.
pub open spec fn unpatched(files: Files, faults: Seq<bool>) -> (Files, RestoreState) {
    restore_run(files, RestoreState::Probing, RequestView::BackupExists, faults)
}

/// No request fails, and there are at least `n` of them.
pub open spec fn faultless(faults: Seq<bool>, n: nat) -> bool {
    faults.len() >= n && forall|i: int| 0 <= i < faults.len() ==> !faults[i]
}

/// Wherever the patching of an unpatched file stops, and whatever fails on
/// the way, the content that the file had is on disk: at the original path
/// with no backup beside it, or at the backup path.
pub proof fn lemma_content_never_lost(
    content: Seq<char>,
    t: TransformView,
    faults: Seq<bool>,
)
    ensures
        ({
            let start = Files { original: Some(content), backup: None };
            let end = patched(start, t, faults).0;
            end.backup == Some(content) || (end.backup is None && end.original == Some(content))
        }),
{
    reveal_with_fuel(patch_run, 6);
}

/// Where patching ends in a failure other than a failed restore, the file
/// is as it was; where it ends well, the file holds the rewritten content
/// and the backup the content that it had.
pub proof fn lemma_patch_all_or_nothing(
    content: Seq<char>,
    t: TransformView,
    faults: Seq<bool>,
)
    ensures
        ({
            let start = Files { original: Some(content), backup: None };
            let (end, state) = patched(start, t, faults);
            &&& (state matches PatchStateView::Finished(PatchOutcome::Failed(e)) && e
                != PatchError::NotRestored) ==> end == start
            &&& state == PatchStateView::Finished(PatchOutcome::Patched) ==> (rewritten(t, content)
                matches Ok(n) && end == (Files { original: Some(n), backup: Some(content) }))
            &&& state != PatchStateView::Finished(PatchOutcome::AlreadyPatched)
        }),
{
    reveal_with_fuel(patch_run, 6);
}

/// A file that has a backup is left as it is.
pub proof fn lemma_patch_is_idempotent(files: Files, t: TransformView, faults: Seq<bool>)
    requires
        files.backup is Some,
        faults.len() > 0,
    ensures
        patched(files, t, faults) == (
            files,
            PatchStateView::Finished(PatchOutcome::AlreadyPatched),
        ),
{
    reveal_with_fuel(patch_run, 2);
}

/// Patching a file and then restoring it gives the file as it was, with no
/// backup left, whatever the file holds; restoring it once more changes
/// nothing and fails nothing.
///
/// Where the content can be rewritten, the file is patched in between, and
/// the first restoring puts the backup back. Where it cannot, patching
/// fails with nothing changed, and there is nothing to restore.
pub proof fn lemma_patch_then_unpatch(
    content: Seq<char>,
    t: TransformView,
    faults_patch: Seq<bool>,
    faults_first: Seq<bool>,
    faults_second: Seq<bool>,
)
    requires
        faultless(faults_patch, 4),
        faultless(faults_first, 3),
        faultless(faults_second, 1),
    ensures
        ({
            let start = Files { original: Some(content), backup: None };
            let (mid, state) = patched(start, t, faults_patch);
            let (end, first) = unpatched(mid, faults_first);
            let (again, second) = unpatched(end, faults_second);
            &&& end == start
            &&& again == start
            &&& second == RestoreState::Finished(RestoreOutcome::NothingToRestore)
            &&& match rewritten(t, content) {
                Ok(n) => {
                    &&& state == PatchStateView::Finished(PatchOutcome::Patched)
                    &&& mid == (Files { original: Some(n), backup: Some(content) })
                    &&& first == RestoreState::Finished(RestoreOutcome::Restored)
                },
                Err(e) => {
                    &&& state == PatchStateView::Finished(
                        PatchOutcome::Failed(PatchError::Rejected(e)),
                    )
                    &&& mid == start
                    &&& first == RestoreState::Finished(RestoreOutcome::NothingToRestore)
                },
            }
        }),
{
    reveal_with_fuel(patch_run, 5);
    reveal_with_fuel(restore_run, 4);
    assert(!faults_patch[0] && !faults_patch[1] && !faults_patch[2] && !faults_patch[3]);
    assert(!faults_patch.skip(1)[0]);
    assert(!faults_patch.skip(1).skip(1)[0]);
    assert(!faults_patch.skip(1).skip(1).skip(1)[0]);
    assert(!faults_first[0] && !faults_first[1] && !faults_first[2]);
    assert(!faults_first.skip(1)[0]);
    assert(!faults_first.skip(1).skip(1)[0]);
    assert(!faults_second[0]);
}

/// The files that were patched in a run, so that each can be restored when
/// the run ends, however it ends.
#[derive(Debug)]
pub struct Journal {
    pub patched: Vec<String>,
}

impl Journal {
    /// A journal of no file.
    pub fn new() -> (j: Journal)
        ensures
            j.patched@.len() == 0,
    {
        Journal { patched: Vec::new() }
    }

    /// Records how the patching of the file at `path` ended. Only a file
    /// that was patched in this run is recorded: one that was patched
    /// before belongs to the run that patched it.
    pub fn record(&mut self, path: String, outcome: PatchOutcome)
        ensures
            outcome == PatchOutcome::Patched ==> final(self).patched@ == old(self).patched@.push(
                path,
            ),
            outcome != PatchOutcome::Patched ==> final(self).patched@ == old(self).patched@,
    {
        if matches!(outcome, PatchOutcome::Patched) {
            self.patched.push(path);
        }
    }
}

} // verus!
