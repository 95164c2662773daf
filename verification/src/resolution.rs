//! The resolution order, stated once over a model of the disk, and the
//! proof that the responder's questions and answers come to it.

use crate::bundle::embedded_key;
use crate::request::{accepts_html, asset_path, pathname, RequestView};
use crate::resolve::{
    below, file_extension, index_under, lemma_index_below_root, lemma_resolved_below_root, resolved,
    FilePath,
};
use crate::response::{asset_response, common_headers, not_found_reply, ResponseView};
use crate::serve::{
    attempt_step, attempts_left, embedded_reply, first_step, index_asset, miss_step, next_step,
    AnswerView, ContextView, PendingView, SessionView, StepView,
};
use vstd::prelude::*;

verus! {

/// What the host would answer about the disk: which paths are directories,
/// which exist, and what reading each gives, the bytes or the reason of the
/// failure.
pub struct Disk {
    /// Whether the path is a directory.
    pub is_dir: spec_fn(FilePath) -> bool,
    /// Whether the path exists.
    pub exists: spec_fn(FilePath) -> bool,
    /// What reading the path gives.
    pub read: spec_fn(FilePath) -> Result<Seq<u8>, Seq<char>>,
}

/// How serving a request ends.
pub enum Outcome {
    /// With a response.
    Reply(ResponseView),
    /// With the failure to read a file that exists.
    Fail(Seq<char>),
}

/// What the disk holds for an asset.
pub enum DiskLookup {
    /// The path would leave the root or does not decode.
    Rejected,
    /// The file to serve.
    Found(FilePath),
    /// No static root, or no such file below it.
    Missing,
}

/// Reading `file` and answering with its bytes under the type of its
/// extension; a failed read is the outcome as it is.
pub open spec fn read_outcome(file: FilePath, disk: Disk) -> Outcome {
    match (disk.read)(file) {
        Ok(bytes) => Outcome::Reply(asset_response(file_extension(file), bytes)),
        Err(message) => Outcome::Fail(message),
    }
}

/// The file on disk for an asset path: the path resolved below the static
/// root, `index.html` in it where it is a directory, if that exists.
pub open spec fn disk_lookup(root: Option<Seq<char>>, asset: Seq<char>, disk: Disk) -> DiskLookup {
    match root {
        None => DiskLookup::Missing,
        Some(root) => match resolved(root, asset) {
            None => DiskLookup::Rejected,
            Some(file) => {
                let target = if (disk.is_dir)(file) {
                    index_under(file)
                } else {
                    file
                };
                if (disk.exists)(target) {
                    DiskLookup::Found(target)
                } else {
                    DiskLookup::Missing
                }
            },
        },
    }
}

/// What one lookup of an asset comes to: `404` for a path that does not
/// resolve below the static root, the file on disk, the bundle's file, or
/// `None` where no source holds the asset.
pub open spec fn lookup_outcome(context: ContextView, asset: Seq<char>, disk: Disk) -> Option<
    Outcome,
> {
    match disk_lookup(context.static_root, asset, disk) {
        DiskLookup::Rejected => Some(Outcome::Reply(not_found_reply())),
        DiskLookup::Found(file) => Some(read_outcome(file, disk)),
        DiskLookup::Missing => match embedded_reply(context.embedded, embedded_key(asset)) {
            Some(response) => Some(Outcome::Reply(response)),
            None => None,
        },
    }
}

/// How a request is served, given what the disk holds. The asset is looked
/// up on disk and then in the bundle. Where neither holds it and the
/// request asks for HTML, the root document is looked up in the same way.
/// All else gets `404`.
pub open spec fn served(context: ContextView, request: RequestView, disk: Disk) -> Outcome {
    match lookup_outcome(context, asset_path(request.uri), disk) {
        Some(outcome) => outcome,
        None => if accepts_html(request.accept) {
            match lookup_outcome(context, index_asset(), disk) {
                Some(outcome) => outcome,
                None => Outcome::Reply(not_found_reply()),
            }
        } else {
            Outcome::Reply(not_found_reply())
        },
    }
}

/// The answer that a host gives to a question when it reads `disk`.
pub open spec fn answer_from(disk: Disk, pending: PendingView) -> AnswerView {
    match pending {
        PendingView::IsDir(path) => AnswerView::Flag((disk.is_dir)(path)),
        PendingView::Exists(path) => AnswerView::Flag((disk.exists)(path)),
        PendingView::Read(path) => match (disk.read)(path) {
            Ok(bytes) => AnswerView::Contents(bytes),
            Err(message) => AnswerView::ReadFailed(message),
        },
    }
}

/// Where a step ends when the host answers each question from `disk`, for
/// at most `rounds` questions; `None` where more would be asked.
pub open spec fn run(step: StepView, disk: Disk, rounds: nat) -> Option<Outcome>
    decreases rounds,
{
    match step {
        StepView::Reply(response) => Some(Outcome::Reply(response)),
        StepView::Fail(message) => Some(Outcome::Fail(message)),
        StepView::Ask(session) => if rounds == 0 {
            None
        } else {
            run(next_step(session, answer_from(disk, session.pending)), disk, (rounds - 1) as nat)
        },
    }
}

/// What is left to try once the disk has no file for the asset: the
/// bundle, then the root document where the fallback applies.
pub open spec fn miss_outcome(
    context: ContextView,
    asset: Seq<char>,
    fallback: bool,
    disk: Disk,
) -> Outcome {
    match embedded_reply(context.embedded, embedded_key(asset)) {
        Some(response) => Outcome::Reply(response),
        None => if fallback {
            match lookup_outcome(context, index_asset(), disk) {
                Some(outcome) => outcome,
                None => Outcome::Reply(not_found_reply()),
            }
        } else {
            Outcome::Reply(not_found_reply())
        },
    }
}

/// The number of questions that a lookup may take: three for the asset
/// itself; with the fallback, two that find it missing and three more for
/// the root document.
pub open spec fn questions(fallback: bool) -> nat {
    if fallback {
        5
    } else {
        3
    }
}

/// From a miss on disk, a run ends as `miss_outcome` says.
proof fn lemma_run_miss(
    context: ContextView,
    asset: Seq<char>,
    fallback: bool,
    disk: Disk,
    rounds: nat,
)
    requires
        rounds + 2 >= questions(fallback),
    ensures
        run(miss_step(context, asset, fallback), disk, rounds) == Some(
            miss_outcome(context, asset, fallback, disk),
        ),
    decreases attempts_left(fallback), 0nat,
{
    if fallback && embedded_reply(context.embedded, embedded_key(asset)) is None {
        lemma_run_attempt(context, index_asset(), false, disk, rounds);
    }
}

/// A lookup that is run against a disk ends with what the disk or the
/// bundle holds for the asset, or as `miss_outcome` says.
proof fn lemma_run_attempt(
    context: ContextView,
    asset: Seq<char>,
    fallback: bool,
    disk: Disk,
    rounds: nat,
)
    requires
        rounds >= questions(fallback),
    ensures
        run(attempt_step(context, asset, fallback), disk, rounds) == Some(
            match disk_lookup(context.static_root, asset, disk) {
                DiskLookup::Rejected => Outcome::Reply(not_found_reply()),
                DiskLookup::Found(file) => read_outcome(file, disk),
                DiskLookup::Missing => miss_outcome(context, asset, fallback, disk),
            },
        ),
    decreases attempts_left(fallback), 1nat,
{
    reveal_with_fuel(run, 4);
    match context.static_root {
        None => {
            lemma_run_miss(context, asset, fallback, disk, rounds);
        },
        Some(root) => match resolved(root, asset) {
            None => {},
            Some(file) => {
                let target = if (disk.is_dir)(file) {
                    index_under(file)
                } else {
                    file
                };
                if !(disk.exists)(target) {
                    lemma_run_miss(context, asset, fallback, disk, (rounds - 2) as nat);
                }
            },
        },
    }
}

/// The responder serves what the resolution order says: whatever the disk
/// holds, a host that answers each question from it gets the outcome
/// `served`, after five questions at most.
pub proof fn lemma_run_serves(context: ContextView, request: RequestView, disk: Disk, rounds: nat)
    requires
        rounds >= 5,
    ensures
        run(first_step(context, request), disk, rounds) == Some(served(context, request, disk)),
{
    lemma_run_attempt(
        context,
        asset_path(request.uri),
        accepts_html(request.accept),
        disk,
        rounds,
    );
}

/// A path that would leave the static root, or that does not decode, is
/// answered with `404` whatever the disk and the bundle hold: it reaches no
/// source.
pub proof fn lemma_rejected_path_not_found(context: ContextView, request: RequestView, disk: Disk)
    requires
        context.static_root is Some,
        resolved(context.static_root->0, asset_path(request.uri)) is None,
    ensures
        served(context, request, disk) == Outcome::Reply(not_found_reply()),
        first_step(context, request) == StepView::Reply(not_found_reply()),
{
}

/// The path that a question is about.
pub open spec fn asked_path(pending: PendingView) -> FilePath {
    match pending {
        PendingView::IsDir(path) => path,
        PendingView::Exists(path) => path,
        PendingView::Read(path) => path,
    }
}

/// Whether a step asks nothing of the disk but about a path below the
/// static root.
pub open spec fn asks_below_root(step: StepView) -> bool {
    step matches StepView::Ask(session) ==> {
        &&& session.context.static_root is Some
        &&& below(asked_path(session.pending), session.context.static_root->0)
    }
}

/// The first question, if one is asked, is about a path below the static
/// root.
pub proof fn lemma_first_question_below_root(context: ContextView, request: RequestView)
    ensures
        asks_below_root(first_step(context, request)),
{
    lemma_attempt_below_root(context, asset_path(request.uri), accepts_html(request.accept));
}

/// A lookup starts with a question about a path below the static root, if
/// it starts with a question.
proof fn lemma_attempt_below_root(context: ContextView, asset: Seq<char>, fallback: bool)
    ensures
        asks_below_root(attempt_step(context, asset, fallback)),
        asks_below_root(miss_step(context, asset, fallback)),
    decreases attempts_left(fallback),
{
    if fallback {
        lemma_attempt_below_root(context, index_asset(), false);
    }
    match context.static_root {
        Some(root) => {
            if resolved(root, asset) is Some {
                lemma_resolved_below_root(root, asset);
            }
        },
        None => {},
    }
}

/// Questions stay below the static root: after a question about a path
/// below it, whatever the host answers, the next question is about a path
/// below it too. The host is never asked to look at or to read anything
/// outside the root.
pub proof fn lemma_next_question_below_root(session: SessionView, answer: AnswerView)
    requires
        asks_below_root(StepView::Ask(session)),
    ensures
        asks_below_root(next_step(session, answer)),
{
    lemma_index_below_root(asked_path(session.pending), session.context.static_root->0);
    lemma_attempt_below_root(session.context, session.asset, session.fallback);
}

/// The editor landing path is an alias of the root: a request for
/// `/editor` is served as a request for `/` with the same `Accept` header
/// is.
pub proof fn lemma_editor_is_root(
    context: ContextView,
    editor: RequestView,
    root: RequestView,
    disk: Disk,
)
    requires
        pathname(editor.uri) == "/editor"@,
        pathname(root.uri) == "/"@,
        editor.accept == root.accept,
    ensures
        asset_path(editor.uri) == asset_path(root.uri),
        first_step(context, editor) == first_step(context, root),
        served(context, editor, disk) == served(context, root, disk),
{
}

/// Every response carries the common headers first and its `Content-Type`
/// after them, and is either a `200` or the `404` text.
pub proof fn lemma_replies_are_well_formed(context: ContextView, request: RequestView, disk: Disk)
    ensures
        served(context, request, disk) matches Outcome::Reply(response) ==> {
            &&& response.headers.len() == 4
            &&& response.headers.take(3) == common_headers()
            &&& response.headers[3].0 == "Content-Type"@
            &&& (response.status == 200 || response == not_found_reply())
        },
{
}

} // verus!
