//! The asset responder: from a request to a response, through the sources
//! in their order.
//!
//! The library reads no files. Where it needs to know something of the
//! disk it stops and asks: the host answers the pending question and hands
//! the answer back, until a response or a read failure comes out.
//!
//! A host calls `serve_asset` and, as long as the step is `Step::Ask`,
//! answers the session's `pending` question from the disk and calls
//! `Session::resume` with the answer: `Answer::Flag` to `Pending::IsDir`
//! and `Pending::Exists`, `Answer::Contents` or `Answer::ReadFailed` to
//! `Pending::Read`. No request takes more than five questions, and every
//! question is about a path below the static root.

use crate::bundle::{bundle_file, bundle_files, embedded_key, embedded_path, file_in};
use crate::path::{components_extension, path_components};
use crate::request::{accepts_html, asset_path, requested_asset, wants_html, Request, RequestView};
use crate::resolution::{
    asks_below_root, lemma_first_question_below_root, lemma_next_question_below_root,
};
use crate::resolve::{
    file_extension, index_under, resolved, safe_resolve_file_path, FilePath, ResolvedPath,
};
use crate::response::{
    asset_response, file_response, not_found, not_found_reply, response_for_bytes, Response,
    ResponseView,
};
use vstd::prelude::*;
use vstd::string::StringExecFns;

verus! {

/// What the resolver is set up with, as a specification value.
pub struct ContextView {
    /// The static root on disk, if there is one.
    pub static_root: Option<Seq<char>>,
    /// The files of the embedded bundle, if there is one.
    pub embedded: Option<Map<Seq<char>, Seq<u8>>>,
}

/// What the resolver is set up with once, at startup: the static root on
/// disk and the embedded bundle, each of which may be absent.
#[derive(Debug)]
pub struct AssetContext<'a> {
    /// The directory below which files on disk are served.
    pub static_root: Option<String>,
    /// The bundle of files baked into the program.
    pub embedded: Option<&'a include_dir::Dir<'a>>,
}

impl<'a> View for AssetContext<'a> {
    type V = ContextView;

    open spec fn view(&self) -> ContextView {
        ContextView {
            static_root: match self.static_root {
                Some(root) => Some(root@),
                None => None,
            },
            embedded: match self.embedded {
                Some(bundle) => Some(bundle_files(*bundle)),
                None => None,
            },
        }
    }
}

/// The question that a session waits on, as a specification value.
pub enum PendingView {
    /// Is the path a directory?
    IsDir(FilePath),
    /// Does the path exist?
    Exists(FilePath),
    /// What does the file hold?
    Read(FilePath),
}

/// The question that a session waits on.
#[derive(Debug)]
pub enum Pending {
    /// Is the path a directory?
    IsDir(ResolvedPath),
    /// Does the path exist?
    Exists(ResolvedPath),
    /// What does the file hold?
    Read(ResolvedPath),
}

impl View for Pending {
    type V = PendingView;

    open spec fn view(&self) -> PendingView {
        match self {
            Pending::IsDir(path) => PendingView::IsDir(path@),
            Pending::Exists(path) => PendingView::Exists(path@),
            Pending::Read(path) => PendingView::Read(path@),
        }
    }
}

/// The host's answer to a question, as a specification value.
pub enum AnswerView {
    /// Yes or no.
    Flag(bool),
    /// The bytes of the file.
    Contents(Seq<u8>),
    /// The file could not be read.
    ReadFailed(Seq<char>),
}

/// The host's answer to a question: `Flag` to `IsDir` and `Exists`,
/// `Contents` or `ReadFailed` to `Read`.
#[derive(Debug)]
pub enum Answer {
    /// Yes or no.
    Flag(bool),
    /// The bytes of the file.
    Contents(Vec<u8>),
    /// The file could not be read; the text says why.
    ReadFailed(String),
}

impl View for Answer {
    type V = AnswerView;

    open spec fn view(&self) -> AnswerView {
        match self {
            Answer::Flag(flag) => AnswerView::Flag(*flag),
            Answer::Contents(bytes) => AnswerView::Contents(bytes@),
            Answer::ReadFailed(message) => AnswerView::ReadFailed(message@),
        }
    }
}

/// A request in progress, as a specification value.
pub struct SessionView {
    /// What the resolver is set up with.
    pub context: ContextView,
    /// The asset path that is being looked up.
    pub asset: Seq<char>,
    /// Whether the root document is tried if this asset is found nowhere.
    pub fallback: bool,
    /// The question that the host is to answer.
    pub pending: PendingView,
}

/// A request in progress: it waits for the host to answer `pending`.
#[derive(Debug)]
pub struct Session<'a> {
    /// What the resolver is set up with.
    pub context: &'a AssetContext<'a>,
    /// The asset path that is being looked up.
    pub asset: String,
    /// Whether the root document is tried if this asset is found nowhere.
    pub fallback: bool,
    /// The question that the host is to answer.
    pub pending: Pending,
}

impl<'a> View for Session<'a> {
    type V = SessionView;

    open spec fn view(&self) -> SessionView {
        SessionView {
            context: self.context@,
            asset: self.asset@,
            fallback: self.fallback,
            pending: self.pending@,
        }
    }
}

/// What serving has come to, as a specification value.
pub enum StepView {
    /// The host is to answer the session's question and resume it.
    Ask(SessionView),
    /// The response.
    Reply(ResponseView),
    /// A file that exists could not be read.
    Fail(Seq<char>),
}

/// What serving has come to: a question to the host, the response, or the
/// failure to read a file that exists.
#[derive(Debug)]
pub enum Step<'a> {
    /// The host is to answer the session's question and resume it.
    Ask(Session<'a>),
    /// The response.
    Reply(Response),
    /// A file that exists could not be read; the text says why.
    Fail(String),
}

impl<'a> View for Step<'a> {
    type V = StepView;

    open spec fn view(&self) -> StepView {
        match self {
            Step::Ask(session) => StepView::Ask(session@),
            Step::Reply(response) => StepView::Reply(response@),
            Step::Fail(message) => StepView::Fail(message@),
        }
    }
}

/// The asset path of the root document, which the fallback serves.
pub open spec fn index_asset() -> Seq<char> {
    "/index.html"@
}

/// The response for the file that the bundle holds under `key`, if it holds
/// one; its type goes by the extension of the key.
pub open spec fn embedded_reply(
    embedded: Option<Map<Seq<char>, Seq<u8>>>,
    key: Seq<char>,
) -> Option<ResponseView> {
    match embedded {
        None => None,
        Some(files) => match file_in(files, key) {
            None => None,
            Some(bytes) => Some(asset_response(components_extension(path_components(key)), bytes)),
        },
    }
}

/// The measure by which the two attempts of a request come to an end.
pub open spec fn attempts_left(fallback: bool) -> nat {
    if fallback {
        1
    } else {
        0
    }
}

/// Where the lookup of an asset starts. With a static root the asset path
/// is resolved below it: a path that does not resolve is answered with
/// `404` at once, one that does is asked about on disk. Without a static
/// root the bundle is next.
pub open spec fn attempt_step(context: ContextView, asset: Seq<char>, fallback: bool) -> StepView
    decreases attempts_left(fallback), 1nat,
{
    match context.static_root {
        None => miss_step(context, asset, fallback),
        Some(root) => match resolved(root, asset) {
            None => StepView::Reply(not_found_reply()),
            Some(file) => StepView::Ask(
                SessionView { context, asset, fallback, pending: PendingView::IsDir(file) },
            ),
        },
    }
}

/// Where the disk has no file for the asset. The bundle's file is served
/// if it holds one; else the root document is looked up in the same way,
/// once, where the fallback applies; else the answer is `404`.
pub open spec fn miss_step(context: ContextView, asset: Seq<char>, fallback: bool) -> StepView
    decreases attempts_left(fallback), 0nat,
{
    match embedded_reply(context.embedded, embedded_key(asset)) {
        Some(response) => StepView::Reply(response),
        None => if fallback {
            attempt_step(context, index_asset(), false)
        } else {
            StepView::Reply(not_found_reply())
        },
    }
}

/// Where serving starts: the lookup of the asset that the request asks
/// for, with the fallback to the root document for a request that asks for
/// HTML.
pub open spec fn first_step(context: ContextView, request: RequestView) -> StepView {
    attempt_step(context, asset_path(request.uri), accepts_html(request.accept))
}

/// Where an answer takes a session. A directory is served by its
/// `index.html`; a file that exists is read, and its bytes or the failure
/// to read it end the request; a file that does not exist leads on to the
/// bundle and the fallback. An answer that does not fit the question
/// leaves the session as it is.
pub open spec fn next_step(session: SessionView, answer: AnswerView) -> StepView {
    match (session.pending, answer) {
        (PendingView::IsDir(file), AnswerView::Flag(is_dir)) => StepView::Ask(
            SessionView {
                pending: PendingView::Exists(
                    if is_dir {
                        index_under(file)
                    } else {
                        file
                    },
                ),
                ..session
            },
        ),
        (PendingView::Exists(file), AnswerView::Flag(exists)) => if exists {
            StepView::Ask(SessionView { pending: PendingView::Read(file), ..session })
        } else {
            miss_step(session.context, session.asset, session.fallback)
        },
        (PendingView::Read(file), AnswerView::Contents(bytes)) => StepView::Reply(
            asset_response(file_extension(file), bytes),
        ),
        (PendingView::Read(_), AnswerView::ReadFailed(message)) => StepView::Fail(message),
        _ => StepView::Ask(session),
    }
}

/// Starts the lookup of an asset.
fn serve_attempt<'a>(context: &'a AssetContext<'a>, asset: String, fallback: bool) -> (step: Step<
    'a,
>)
    ensures
        step@ == attempt_step(context@, asset@, fallback),
    decreases attempts_left(fallback), 1nat,
{
    match &context.static_root {
        None => serve_after_miss(context, asset, fallback),
        Some(root) => match safe_resolve_file_path(root.as_str(), asset.as_str()) {
            None => Step::Reply(not_found()),
            Some(file) => Step::Ask(
                Session { context, asset, fallback, pending: Pending::IsDir(file) },
            ),
        },
    }
}

/// Goes on where the disk has no file for the asset.
fn serve_after_miss<'a>(context: &'a AssetContext<'a>, asset: String, fallback: bool) -> (step:
    Step<'a>)
    ensures
        step@ == miss_step(context@, asset@, fallback),
    decreases attempts_left(fallback), 0nat,
{
    match context.embedded {
        Some(bundle) => {
            let key = embedded_path(asset.as_str());
            match bundle_file(bundle, key.as_str()) {
                Some(bytes) => {
                    return Step::Reply(response_for_bytes(key.as_str(), bytes));
                },
                None => {},
            }
        },
        None => {},
    }
    if fallback {
        serve_attempt(context, String::from_str("/index.html"), false)
    } else {
        Step::Reply(not_found())
    }
}

/// Starts serving a request.
///
/// The request's path is parsed and resolved below the static root. A path
/// that would leave the root, or that does not decode, is answered with
/// `404` at once and reaches no other source. Otherwise the step is the
/// first question to the host, or, where no static root is set, what the
/// bundle and the fallback give.
pub fn serve_asset<'a>(context: &'a AssetContext<'a>, request: &Request) -> (step: Step<'a>)
    ensures
        step@ == first_step(context@, request@),
        asks_below_root(step@),
{
    proof {
        lemma_first_question_below_root(context@, request@);
    }
    let asset = requested_asset(request);
    let fallback = wants_html(request);
    serve_attempt(context, asset, fallback)
}

impl<'a> Session<'a> {
    /// Takes the host's answer to the pending question and goes on: to the
    /// next question, the response, or the read failure. A session that
    /// asks about a path below the static root goes on asking below it.
    pub fn resume(self, answer: Answer) -> (step: Step<'a>)
        ensures
            step@ == next_step(self@, answer@),
            asks_below_root(StepView::Ask(self@)) ==> asks_below_root(step@),
    {
        proof {
            if asks_below_root(StepView::Ask(self@)) {
                lemma_next_question_below_root(self@, answer@);
            }
        }
        let Session { context, asset, fallback, pending } = self;
        match pending {
            Pending::IsDir(file) => match answer {
                Answer::Flag(is_dir) => {
                    let target = if is_dir {
                        file.join_index()
                    } else {
                        file
                    };
                    Step::Ask(Session { context, asset, fallback, pending: Pending::Exists(target) })
                },
                _ => Step::Ask(Session { context, asset, fallback, pending: Pending::IsDir(file) }),
            },
            Pending::Exists(file) => match answer {
                Answer::Flag(exists) => if exists {
                    Step::Ask(Session { context, asset, fallback, pending: Pending::Read(file) })
                } else {
                    serve_after_miss(context, asset, fallback)
                },
                _ => Step::Ask(Session { context, asset, fallback, pending: Pending::Exists(file) }),
            },
            Pending::Read(file) => match answer {
                Answer::Contents(bytes) => Step::Reply(file_response(&file, bytes)),
                Answer::ReadFailed(message) => Step::Fail(message),
                Answer::Flag(_) => Step::Ask(
                    Session { context, asset, fallback, pending: Pending::Read(file) },
                ),
            },
        }
    }
}

} // verus!
