//! What an operation exchanges with the world around the vault. An
//! operation never reads a file, prompts or calls the encryption engine
//! itself: it asks for that with a `Request` and is given the `Reply`. Its
//! course is a function of the command, the storage it was started on and
//! the replies given so far.

use crate::error::{DmError, DmErrorView, EngineFailure};
use crate::store::{Change, ChangeView};
use vstd::prelude::*;
use vstd::string::*;

verus! {

/// A subkey of a key in the keyring.
#[derive(Debug, PartialEq, Eq)]
pub struct SubkeyInfo {
    pub id: Option<String>,
    pub can_encrypt: bool,
}

/// A user identity of a key in the keyring.
#[derive(Debug, PartialEq, Eq)]
pub struct UserIdInfo {
    pub name: Option<String>,
    pub email: Option<String>,
}

/// What the keyring tells of a key.
#[derive(Debug, PartialEq, Eq)]
pub struct KeyInfo {
    pub can_encrypt: bool,
    pub can_sign: bool,
    pub can_certify: bool,
    pub can_authenticate: bool,
    pub id: Option<String>,
    pub fingerprint: Option<String>,
    pub subkeys: Vec<SubkeyInfo>,
    pub user_ids: Vec<UserIdInfo>,
}

/// Something an operation needs done outside the vault.
#[derive(Debug, PartialEq, Eq)]
pub enum Request {
    /// Name the current working directory.
    CurrentDir,
    /// Say whether something exists at `path`.
    PathExists { path: String },
    /// Read the file at `path` whole.
    ReadFile { path: String },
    /// Write `content` to the file at `path`, replacing what is there.
    WriteFile { path: String, content: Vec<u8> },
    /// Show `prompt` on the console and read one line.
    Confirm { prompt: String },
    /// Look `key_id` up in the keyring.
    LookupKey { key_id: String },
    /// Encrypt `plaintext` to the key `key_id`, without going online for
    /// the key. Where `armored` is set the ciphertext is to be armored, so
    /// that it can be decrypted later from its own bytes alone.
    Encrypt { key_id: String, plaintext: Vec<u8>, armored: bool },
    /// Decrypt `ciphertext` with whatever private key matches it.
    Decrypt { ciphertext: Vec<u8> },
    /// Write `change` to the storage file, as one statement.
    Persist { change: Change },
}

/// A request, as a mathematical value.
pub enum RequestView {
    CurrentDir,
    PathExists { path: Seq<char> },
    ReadFile { path: Seq<char> },
    WriteFile { path: Seq<char>, content: Seq<u8> },
    Confirm { prompt: Seq<char> },
    LookupKey { key_id: Seq<char> },
    Encrypt { key_id: Seq<char>, plaintext: Seq<u8>, armored: bool },
    Decrypt { ciphertext: Seq<u8> },
    Persist { change: ChangeView },
}

impl View for Request {
    type V = RequestView;

    open spec fn view(&self) -> RequestView {
        match self {
            Request::CurrentDir => RequestView::CurrentDir,
            Request::PathExists { path } => RequestView::PathExists { path: path@ },
            Request::ReadFile { path } => RequestView::ReadFile { path: path@ },
            Request::WriteFile { path, content } => RequestView::WriteFile {
                path: path@,
                content: content@,
            },
            Request::Confirm { prompt } => RequestView::Confirm { prompt: prompt@ },
            Request::LookupKey { key_id } => RequestView::LookupKey { key_id: key_id@ },
            Request::Encrypt { key_id, plaintext, armored } => RequestView::Encrypt {
                key_id: key_id@,
                plaintext: plaintext@,
                armored: *armored,
            },
            Request::Decrypt { ciphertext } => RequestView::Decrypt { ciphertext: ciphertext@ },
            Request::Persist { change } => RequestView::Persist { change: change@ },
        }
    }
}

/// The answer to a request. Where a call failed, the reply carries the
/// cause as the outside reported it.
#[derive(Debug, PartialEq, Eq)]
pub enum Reply {
    /// To `CurrentDir`.
    CurrentDir(Result<String, String>),
    /// To `PathExists`.
    PathExists(bool),
    /// To `ReadFile`.
    FileContent(Result<Vec<u8>, String>),
    /// To `WriteFile`.
    Written(Result<(), String>),
    /// To `Confirm`: the line that was read.
    Answer(Result<String, String>),
    /// To `LookupKey`: the key, or why the keyring has no such key.
    Key(Result<KeyInfo, EngineFailure>),
    /// To `Encrypt`.
    Ciphertext(Result<Vec<u8>, EngineFailure>),
    /// To `Decrypt`.
    Plaintext(Result<Vec<u8>, EngineFailure>),
    /// To `Persist`.
    Persisted(Result<(), String>),
    /// To any request to the engine: it could not be set up for the call.
    EngineUnavailable(EngineFailure),
}

/// The reply at position `at`, if that many replies were given.
pub open spec fn reply_at(replies: Seq<Reply>, at: int) -> Option<Reply> {
    if 0 <= at < replies.len() {
        Some(replies[at])
    } else {
        None
    }
}

/// Something for the console.
#[derive(Debug, PartialEq, Eq)]
pub enum Output {
    /// A line for standard output.
    Stdout(String),
    /// A line for the error stream.
    Stderr(String),
    /// A decrypted secret, to be shown as text on standard output.
    Secret(Vec<u8>),
}

/// Console output, as a mathematical value.
pub enum OutputView {
    Stdout(Seq<char>),
    Stderr(Seq<char>),
    Secret(Seq<u8>),
}

impl View for Output {
    type V = OutputView;

    open spec fn view(&self) -> OutputView {
        match self {
            Output::Stdout(text) => OutputView::Stdout(text@),
            Output::Stderr(text) => OutputView::Stderr(text@),
            Output::Secret(bytes) => OutputView::Secret(bytes@),
        }
    }
}

/// A sequence of console output, as a mathematical value.
pub open spec fn shown(output: Seq<Output>) -> Seq<OutputView> {
    Seq::new(output.len(), |i: int| output[i]@)
}

/// Adds a line for standard output.
pub fn say(output: &mut Vec<Output>, text: String)
    ensures
        shown(final(output)@) == shown(old(output)@).push(OutputView::Stdout(text@)),
{
    let ghost line = OutputView::Stdout(text@);
    output.push(Output::Stdout(text));
    assert(shown(output@) =~= shown(old(output)@).push(line));
}

/// Adds a line for the error stream.
pub fn warn(output: &mut Vec<Output>, text: String)
    ensures
        shown(final(output)@) == shown(old(output)@).push(OutputView::Stderr(text@)),
{
    let ghost line = OutputView::Stderr(text@);
    output.push(Output::Stderr(text));
    assert(shown(output@) =~= shown(old(output)@).push(line));
}

/// Adds all of `more` to `output`.
pub fn extend(output: &mut Vec<Output>, more: Vec<Output>)
    ensures
        shown(final(output)@) == shown(old(output)@) + shown(more@),
{
    let mut more = more;
    let ghost added = more@;
    output.append(&mut more);
    assert(shown(output@) =~= shown(old(output)@) + shown(added));
}

/// How an operation ended: what it has for the console, and whether it
/// succeeded.
#[derive(Debug, PartialEq, Eq)]
pub struct Completion {
    pub output: Vec<Output>,
    pub result: Result<(), DmError>,
}

/// A completion, as a mathematical value.
pub struct CompletionView {
    pub output: Seq<OutputView>,
    pub result: Result<(), DmErrorView>,
}

impl View for Completion {
    type V = CompletionView;

    open spec fn view(&self) -> CompletionView {
        CompletionView {
            output: shown(self.output@),
            result: match self.result {
                Ok(_) => Ok(()),
                Err(e) => Err(e@),
            },
        }
    }
}

/// Where an operation stands after the replies given so far: it needs the
/// answer to one more request, or it is done.
#[derive(Debug, PartialEq, Eq)]
pub enum Step {
    Ask(Request),
    Done(Completion),
}

/// A step, as a mathematical value.
pub enum StepView {
    Ask(RequestView),
    Done(CompletionView),
}

impl View for Step {
    type V = StepView;

    open spec fn view(&self) -> StepView {
        match self {
            Step::Ask(request) => StepView::Ask(request@),
            Step::Done(completion) => StepView::Done(completion@),
        }
    }
}

impl StepView {
    /// The step of an operation that failed with `error` after `output`.
    pub open spec fn failed(output: Seq<OutputView>, error: DmErrorView) -> StepView {
        StepView::Done(CompletionView { output, result: Err(error) })
    }

    /// The step of an operation that succeeded after `output`.
    pub open spec fn succeeded(output: Seq<OutputView>) -> StepView {
        StepView::Done(CompletionView { output, result: Ok(()) })
    }
}

/// The step of an operation that failed with `error` after `output`.
pub fn failed(output: Vec<Output>, error: DmError) -> (step: Step)
    ensures
        step@ == StepView::failed(shown(output@), error@),
{
    Step::Done(Completion { output, result: Err(error) })
}

/// The step of an operation that succeeded after `output`.
pub fn succeeded(output: Vec<Output>) -> (step: Step)
    ensures
        step@ == StepView::succeeded(shown(output@)),
{
    Step::Done(Completion { output, result: Ok(()) })
}

/// Where a part of an operation stands: it needs the answer to one more
/// request, it failed, or it has its result. The last two come with what
/// the part has for the console.
pub enum Asked<T> {
    Ask(Request),
    Failed(Vec<Output>, DmError),
    Ready(Vec<Output>, T),
}

/// The state of a part of an operation, as a mathematical value.
pub enum AskedView<T> {
    Ask(RequestView),
    Failed(Seq<OutputView>, DmErrorView),
    Ready(Seq<OutputView>, T),
}

impl<T: View> View for Asked<T> {
    type V = AskedView<T::V>;

    open spec fn view(&self) -> AskedView<T::V> {
        match self {
            Asked::Ask(request) => AskedView::Ask(request@),
            Asked::Failed(output, error) => AskedView::Failed(shown(output@), error@),
            Asked::Ready(output, value) => AskedView::Ready(shown(output@), value@),
        }
    }
}

} // verus!
