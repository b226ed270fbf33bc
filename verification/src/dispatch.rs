//! The dispatcher: how a file system verb proceeds from the root it was
//! given to the reply that the host receives.
//!
//! The engine that holds the directory tree does its work through the
//! host's block store, which only the host can drive.  The dispatcher
//! therefore never calls the engine.  It is a state machine: a [`Call`] is
//! started for a verb, says in a [`Step`] what the engine is to do next,
//! takes what the engine answered as an [`EngineResult`], and says the next
//! step, until the step is the reply.  Whoever drives the call carries the
//! steps out and keeps nothing else: all that is decided is decided here.
//!
//! Every verb but `init` takes the root of a snapshot and leaves it as it
//! was.  A verb that changes the tree replies with the root of a new
//! snapshot; a call that fails replies with no root at all.

use vstd::prelude::*;
use vstd::slice::slice_to_vec;
use crate::cid::{
    cid_binary_form, cid_result_model, parse_cid, parsed_cid, parsed_cid_text, serialize_cid,
    serialized_cid, text_result_model, ContentId,
};
use crate::error::{AdapterError, ErrorModel};
use crate::listing::{encode_listing, entries_model, listing_text, EntryModel, ListingEntry};
use crate::path::{names_model, parse_path, split_path};

verus! {

/// A verb on the directory tree, with its arguments as the host gave them.
#[derive(Debug, PartialEq, Eq)]
pub enum Operation {
    WriteFile { path: String, content: Vec<u8>, modification_time_seconds: i64 },
    ReadFile { path: String },
    Mkdir { path: String },
    Mv { source: String, target: String },
    Cp { source: String, target: String },
    Rm { path: String },
    Ls { path: String },
}

/// The mathematical value of an [`Operation`].
pub enum OperationModel {
    WriteFile { path: Seq<char>, content: Seq<u8>, modification_time_seconds: i64 },
    ReadFile { path: Seq<char> },
    Mkdir { path: Seq<char> },
    Mv { source: Seq<char>, target: Seq<char> },
    Cp { source: Seq<char>, target: Seq<char> },
    Rm { path: Seq<char> },
    Ls { path: Seq<char> },
}

impl View for Operation {
    type V = OperationModel;

    open spec fn view(&self) -> OperationModel {
        match self {
            Operation::WriteFile { path, content, modification_time_seconds } => {
                OperationModel::WriteFile {
                    path: path@,
                    content: content@,
                    modification_time_seconds: *modification_time_seconds,
                }
            },
            Operation::ReadFile { path } => OperationModel::ReadFile { path: path@ },
            Operation::Mkdir { path } => OperationModel::Mkdir { path: path@ },
            Operation::Mv { source, target } => OperationModel::Mv {
                source: source@,
                target: target@,
            },
            Operation::Cp { source, target } => OperationModel::Cp {
                source: source@,
                target: target@,
            },
            Operation::Rm { path } => OperationModel::Rm { path: path@ },
            Operation::Ls { path } => OperationModel::Ls { path: path@ },
        }
    }
}

/// What the engine is asked to do.
#[derive(Debug, PartialEq, Eq)]
pub enum EngineCall {
    /// Create an empty tree under the key `wnfs_key`.
    Init { wnfs_key: Vec<u8> },
    /// Load the snapshot at `root` with the key `wnfs_key`.
    LoadWithKey { root: ContentId, wnfs_key: Vec<u8> },
    /// Load the snapshot at `root`.
    Reload { root: ContentId },
    WriteFile { path: Vec<String>, content: Vec<u8>, modification_time_seconds: i64 },
    ReadFile { path: Vec<String> },
    Mkdir { path: Vec<String> },
    Mv { source: Vec<String>, target: Vec<String> },
    Cp { source: Vec<String>, target: Vec<String> },
    Rm { path: Vec<String> },
    Ls { path: Vec<String> },
}

/// The mathematical value of an [`EngineCall`].
pub enum EngineCallModel {
    Init { wnfs_key: Seq<u8> },
    LoadWithKey { root: Seq<u8>, wnfs_key: Seq<u8> },
    Reload { root: Seq<u8> },
    WriteFile { path: Seq<Seq<char>>, content: Seq<u8>, modification_time_seconds: i64 },
    ReadFile { path: Seq<Seq<char>> },
    Mkdir { path: Seq<Seq<char>> },
    Mv { source: Seq<Seq<char>>, target: Seq<Seq<char>> },
    Cp { source: Seq<Seq<char>>, target: Seq<Seq<char>> },
    Rm { path: Seq<Seq<char>> },
    Ls { path: Seq<Seq<char>> },
}

impl View for EngineCall {
    type V = EngineCallModel;

    open spec fn view(&self) -> EngineCallModel {
        match self {
            EngineCall::Init { wnfs_key } => EngineCallModel::Init { wnfs_key: wnfs_key@ },
            EngineCall::LoadWithKey { root, wnfs_key } => EngineCallModel::LoadWithKey {
                root: root@,
                wnfs_key: wnfs_key@,
            },
            EngineCall::Reload { root } => EngineCallModel::Reload { root: root@ },
            EngineCall::WriteFile { path, content, modification_time_seconds } => {
                EngineCallModel::WriteFile {
                    path: names_model(path@),
                    content: content@,
                    modification_time_seconds: *modification_time_seconds,
                }
            },
            EngineCall::ReadFile { path } => EngineCallModel::ReadFile { path: names_model(path@) },
            EngineCall::Mkdir { path } => EngineCallModel::Mkdir { path: names_model(path@) },
            EngineCall::Mv { source, target } => EngineCallModel::Mv {
                source: names_model(source@),
                target: names_model(target@),
            },
            EngineCall::Cp { source, target } => EngineCallModel::Cp {
                source: names_model(source@),
                target: names_model(target@),
            },
            EngineCall::Rm { path } => EngineCallModel::Rm { path: names_model(path@) },
            EngineCall::Ls { path } => EngineCallModel::Ls { path: names_model(path@) },
        }
    }
}

/// What the engine answered to an [`EngineCall`].
#[derive(Debug, PartialEq, Eq)]
pub enum EngineResult {
    /// The snapshot is loaded.
    Ready,
    /// The tree was changed, or created; this is the root of the new
    /// snapshot.
    Root(ContentId),
    /// The content of the file that was read.
    Content(Vec<u8>),
    /// The entries of the directory that was listed.
    Entries(Vec<ListingEntry>),
    /// The engine failed, with this message.
    Failure(String),
    /// The engine answered, but with something that cannot be taken across
    /// the boundary; the message says what.
    Undecodable(String),
}

/// The mathematical value of an [`EngineResult`].
pub enum EngineResultModel {
    Ready,
    Root(Seq<u8>),
    Content(Seq<u8>),
    Entries(Seq<EntryModel>),
    Failure(Seq<char>),
    Undecodable(Seq<char>),
}

impl View for EngineResult {
    type V = EngineResultModel;

    open spec fn view(&self) -> EngineResultModel {
        match self {
            EngineResult::Ready => EngineResultModel::Ready,
            EngineResult::Root(root) => EngineResultModel::Root(root@),
            EngineResult::Content(content) => EngineResultModel::Content(content@),
            EngineResult::Entries(entries) => EngineResultModel::Entries(entries_model(entries@)),
            EngineResult::Failure(message) => EngineResultModel::Failure(message@),
            EngineResult::Undecodable(message) => EngineResultModel::Undecodable(message@),
        }
    }
}

/// The message of the failure that a root which is no identifier stands for.
pub open spec fn invalid_root_message() -> Seq<char> {
    "Engine returned an invalid CID"@
}

/// The answer that a root with the binary form `bytes` stands for.
pub open spec fn root_result_of(bytes: Seq<u8>) -> EngineResultModel {
    match parsed_cid(bytes) {
        Ok(root) => EngineResultModel::Root(root),
        Err(_) => EngineResultModel::Undecodable(invalid_root_message()),
    }
}

impl EngineResult {
    /// The answer of an engine that made a root, given what reading the
    /// root's binary form yielded.
    pub fn root_from_parsed(parsed: Result<ContentId, AdapterError>) -> (result: EngineResult)
        ensures
            result@ == (match parsed {
                Ok(root) => EngineResultModel::Root(root@),
                Err(_) => EngineResultModel::Undecodable(invalid_root_message()),
            }),
    {
        match parsed {
            Ok(root) => EngineResult::Root(root),
            Err(_) => EngineResult::Undecodable("Engine returned an invalid CID".to_owned()),
        }
    }

    /// The answer of an engine that made the root with the binary form
    /// `bytes`.
    pub fn root_from_bytes(bytes: &[u8]) -> (result: EngineResult)
        ensures
            result@ == root_result_of(bytes@),
    {
        Self::root_from_parsed(parse_cid(bytes))
    }
}

/// What the host receives from a call that succeeded.
#[derive(Debug, PartialEq, Eq)]
pub enum Reply {
    /// The root of the snapshot that the verb made, and its text.
    Root { cid: ContentId, text: String },
    /// The content of the file that was read.
    Content(Vec<u8>),
    /// The directory that was listed, as the bytes of a listing.
    Listing(Vec<u8>),
    /// The snapshot that was loaded with a key: its root as text, once as
    /// the forest and once as the root directory.
    Loaded { forest_cid: String, root_dir_cid: String },
}

/// The mathematical value of a [`Reply`].
pub enum ReplyModel {
    Root { cid: Seq<u8>, text: Seq<char> },
    Content(Seq<u8>),
    Listing(Seq<u8>),
    Loaded { forest_cid: Seq<char>, root_dir_cid: Seq<char> },
}

impl View for Reply {
    type V = ReplyModel;

    open spec fn view(&self) -> ReplyModel {
        match self {
            Reply::Root { cid, text } => ReplyModel::Root { cid: cid@, text: text@ },
            Reply::Content(content) => ReplyModel::Content(content@),
            Reply::Listing(bytes) => ReplyModel::Listing(bytes@),
            Reply::Loaded { forest_cid, root_dir_cid } => ReplyModel::Loaded {
                forest_cid: forest_cid@,
                root_dir_cid: root_dir_cid@,
            },
        }
    }
}

/// What is to happen next in a call.
#[derive(Debug, PartialEq, Eq)]
pub enum Step {
    /// The engine is to carry out this call; its answer goes to
    /// [`Call::advance`].
    Ask(EngineCall),
    /// The call is over, and this is what the host receives.
    Finish(Result<Reply, AdapterError>),
}

/// The mathematical value of a [`Step`].
pub enum StepModel {
    Ask(EngineCallModel),
    Finish(Result<ReplyModel, ErrorModel>),
}

impl View for Step {
    type V = StepModel;

    open spec fn view(&self) -> StepModel {
        match self {
            Step::Ask(call) => StepModel::Ask(call@),
            Step::Finish(Ok(reply)) => StepModel::Finish(Ok(reply@)),
            Step::Finish(Err(error)) => StepModel::Finish(Err(error@)),
        }
    }
}

/// The kind of answer that a verb is waiting for.
#[derive(Clone, Copy, Debug, PartialEq, Eq, Structural)]
pub enum Expectation {
    Root,
    Content,
    Entries,
}

#[derive(Debug)]
enum Phase {
    Initializing,
    Loading { root: ContentId },
    Reloading { operation: Operation },
    Working { expects: Expectation },
    Finished,
}

/// Where a call stands.
pub enum CallModel {
    /// The engine was asked to create a tree.
    Initializing,
    /// The engine was asked to load the snapshot at `root` with a key.
    Loading { root: Seq<u8> },
    /// The engine was asked to load the snapshot on which `operation` is to
    /// work.
    Reloading { operation: OperationModel },
    /// The engine was asked to carry out the verb.
    Working { expects: Expectation },
    /// The reply has been given.
    Finished,
}

/// One call of a verb, from the root that the host gave to the reply that
/// it receives.
#[derive(Debug)]
pub struct Call {
    phase: Phase,
}

impl View for Call {
    type V = CallModel;

    closed spec fn view(&self) -> CallModel {
        match self.phase {
            Phase::Initializing => CallModel::Initializing,
            Phase::Loading { root } => CallModel::Loading { root: root@ },
            Phase::Reloading { operation } => CallModel::Reloading { operation: operation@ },
            Phase::Working { expects } => CallModel::Working { expects },
            Phase::Finished => CallModel::Finished,
        }
    }
}

/// The message of the failure that an answer of the wrong kind stands for.
pub open spec fn unexpected_result_message() -> Seq<char> {
    "Unexpected engine result"@
}

/// The call to the engine that carries out `operation`: the same verb, with
/// each path cut into its names.
pub open spec fn engine_call_of(operation: OperationModel) -> EngineCallModel {
    match operation {
        OperationModel::WriteFile { path, content, modification_time_seconds } => {
            EngineCallModel::WriteFile {
                path: split_path(path),
                content,
                modification_time_seconds,
            }
        },
        OperationModel::ReadFile { path } => EngineCallModel::ReadFile { path: split_path(path) },
        OperationModel::Mkdir { path } => EngineCallModel::Mkdir { path: split_path(path) },
        OperationModel::Mv { source, target } => EngineCallModel::Mv {
            source: split_path(source),
            target: split_path(target),
        },
        OperationModel::Cp { source, target } => EngineCallModel::Cp {
            source: split_path(source),
            target: split_path(target),
        },
        OperationModel::Rm { path } => EngineCallModel::Rm { path: split_path(path) },
        OperationModel::Ls { path } => EngineCallModel::Ls { path: split_path(path) },
    }
}

/// The kind of answer that `operation` waits for: the content for a read,
/// the entries for a listing, and a new root for every verb that changes
/// the tree.
pub open spec fn expectation_of(operation: OperationModel) -> Expectation {
    match operation {
        OperationModel::ReadFile { .. } => Expectation::Content,
        OperationModel::Ls { .. } => Expectation::Entries,
        _ => Expectation::Root,
    }
}

/// How a call for `operation` starts, given what reading the root yielded:
/// with the loading of the snapshot, or, if the root could not be read,
/// with the end of the call.
pub open spec fn start_model(root: Result<Seq<u8>, ErrorModel>, operation: OperationModel) -> (
    CallModel,
    StepModel,
) {
    match root {
        Ok(root) => (
            CallModel::Reloading { operation },
            StepModel::Ask(EngineCallModel::Reload { root }),
        ),
        Err(error) => (CallModel::Finished, StepModel::Finish(Err(error))),
    }
}

/// How a call that loads a snapshot with a key starts.
pub open spec fn start_load_model(root: Result<Seq<u8>, ErrorModel>, wnfs_key: Seq<u8>) -> (
    CallModel,
    StepModel,
) {
    match root {
        Ok(root) => (
            CallModel::Loading { root },
            StepModel::Ask(EngineCallModel::LoadWithKey { root, wnfs_key }),
        ),
        Err(error) => (CallModel::Finished, StepModel::Finish(Err(error))),
    }
}

/// How a call that creates a tree starts.
pub open spec fn start_init_model(wnfs_key: Seq<u8>) -> (CallModel, StepModel) {
    (CallModel::Initializing, StepModel::Ask(EngineCallModel::Init { wnfs_key }))
}

/// The end of a call with the failure `error`.
pub open spec fn failed(error: ErrorModel) -> (CallModel, StepModel) {
    (CallModel::Finished, StepModel::Finish(Err(error)))
}

/// The end of a call with the reply `reply`.
pub open spec fn replied(reply: ReplyModel) -> (CallModel, StepModel) {
    (CallModel::Finished, StepModel::Finish(Ok(reply)))
}

/// The end of a call for which the engine made the root `root`, given what
/// writing the root as text yielded: the root and its text are the reply,
/// and a root that has no text is a failure.
pub open spec fn rooted(root: Seq<u8>, text: Result<Seq<char>, ErrorModel>) -> (
    CallModel,
    StepModel,
) {
    match text {
        Ok(text) => replied(ReplyModel::Root { cid: root, text }),
        Err(error) => failed(error),
    }
}

/// The end of a call that has loaded a snapshot with a key, given what
/// writing the snapshot's root as text yielded: the text is the reply, and
/// a root that has no text is a failure.
pub open spec fn confirmed(text: Result<Seq<char>, ErrorModel>) -> (CallModel, StepModel) {
    match text {
        Ok(text) => replied(ReplyModel::Loaded { forest_cid: text, root_dir_cid: text }),
        Err(error) => failed(error),
    }
}

/// The end of a call that was given an answer of the wrong kind.
pub open spec fn confused() -> (CallModel, StepModel) {
    failed(ErrorModel::SerializationFailure(unexpected_result_message()))
}

/// How a call goes on when the engine has answered.
///
/// A failure of the engine ends the call at once, with the engine's message:
/// as a `ForestLoadFailure` while a snapshot is being loaded, as a
/// `TreeOperationFailure` otherwise.  An answer that could not be taken
/// across the boundary ends it as a `SerializationFailure`.  A snapshot
/// that was loaded with a key is confirmed with its root as text.  When the
/// snapshot is loaded the verb is asked for, and when the verb has answered
/// the answer is the reply: a new root with its text, the content of a file
/// as it is, and the entries of a directory as the bytes of a listing.  An
/// answer of another kind than the call waits for ends the call with a
/// `SerializationFailure`, and so does any answer to a call that has ended.
pub open spec fn advance_model(call: CallModel, result: EngineResultModel) -> (
    CallModel,
    StepModel,
) {
    match call {
        CallModel::Initializing => match result {
            EngineResultModel::Root(root) => rooted(root, serialized_cid(root)),
            EngineResultModel::Failure(message) => failed(
                ErrorModel::TreeOperationFailure(message),
            ),
            EngineResultModel::Undecodable(message) => failed(
                ErrorModel::SerializationFailure(message),
            ),
            _ => confused(),
        },
        CallModel::Loading { root } => match result {
            EngineResultModel::Ready => confirmed(serialized_cid(root)),
            EngineResultModel::Failure(message) => failed(ErrorModel::ForestLoadFailure(message)),
            EngineResultModel::Undecodable(message) => failed(
                ErrorModel::SerializationFailure(message),
            ),
            _ => confused(),
        },
        CallModel::Reloading { operation } => match result {
            EngineResultModel::Ready => (
                CallModel::Working { expects: expectation_of(operation) },
                StepModel::Ask(engine_call_of(operation)),
            ),
            EngineResultModel::Failure(message) => failed(ErrorModel::ForestLoadFailure(message)),
            EngineResultModel::Undecodable(message) => failed(
                ErrorModel::SerializationFailure(message),
            ),
            _ => confused(),
        },
        CallModel::Working { expects } => match (expects, result) {
            (Expectation::Root, EngineResultModel::Root(root)) => rooted(
                root,
                serialized_cid(root),
            ),
            (Expectation::Content, EngineResultModel::Content(content)) => replied(
                ReplyModel::Content(content),
            ),
            (Expectation::Entries, EngineResultModel::Entries(entries)) => replied(
                ReplyModel::Listing(listing_text(entries)),
            ),
            (_, EngineResultModel::Failure(message)) => failed(
                ErrorModel::TreeOperationFailure(message),
            ),
            (_, EngineResultModel::Undecodable(message)) => failed(
                ErrorModel::SerializationFailure(message),
            ),
            _ => confused(),
        },
        CallModel::Finished => confused(),
    }
}

/// How many answers of the engine a call can still take before it ends.
pub open spec fn answers_left(call: CallModel) -> nat {
    match call {
        CallModel::Reloading { .. } => 2,
        CallModel::Finished => 0,
        _ => 1,
    }
}

fn confused_step() -> (step: Step)
    ensures
        step@ == confused().1,
{
    Step::Finish(
        Err(AdapterError::SerializationFailure("Unexpected engine result".to_owned())),
    )
}

fn engine_call_for(operation: Operation) -> (call: EngineCall)
    ensures
        call@ == engine_call_of(operation@),
{
    match operation {
        Operation::WriteFile { path, content, modification_time_seconds } => {
            EngineCall::WriteFile {
                path: parse_path(path.as_str()),
                content,
                modification_time_seconds,
            }
        },
        Operation::ReadFile { path } => EngineCall::ReadFile { path: parse_path(path.as_str()) },
        Operation::Mkdir { path } => EngineCall::Mkdir { path: parse_path(path.as_str()) },
        Operation::Mv { source, target } => EngineCall::Mv {
            source: parse_path(source.as_str()),
            target: parse_path(target.as_str()),
        },
        Operation::Cp { source, target } => EngineCall::Cp {
            source: parse_path(source.as_str()),
            target: parse_path(target.as_str()),
        },
        Operation::Rm { path } => EngineCall::Rm { path: parse_path(path.as_str()) },
        Operation::Ls { path } => EngineCall::Ls { path: parse_path(path.as_str()) },
    }
}

fn expectation_for(operation: &Operation) -> (expects: Expectation)
    ensures
        expects == expectation_of(operation@),
{
    match operation {
        Operation::ReadFile { .. } => Expectation::Content,
        Operation::Ls { .. } => Expectation::Entries,
        _ => Expectation::Root,
    }
}

impl Call {
    /// Starts a call for `operation` on the snapshot whose root was read
    /// as `root`.
    pub fn start(root: Result<ContentId, AdapterError>, operation: Operation) -> (started: (
        Call,
        Step,
    ))
        ensures
            (started.0@, started.1@) == start_model(cid_result_model(root), operation@),
    {
        match root {
            Ok(root) => (
                Call { phase: Phase::Reloading { operation } },
                Step::Ask(EngineCall::Reload { root }),
            ),
            Err(error) => (Call { phase: Phase::Finished }, Step::Finish(Err(error))),
        }
    }

    /// Starts a call that loads, with the key `wnfs_key`, the snapshot
    /// whose root was read as `root`.
    pub fn start_load(root: Result<ContentId, AdapterError>, wnfs_key: Vec<u8>) -> (started: (
        Call,
        Step,
    ))
        ensures
            (started.0@, started.1@) == start_load_model(cid_result_model(root), wnfs_key@),
    {
        match root {
            Ok(root) => {
                let asked = root.duplicate();
                (
                    Call { phase: Phase::Loading { root } },
                    Step::Ask(EngineCall::LoadWithKey { root: asked, wnfs_key }),
                )
            },
            Err(error) => (Call { phase: Phase::Finished }, Step::Finish(Err(error))),
        }
    }

    /// Starts a call that creates an empty tree under the key `wnfs_key`.
    pub fn start_init(wnfs_key: Vec<u8>) -> (started: (Call, Step))
        ensures
            (started.0@, started.1@) == start_init_model(wnfs_key@),
    {
        (Call { phase: Phase::Initializing }, Step::Ask(EngineCall::Init { wnfs_key }))
    }

    /// The last step of a call for which the engine made the root `root`,
    /// given what writing the root as text yielded.
    pub fn reply_root(root: ContentId, text: Result<String, AdapterError>) -> (step: Step)
        ensures
            step@ == rooted(root@, text_result_model(text)).1,
    {
        match text {
            Ok(text) => Step::Finish(Ok(Reply::Root { cid: root, text })),
            Err(error) => Step::Finish(Err(error)),
        }
    }

    /// The last step of a call that has loaded a snapshot with a key, given
    /// what writing the snapshot's root as text yielded.
    pub fn confirm_loaded(text: Result<String, AdapterError>) -> (step: Step)
        ensures
            step@ == confirmed(text_result_model(text)).1,
    {
        match text {
            Ok(text) => {
                let forest_cid = text.clone();
                Step::Finish(Ok(Reply::Loaded { forest_cid, root_dir_cid: text }))
            },
            Err(error) => Step::Finish(Err(error)),
        }
    }

    /// Whether the call has given its reply.
    pub fn is_finished(&self) -> (finished: bool)
        ensures
            finished == (self@ is Finished),
    {
        match self.phase {
            Phase::Finished => true,
            _ => false,
        }
    }

    /// Takes the engine's answer to the call that the last step asked for,
    /// and says what is to happen next.
    pub fn advance(self, result: EngineResult) -> (next: (Call, Step))
        ensures
            (next.0@, next.1@) == advance_model(self@, result@),
    {
        let done = Call { phase: Phase::Finished };
        match self.phase {
            Phase::Initializing => match result {
                EngineResult::Root(root) => {
                    let text = serialize_cid(&root);
                    (done, Self::reply_root(root, text))
                },
                EngineResult::Failure(message) => (
                    done,
                    Step::Finish(Err(AdapterError::TreeOperationFailure(message))),
                ),
                EngineResult::Undecodable(message) => (
                    done,
                    Step::Finish(Err(AdapterError::SerializationFailure(message))),
                ),
                _ => (done, confused_step()),
            },
            Phase::Loading { root } => match result {
                EngineResult::Ready => (done, Self::confirm_loaded(serialize_cid(&root))),
                EngineResult::Failure(message) => (
                    done,
                    Step::Finish(Err(AdapterError::ForestLoadFailure(message))),
                ),
                EngineResult::Undecodable(message) => (
                    done,
                    Step::Finish(Err(AdapterError::SerializationFailure(message))),
                ),
                _ => (done, confused_step()),
            },
            Phase::Reloading { operation } => match result {
                EngineResult::Ready => {
                    let expects = expectation_for(&operation);
                    (
                        Call { phase: Phase::Working { expects } },
                        Step::Ask(engine_call_for(operation)),
                    )
                },
                EngineResult::Failure(message) => (
                    done,
                    Step::Finish(Err(AdapterError::ForestLoadFailure(message))),
                ),
                EngineResult::Undecodable(message) => (
                    done,
                    Step::Finish(Err(AdapterError::SerializationFailure(message))),
                ),
                _ => (done, confused_step()),
            },
            Phase::Working { expects } => match (expects, result) {
                (Expectation::Root, EngineResult::Root(root)) => {
                    let text = serialize_cid(&root);
                    (done, Self::reply_root(root, text))
                },
                (Expectation::Content, EngineResult::Content(content)) => (
                    done,
                    Step::Finish(Ok(Reply::Content(content))),
                ),
                (Expectation::Entries, EngineResult::Entries(entries)) => (
                    done,
                    Step::Finish(Ok(Reply::Listing(encode_listing(entries.as_slice())))),
                ),
                (_, EngineResult::Failure(message)) => (
                    done,
                    Step::Finish(Err(AdapterError::TreeOperationFailure(message))),
                ),
                (_, EngineResult::Undecodable(message)) => (
                    done,
                    Step::Finish(Err(AdapterError::SerializationFailure(message))),
                ),
                _ => (done, confused_step()),
            },
            Phase::Finished => (done, confused_step()),
        }
    }
}

/// Starts the creation of an empty tree under the key `wnfs_key`.
pub fn init_native(wnfs_key: &[u8]) -> (started: (Call, Step))
    ensures
        (started.0@, started.1@) == start_init_model(wnfs_key@),
{
    Call::start_init(slice_to_vec(wnfs_key))
}

/// Starts the loading, with the key `wnfs_key`, of the snapshot whose root
/// has the binary form `forest_cid`.
pub fn load_with_wnfs_key_native(forest_cid: &[u8], wnfs_key: &[u8]) -> (started: (Call, Step))
    ensures
        (started.0@, started.1@) == start_load_model(parsed_cid(forest_cid@), wnfs_key@),
{
    Call::start_load(parse_cid(forest_cid), slice_to_vec(wnfs_key))
}

/// Starts the writing of `content` to the file at `path_segments`, in the
/// snapshot whose root has the binary form `cid`.
pub fn write_file_native(
    cid: &[u8],
    path_segments: &str,
    content: Vec<u8>,
    modification_time_seconds: i64,
) -> (started: (Call, Step))
    ensures
        (started.0@, started.1@) == start_model(
            parsed_cid(cid@),
            OperationModel::WriteFile {
                path: path_segments@,
                content: content@,
                modification_time_seconds,
            },
        ),
{
    Call::start(
        parse_cid(cid),
        Operation::WriteFile { path: path_segments.to_owned(), content, modification_time_seconds },
    )
}

/// Starts the reading of the file at `path_segments`, in the snapshot whose
/// root has the binary form `cid`.
pub fn read_file_native(cid: &[u8], path_segments: &str) -> (started: (Call, Step))
    ensures
        (started.0@, started.1@) == start_model(
            parsed_cid(cid@),
            OperationModel::ReadFile { path: path_segments@ },
        ),
{
    Call::start(parse_cid(cid), Operation::ReadFile { path: path_segments.to_owned() })
}

/// Starts the making of the directory at `path_segments`, in the snapshot
/// whose root has the binary form `cid`.
pub fn mkdir_native(cid: &[u8], path_segments: &str) -> (started: (Call, Step))
    ensures
        (started.0@, started.1@) == start_model(
            parsed_cid(cid@),
            OperationModel::Mkdir { path: path_segments@ },
        ),
{
    Call::start(parse_cid(cid), Operation::Mkdir { path: path_segments.to_owned() })
}

/// Starts the moving of what is at `source_path_segments` to
/// `target_path_segments`, in the snapshot whose root has the binary form
/// `cid`.
pub fn mv_native(cid: &[u8], source_path_segments: &str, target_path_segments: &str) -> (started: (
    Call,
    Step,
))
    ensures
        (started.0@, started.1@) == start_model(
            parsed_cid(cid@),
            OperationModel::Mv { source: source_path_segments@, target: target_path_segments@ },
        ),
{
    Call::start(
        parse_cid(cid),
        Operation::Mv {
            source: source_path_segments.to_owned(),
            target: target_path_segments.to_owned(),
        },
    )
}

/// Starts the copying of what is at `source_path_segments` to
/// `target_path_segments`, in the snapshot whose root has the binary form
/// `cid`.
pub fn cp_native(cid: &[u8], source_path_segments: &str, target_path_segments: &str) -> (started: (
    Call,
    Step,
))
    ensures
        (started.0@, started.1@) == start_model(
            parsed_cid(cid@),
            OperationModel::Cp { source: source_path_segments@, target: target_path_segments@ },
        ),
{
    Call::start(
        parse_cid(cid),
        Operation::Cp {
            source: source_path_segments.to_owned(),
            target: target_path_segments.to_owned(),
        },
    )
}

/// Starts the removal of what is at `path_segments`, in the snapshot whose
/// root has the binary form `cid`.
pub fn rm_native(cid: &[u8], path_segments: &str) -> (started: (Call, Step))
    ensures
        (started.0@, started.1@) == start_model(
            parsed_cid(cid@),
            OperationModel::Rm { path: path_segments@ },
        ),
{
    Call::start(parse_cid(cid), Operation::Rm { path: path_segments.to_owned() })
}

/// Starts the listing of the directory at `path_segments`, in the snapshot
/// whose root has the binary form `cid`.
pub fn ls_native(cid: &[u8], path_segments: &str) -> (started: (Call, Step))
    ensures
        (started.0@, started.1@) == start_model(
            parsed_cid(cid@),
            OperationModel::Ls { path: path_segments@ },
        ),
{
    Call::start(parse_cid(cid), Operation::Ls { path: path_segments.to_owned() })
}

/// A root that is no identifier ends the call before it has begun: the
/// reply is `InvalidCid`, and the engine is asked for nothing.  This holds
/// of every verb that takes a root.
pub proof fn lemma_invalid_root_ends_call(
    cid: Seq<u8>,
    operation: OperationModel,
    wnfs_key: Seq<u8>,
)
    requires
        cid_binary_form(cid) is None,
    ensures
        start_model(parsed_cid(cid), operation) == failed(ErrorModel::InvalidCid),
        start_load_model(parsed_cid(cid), wnfs_key) == failed(ErrorModel::InvalidCid),
{
}

/// Every call ends.  Each answer of the engine leaves a call with fewer
/// answers to take than it had, so that no call takes more than two; and a
/// call gives its reply exactly when it ends.
pub proof fn lemma_call_ends(call: CallModel, result: EngineResultModel)
    ensures
        call !is Finished ==> answers_left(advance_model(call, result).0) < answers_left(call),
        advance_model(call, result).1 is Finish <==> advance_model(call, result).0 is Finished,
{
}

/// A failure of the engine is final: it ends the call, and the reply is a
/// failure that carries the engine's message.  No root is handed out.
pub proof fn lemma_failure_ends_call(call: CallModel, message: Seq<char>)
    requires
        call !is Finished,
    ensures
        advance_model(call, EngineResultModel::Failure(message)) == failed(
            if call is Loading || call is Reloading {
                ErrorModel::ForestLoadFailure(message)
            } else {
                ErrorModel::TreeOperationFailure(message)
            },
        ),
{
}

/// What a whole call replies, for a verb that takes a root: `loaded` is the
/// engine's answer to the loading of the snapshot and `answered` its answer
/// to the verb.
pub open spec fn reply_model(
    root: Result<Seq<u8>, ErrorModel>,
    operation: OperationModel,
    loaded: EngineResultModel,
    answered: EngineResultModel,
) -> Result<ReplyModel, ErrorModel> {
    let (first, first_step) = start_model(root, operation);
    let (second, second_step) = advance_model(first, loaded);
    let (third, third_step) = advance_model(second, answered);
    match first_step {
        StepModel::Finish(reply) => reply,
        StepModel::Ask(_) => match second_step {
            StepModel::Finish(reply) => reply,
            StepModel::Ask(_) => match third_step {
                StepModel::Finish(reply) => reply,
                StepModel::Ask(_) => Err(
                    ErrorModel::SerializationFailure(unexpected_result_message()),
                ),
            },
        },
    }
}

/// A call replies with a root only if everything went well, and then with
/// the root that the engine made: the root that the host gave was read, the
/// snapshot was loaded, the verb is one that changes the tree, the engine
/// answered it with that very root, and the text is the text of that root.
/// In every other case the host receives no root, and so has nothing to
/// put in the place of the one it holds.
pub proof fn lemma_new_root_is_the_engines(
    root: Result<Seq<u8>, ErrorModel>,
    operation: OperationModel,
    loaded: EngineResultModel,
    answered: EngineResultModel,
    made: Seq<u8>,
    text: Seq<char>,
)
    ensures
        reply_model(root, operation, loaded, answered) == Ok::<ReplyModel, ErrorModel>(
            ReplyModel::Root { cid: made, text },
        ) <==> {
            &&& root is Ok
            &&& loaded is Ready
            &&& expectation_of(operation) is Root
            &&& answered == EngineResultModel::Root(made)
            &&& serialized_cid(made) == Ok::<Seq<char>, ErrorModel>(text)
        },
{
}

/// A new root is told apart from the old one.  Where the engine made a root
/// other than the one that the host gave, the text that the host receives
/// is not the text of the root it gave: the host cannot take the new
/// snapshot for the old.
pub proof fn lemma_new_root_has_new_text(
    given: Seq<u8>,
    operation: OperationModel,
    loaded: EngineResultModel,
    answered: EngineResultModel,
    made: Seq<u8>,
    text: Seq<char>,
)
    requires
        reply_model(Ok(given), operation, loaded, answered) == Ok::<ReplyModel, ErrorModel>(
            ReplyModel::Root { cid: made, text },
        ),
        made != given,
    ensures
        serialized_cid(given) != Ok::<Seq<char>, ErrorModel>(text),
        parsed_cid_text(text) == Ok::<Seq<u8>, ErrorModel>(made),
{
    lemma_new_root_is_the_engines(Ok(given), operation, loaded, answered, made, text);
}

} // verus!
