//! One build in progress.
//!
//! A [`Plan`] names one operation at a time as an [`Action`]. The caller
//! performs it and reports an [`Outcome`]; the plan then names the next. The
//! first failure ends the build with the error that belongs to the failed
//! operation.

use crate::entry::{ArchiveRequest, Entry, Payload, RequestView};
use crate::error::{ArchiveError, ErrorView};
use crate::member::{fixed_options, member_options, MemberOptions};
use crate::step::{lemma_run_admitted, lemma_run_push, OutcomeView, Progress, StepView};
use vstd::prelude::*;

verus! {

/// How the operation that was due went.
#[derive(Debug, PartialEq, Eq)]
pub enum Outcome {
    /// It succeeded. For a read: the source has no more bytes.
    Completed,
    /// A read delivered these bytes. None at all means that the source has
    /// no more bytes. After any other operation this counts as `Completed`.
    Read(Vec<u8>),
    /// It failed, for the reason given.
    Failed(String),
}

impl View for Outcome {
    type V = OutcomeView;

    open spec fn view(&self) -> OutcomeView {
        match self {
            Outcome::Completed => OutcomeView::Completed,
            Outcome::Read(bytes) => OutcomeView::Read(bytes@),
            Outcome::Failed(cause) => OutcomeView::Failed(cause@),
        }
    }
}

/// The operation that is due, with what it needs, or how the build ended.
#[derive(Debug, PartialEq, Eq)]
pub enum Action<'a> {
    /// Create the file at `path`, or truncate it, and open an archive writer over it.
    CreateDestination { path: &'a str },
    /// Begin a member `name` with `options`. What is written next goes into it.
    StartMember { name: &'a str, options: MemberOptions },
    /// Write `bytes`, the text of the entry, into the member in one call.
    WriteText { bytes: &'a [u8] },
    /// Open the file at `path` for reading.
    OpenSource { path: &'a str },
    /// Read the next chunk from the file at `path`, opened before.
    ReadSource { path: &'a str },
    /// Write `bytes`, the chunk read last, into the member.
    WriteChunk { bytes: &'a [u8] },
    /// Complete the archive.
    Finalize,
    /// Nothing is left to do: the archive is complete.
    Finished,
    /// Nothing is left to do: the build stopped with this error.
    Failed(&'a ArchiveError),
}

/// An [`Action`] as a mathematical value.
pub enum ActionView {
    CreateDestination { path: Seq<char> },
    StartMember { name: Seq<char>, options: MemberOptions },
    WriteText { bytes: Seq<u8> },
    OpenSource { path: Seq<char> },
    ReadSource { path: Seq<char> },
    WriteChunk { bytes: Seq<u8> },
    Finalize,
    Finished,
    Failed(ErrorView),
}

impl<'a> View for Action<'a> {
    type V = ActionView;

    open spec fn view(&self) -> ActionView {
        match self {
            Action::CreateDestination { path } => ActionView::CreateDestination { path: path@ },
            Action::StartMember { name, options } => ActionView::StartMember {
                name: name@,
                options: *options,
            },
            Action::WriteText { bytes } => ActionView::WriteText { bytes: bytes@ },
            Action::OpenSource { path } => ActionView::OpenSource { path: path@ },
            Action::ReadSource { path } => ActionView::ReadSource { path: path@ },
            Action::WriteChunk { bytes } => ActionView::WriteChunk { bytes: bytes@ },
            Action::Finalize => ActionView::Finalize,
            Action::Finished => ActionView::Finished,
            Action::Failed(error) => ActionView::Failed(error@),
        }
    }
}

impl RequestView {
    /// What the caller is asked to do when `step` is due: the operation with
    /// the name, path or bytes of the entry it concerns.
    pub open spec fn action_for(self, step: StepView) -> ActionView {
        match step {
            StepView::CreateDestination => ActionView::CreateDestination {
                path: self.destination_path,
            },
            StepView::StartMember { index } => ActionView::StartMember {
                name: self.entries[index].archive_path,
                options: fixed_options(),
            },
            StepView::WriteText { index } => ActionView::WriteText {
                bytes: self.entries[index].text_bytes(),
            },
            StepView::OpenSource { index } => ActionView::OpenSource {
                path: self.entries[index].source_path(),
            },
            StepView::ReadSource { index } => ActionView::ReadSource {
                path: self.entries[index].source_path(),
            },
            StepView::WriteChunk { bytes, .. } => ActionView::WriteChunk { bytes },
            StepView::Finalize => ActionView::Finalize,
            StepView::Finished => ActionView::Finished,
            StepView::Failed(error) => ActionView::Failed(error),
        }
    }
}

/// The step that is due, with the data it carries.
enum Step {
    CreateDestination,
    StartMember { index: usize },
    WriteText { index: usize },
    OpenSource { index: usize },
    ReadSource { index: usize },
    WriteChunk { index: usize, bytes: Vec<u8> },
    Finalize,
    Finished,
    Failed(ArchiveError),
}

impl View for Step {
    type V = StepView;

    closed spec fn view(&self) -> StepView {
        match self {
            Step::CreateDestination => StepView::CreateDestination,
            Step::StartMember { index } => StepView::StartMember { index: *index as int },
            Step::WriteText { index } => StepView::WriteText { index: *index as int },
            Step::OpenSource { index } => StepView::OpenSource { index: *index as int },
            Step::ReadSource { index } => StepView::ReadSource { index: *index as int },
            Step::WriteChunk { index, bytes } => StepView::WriteChunk {
                index: *index as int,
                bytes: bytes@,
            },
            Step::Finalize => StepView::Finalize,
            Step::Finished => StepView::Finished,
            Step::Failed(error) => StepView::Failed(error@),
        }
    }
}

/// The path of the source file of `entry`.
fn source_path(entry: &Entry) -> (path: &str)
    requires
        entry@.payload is SourceFile,
    ensures
        path@ == entry@.source_path(),
{
    match &entry.payload {
        Payload::SourceFile(path) => path.as_str(),
        _ => unreached(),
    }
}

/// The bytes of the inline text of `entry`.
fn text_bytes(entry: &Entry) -> (bytes: &[u8])
    requires
        entry@.payload is InlineText,
    ensures
        bytes@ == entry@.text_bytes(),
{
    match &entry.payload {
        Payload::InlineText(text) => text.as_str().as_bytes(),
        _ => unreached(),
    }
}

/// The entry at `index`, which the request has.
fn entry_at(request: &ArchiveRequest, index: usize) -> (entry: &Entry)
    requires
        index < request@.entries.len(),
    ensures
        entry@ == request@.entries[index as int],
{
    &request.entries[index]
}

/// The step that turns to entry `index`.
fn entry_step(request: &ArchiveRequest, index: usize) -> (step: Step)
    ensures
        step@ == request@.entry_step(index as int),
{
    if index < request.entries.len() {
        Step::StartMember { index }
    } else {
        Step::Finalize
    }
}

/// The step that turns to the entry after entry `index`.
fn entry_step_after(request: &ArchiveRequest, index: usize) -> (step: Step)
    requires
        index < request@.entries.len(),
    ensures
        step@ == request@.entry_step(index + 1),
{
    let count: usize = request.entries.len();
    if index + 1 < count {
        Step::StartMember { index: index + 1 }
    } else {
        Step::Finalize
    }
}

/// The step after the member of entry `index` has been begun.
fn payload_step(request: &ArchiveRequest, index: usize) -> (step: Step)
    requires
        index < request@.entries.len(),
    ensures
        step@ == request@.payload_step(index as int),
{
    match &entry_at(request, index).payload {
        Payload::SourceFile(_) => Step::OpenSource { index },
        Payload::InlineText(_) => Step::WriteText { index },
        Payload::Empty => entry_step_after(request, index),
    }
}

/// The step after `step` succeeded, with `bytes` if it was a read.
fn step_after_success(request: &ArchiveRequest, step: &Step, bytes: Vec<u8>) -> (next: Step)
    requires
        request@.admits(step@),
    ensures
        next@ == request@.step_after_success(step@, bytes@),
{
    match step {
        Step::CreateDestination => entry_step(request, 0),
        Step::StartMember { index } => payload_step(request, *index),
        Step::WriteText { index } => entry_step_after(request, *index),
        Step::OpenSource { index } => Step::ReadSource { index: *index },
        Step::ReadSource { index } => {
            if bytes.len() == 0 {
                entry_step_after(request, *index)
            } else {
                Step::WriteChunk { index: *index, bytes }
            }
        },
        Step::WriteChunk { index, .. } => Step::ReadSource { index: *index },
        Step::Finalize => Step::Finished,
        Step::Finished => Step::Finished,
        Step::Failed(error) => Step::Failed(error.duplicate()),
    }
}

/// The step after `step` failed with `cause`.
fn step_after_failure(request: &ArchiveRequest, step: &Step, cause: String) -> (next: Step)
    requires
        request@.admits(step@),
    ensures
        next@ == request@.step_after_failure(step@, cause@),
{
    match step {
        Step::CreateDestination => Step::Failed(
            ArchiveError::CreateError { path: request.destination_path.clone(), cause },
        ),
        Step::StartMember { index } => Step::Failed(
            ArchiveError::MemberStartError {
                archive_path: entry_at(request, *index).archive_path.clone(),
                cause,
            },
        ),
        Step::WriteText { index } => Step::Failed(
            ArchiveError::WriteError {
                archive_path: entry_at(request, *index).archive_path.clone(),
                cause,
            },
        ),
        Step::OpenSource { index } => Step::Failed(
            ArchiveError::SourceOpenError {
                source_path: String::from_str(source_path(entry_at(request, *index))),
                cause,
            },
        ),
        Step::ReadSource { index } | Step::WriteChunk { index, .. } => Step::Failed(
            ArchiveError::CopyError {
                source_path: String::from_str(source_path(entry_at(request, *index))),
                cause,
            },
        ),
        Step::Finalize => Step::Failed(ArchiveError::FinalizeError { cause }),
        Step::Finished => Step::Finished,
        Step::Failed(error) => Step::Failed(error.duplicate()),
    }
}

/// The step that is due, and the outcomes that led to it.
struct Position {
    step: Step,
    history: Ghost<Seq<OutcomeView>>,
}

/// A build in progress: the request, and how far the build has come.
pub struct Plan {
    request: ArchiveRequest,
    position: Position,
}

impl View for Plan {
    type V = Progress;

    /// How far the build has come: what the outcomes reported so far make of
    /// the request.
    open spec fn view(&self) -> Progress {
        self.request_view().run(self.history())
    }
}

impl Plan {
    /// The request that is being built.
    pub closed spec fn request_view(&self) -> RequestView {
        self.request@
    }

    /// The outcomes reported so far, oldest first.
    pub closed spec fn history(&self) -> Seq<OutcomeView> {
        self.position.history@
    }

    /// The step held is the one that the history leads to.
    #[verifier::type_invariant]
    spec fn step_follows_history(&self) -> bool {
        self.position.step@ == self.request@.run(self.position.history@).step
    }

    /// A plan for `request`, of which nothing has been done yet.
    pub fn new(request: ArchiveRequest) -> (plan: Plan)
        ensures
            plan.request_view() == request@,
            plan.history() == Seq::<OutcomeView>::empty(),
            plan@ == request@.start(),
    {
        Plan {
            request,
            position: Position { step: Step::CreateDestination, history: Ghost(Seq::empty()) },
        }
    }

    /// The request that is being built.
    pub fn request(&self) -> (request: &ArchiveRequest)
        ensures
            request@ == self.request_view(),
    {
        &self.request
    }

    /// What the caller has to do now, or how the build ended.
    pub fn action(&self) -> (action: Action<'_>)
        ensures
            action@ == self.request_view().action_for(self@.step),
    {
        proof {
            use_type_invariant(self);
            lemma_run_admitted(self.request@, self.position.history@);
        }
        match &self.position.step {
            Step::CreateDestination => Action::CreateDestination {
                path: self.request.destination_path.as_str(),
            },
            Step::StartMember { index } => Action::StartMember {
                name: entry_at(&self.request, *index).archive_path.as_str(),
                options: member_options(),
            },
            Step::WriteText { index } => Action::WriteText {
                bytes: text_bytes(entry_at(&self.request, *index)),
            },
            Step::OpenSource { index } => Action::OpenSource {
                path: source_path(entry_at(&self.request, *index)),
            },
            Step::ReadSource { index } => Action::ReadSource {
                path: source_path(entry_at(&self.request, *index)),
            },
            Step::WriteChunk { bytes, .. } => Action::WriteChunk { bytes: bytes.as_slice() },
            Step::Finalize => Action::Finalize,
            Step::Finished => Action::Finished,
            Step::Failed(error) => Action::Failed(error),
        }
    }

    /// Takes in how the operation that was due went, and moves on to the
    /// step that follows. Once the build has ended, nothing changes any more.
    pub fn advance(&mut self, outcome: Outcome)
        ensures
            final(self).request_view() == old(self).request_view(),
            final(self).history() == old(self).history().push(outcome@),
            final(self)@ == old(self).request_view().apply(old(self)@, outcome@),
    {
        let ghost reported = outcome@;
        let ghost history = self.position.history@;
        proof {
            use_type_invariant(&*self);
            lemma_run_admitted(self.request@, history);
            lemma_run_push(self.request@, history, reported);
        }
        let step = match outcome {
            Outcome::Completed => step_after_success(
                &self.request,
                &self.position.step,
                Vec::new(),
            ),
            Outcome::Read(bytes) => step_after_success(&self.request, &self.position.step, bytes),
            Outcome::Failed(cause) => step_after_failure(
                &self.request,
                &self.position.step,
                cause,
            ),
        };
        self.position = Position { step, history: Ghost(history.push(reported)) };
    }
}

} // verus!
