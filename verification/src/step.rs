//! The order of operations of one build, as a state machine over
//! mathematical values: which step follows which, and what has been written
//! after each.

use crate::entry::{EntryView, PayloadView, RequestView};
use crate::error::ErrorView;
use crate::member::{fixed_options, with_bytes, with_member, MemberView};
use vstd::prelude::*;
use vstd::utf8::encode_utf8;

verus! {

/// Where a build stands: the operation that is due, or how the build ended.
pub enum StepView {
    /// Create or truncate the destination file.
    CreateDestination,
    /// Begin the member of entry `index`.
    StartMember { index: int },
    /// Write the inline text of entry `index` into its member.
    WriteText { index: int },
    /// Open the source file of entry `index`.
    OpenSource { index: int },
    /// Read the next chunk of the source file of entry `index`.
    ReadSource { index: int },
    /// Write `bytes`, read from the source of entry `index`, into its member.
    WriteChunk { index: int, bytes: Seq<u8> },
    /// Complete the archive: central directory and footer.
    Finalize,
    /// The archive is complete.
    Finished,
    /// The build stopped with this error.
    Failed(ErrorView),
}

/// How an operation went, as a mathematical value.
pub enum OutcomeView {
    Completed,
    Read(Seq<u8>),
    Failed(Seq<char>),
}

impl OutcomeView {
    /// The bytes that came with a success: those of a read, none otherwise.
    pub open spec fn bytes(self) -> Seq<u8> {
        match self {
            OutcomeView::Read(bytes) => bytes,
            _ => Seq::empty(),
        }
    }
}

impl EntryView {
    /// The path of the source file, for an entry that has one.
    pub open spec fn source_path(self) -> Seq<char> {
        match self.payload {
            PayloadView::SourceFile(path) => path,
            _ => Seq::empty(),
        }
    }

    /// The bytes of the inline text, for an entry that has one.
    pub open spec fn text_bytes(self) -> Seq<u8> {
        match self.payload {
            PayloadView::InlineText(text) => encode_utf8(text),
            _ => Seq::empty(),
        }
    }
}

impl RequestView {
    /// The step that turns to entry `index`: begin its member, or, when the
    /// entries are used up, complete the archive.
    pub open spec fn entry_step(self, index: int) -> StepView {
        if 0 <= index < self.entries.len() {
            StepView::StartMember { index }
        } else {
            StepView::Finalize
        }
    }

    /// The step after the member of entry `index` has been begun.
    pub open spec fn payload_step(self, index: int) -> StepView {
        match self.entries[index].payload {
            PayloadView::SourceFile(_) => StepView::OpenSource { index },
            PayloadView::InlineText(_) => StepView::WriteText { index },
            PayloadView::Empty => self.entry_step(index + 1),
        }
    }

    /// The step after `step` succeeded, with `bytes` if it was a read.
    pub open spec fn step_after_success(self, step: StepView, bytes: Seq<u8>) -> StepView {
        match step {
            StepView::CreateDestination => self.entry_step(0),
            StepView::StartMember { index } => self.payload_step(index),
            StepView::WriteText { index } => self.entry_step(index + 1),
            StepView::OpenSource { index } => StepView::ReadSource { index },
            StepView::ReadSource { index } => if bytes.len() == 0 {
                self.entry_step(index + 1)
            } else {
                StepView::WriteChunk { index, bytes }
            },
            StepView::WriteChunk { index, .. } => StepView::ReadSource { index },
            StepView::Finalize => StepView::Finished,
            StepView::Finished => StepView::Finished,
            StepView::Failed(error) => StepView::Failed(error),
        }
    }

    /// The step after `step` failed with `cause`: the build stops with the
    /// error of that operation. A build that has ended stays as it is.
    pub open spec fn step_after_failure(self, step: StepView, cause: Seq<char>) -> StepView {
        match step {
            StepView::CreateDestination => StepView::Failed(
                ErrorView::CreateError { path: self.destination_path, cause },
            ),
            StepView::StartMember { index } => StepView::Failed(
                ErrorView::MemberStartError {
                    archive_path: self.entries[index].archive_path,
                    cause,
                },
            ),
            StepView::WriteText { index } => StepView::Failed(
                ErrorView::WriteError { archive_path: self.entries[index].archive_path, cause },
            ),
            StepView::OpenSource { index } => StepView::Failed(
                ErrorView::SourceOpenError {
                    source_path: self.entries[index].source_path(),
                    cause,
                },
            ),
            StepView::ReadSource { index } => StepView::Failed(
                ErrorView::CopyError { source_path: self.entries[index].source_path(), cause },
            ),
            StepView::WriteChunk { index, .. } => StepView::Failed(
                ErrorView::CopyError { source_path: self.entries[index].source_path(), cause },
            ),
            StepView::Finalize => StepView::Failed(ErrorView::FinalizeError { cause }),
            StepView::Finished => StepView::Finished,
            StepView::Failed(error) => StepView::Failed(error),
        }
    }

    /// The step that follows `step` once its operation went as `outcome` says.
    pub open spec fn next_step(self, step: StepView, outcome: OutcomeView) -> StepView {
        match outcome {
            OutcomeView::Failed(cause) => self.step_after_failure(step, cause),
            _ => self.step_after_success(step, outcome.bytes()),
        }
    }
}

/// What a build has come to: the step that is due and what has been written.
pub struct Progress {
    pub step: StepView,
    /// The members begun so far, in the order in which they were begun, each
    /// with the bytes written into it.
    pub members: Seq<MemberView>,
    /// For each member begun, the bytes read from its source file so far.
    pub read: Seq<Seq<u8>>,
}

/// `read` after `bytes` more have been read for the member begun last.
pub open spec fn with_read(read: Seq<Seq<u8>>, bytes: Seq<u8>) -> Seq<Seq<u8>> {
    if read.len() == 0 {
        read
    } else {
        read.update(read.len() - 1, read.last() + bytes)
    }
}

impl RequestView {
    /// A build of which nothing has been done yet.
    pub open spec fn start(self) -> Progress {
        Progress { step: StepView::CreateDestination, members: Seq::empty(), read: Seq::empty() }
    }

    /// The members after the operation of `step` succeeded.
    pub open spec fn members_after(self, members: Seq<MemberView>, step: StepView) -> Seq<
        MemberView,
    > {
        match step {
            StepView::StartMember { index } => with_member(
                members,
                self.entries[index].archive_path,
                fixed_options(),
            ),
            StepView::WriteText { index } => with_bytes(members, self.entries[index].text_bytes()),
            StepView::WriteChunk { bytes, .. } => with_bytes(members, bytes),
            _ => members,
        }
    }

    /// The bytes read per member after the operation of `step` succeeded,
    /// with `bytes` if it was a read.
    pub open spec fn read_after(self, read: Seq<Seq<u8>>, step: StepView, bytes: Seq<u8>) -> Seq<
        Seq<u8>,
    > {
        match step {
            StepView::StartMember { .. } => read.push(Seq::empty()),
            StepView::ReadSource { .. } => with_read(read, bytes),
            _ => read,
        }
    }

    /// The build after the operation that was due went as `outcome` says. A
    /// failed operation leaves what was written as it was.
    pub open spec fn apply(self, progress: Progress, outcome: OutcomeView) -> Progress {
        match outcome {
            OutcomeView::Failed(_) => Progress {
                step: self.next_step(progress.step, outcome),
                members: progress.members,
                read: progress.read,
            },
            _ => Progress {
                step: self.next_step(progress.step, outcome),
                members: self.members_after(progress.members, progress.step),
                read: self.read_after(progress.read, progress.step, outcome.bytes()),
            },
        }
    }

    /// The build after the operations went, one after the other, as `outcomes` says.
    pub open spec fn run(self, outcomes: Seq<OutcomeView>) -> Progress
        decreases outcomes.len(),
    {
        if outcomes.len() == 0 {
            self.start()
        } else {
            self.apply(self.run(outcomes.drop_last()), outcomes.last())
        }
    }

    /// Whether `step` can be due in a build of this request: it speaks of an
    /// entry that exists and whose payload is of the kind the step handles.
    pub open spec fn admits(self, step: StepView) -> bool {
        match step {
            StepView::StartMember { index } => 0 <= index < self.entries.len(),
            StepView::WriteText { index } => 0 <= index < self.entries.len()
                && self.entries[index].payload is InlineText,
            StepView::OpenSource { index } => 0 <= index < self.entries.len()
                && self.entries[index].payload is SourceFile,
            StepView::ReadSource { index } => 0 <= index < self.entries.len()
                && self.entries[index].payload is SourceFile,
            StepView::WriteChunk { index, .. } => 0 <= index < self.entries.len()
                && self.entries[index].payload is SourceFile,
            _ => true,
        }
    }
}

/// Every step is followed by one that the request admits.
pub proof fn lemma_next_step_admitted(request: RequestView, step: StepView, outcome: OutcomeView)
    requires
        request.admits(step),
    ensures
        request.admits(request.next_step(step, outcome)),
{
}

/// Whatever the outcomes, the step that is due is one the request admits.
pub proof fn lemma_run_admitted(request: RequestView, outcomes: Seq<OutcomeView>)
    ensures
        request.admits(request.run(outcomes).step),
    decreases outcomes.len(),
{
    if outcomes.len() > 0 {
        lemma_run_admitted(request, outcomes.drop_last());
        lemma_next_step_admitted(
            request,
            request.run(outcomes.drop_last()).step,
            outcomes.last(),
        );
    }
}

/// One more outcome takes the build one `apply` further.
pub proof fn lemma_run_push(request: RequestView, outcomes: Seq<OutcomeView>, outcome: OutcomeView)
    ensures
        request.run(outcomes.push(outcome)) == request.apply(request.run(outcomes), outcome),
{
    assert(outcomes.push(outcome).drop_last() =~= outcomes);
}

} // verus!
