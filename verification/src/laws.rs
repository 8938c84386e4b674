//! What holds of every build, whatever the outcomes of its operations.

use crate::entry::{EntryView, PayloadView, RequestView};
use crate::error::ErrorView;
use crate::member::{fixed_options, MemberView};
use crate::step::{lemma_run_admitted, lemma_run_push, OutcomeView, Progress, StepView};
use vstd::prelude::*;
use vstd::utf8::encode_utf8;

verus! {

impl EntryView {
    /// The bytes that the member of this entry holds once it is complete,
    /// where `read` is what its source file delivered.
    pub open spec fn member_data(self, read: Seq<u8>) -> Seq<u8> {
        match self.payload {
            PayloadView::InlineText(text) => encode_utf8(text),
            PayloadView::SourceFile(_) => read,
            PayloadView::Empty => Seq::empty(),
        }
    }

    /// The complete member of this entry.
    pub open spec fn member(self, read: Seq<u8>) -> MemberView {
        MemberView { name: self.archive_path, options: fixed_options(), data: self.member_data(read) }
    }
}

impl StepView {
    /// Whether the build has ended, well or badly.
    pub open spec fn ended(self) -> bool {
        self is Finished || self is Failed
    }
}

impl RequestView {
    /// How many members have been begun when `step` is due.
    spec fn begun(self, step: StepView) -> int {
        match step {
            StepView::CreateDestination => 0,
            StepView::StartMember { index } => index,
            StepView::WriteText { index } => index + 1,
            StepView::OpenSource { index } => index + 1,
            StepView::ReadSource { index } => index + 1,
            StepView::WriteChunk { index, .. } => index + 1,
            _ => self.entries.len() as int,
        }
    }

    /// Whether the member begun last is what `step` expects of a member
    /// that is still being written.
    spec fn last_fits(self, progress: Progress) -> bool {
        let last = progress.members.len() - 1;
        match progress.step {
            StepView::WriteText { .. } => progress.members[last].data == Seq::<u8>::empty(),
            StepView::OpenSource { .. } => progress.members[last].data == Seq::<u8>::empty()
                && progress.read[last] == Seq::<u8>::empty(),
            StepView::ReadSource { .. } => progress.members[last].data == progress.read[last],
            StepView::WriteChunk { bytes, .. } => progress.members[last].data + bytes
                == progress.read[last],
            StepView::Failed(_) => true,
            _ => last >= 0 ==> progress.members[last] == self.entries[last].member(
                progress.read[last],
            ),
        }
    }

    /// What ties the members written to the entries and to the step that is due.
    spec fn consistent(self, progress: Progress) -> bool {
        &&& self.admits(progress.step)
        &&& progress.members.len() == progress.read.len()
        &&& progress.members.len() <= self.entries.len()
        &&& !(progress.step is Failed) ==> progress.members.len() == self.begun(progress.step)
        &&& forall|k: int|
            0 <= k < progress.members.len() ==> {
                &&& (#[trigger] progress.members[k]).name == self.entries[k].archive_path
                &&& progress.members[k].options == fixed_options()
            }
        &&& forall|k: int|
            0 <= k < progress.members.len() - 1 ==> #[trigger] progress.members[k]
                == self.entries[k].member(progress.read[k])
        &&& self.last_fits(progress)
    }
}

/// One operation more keeps the members tied to the entries.
proof fn lemma_apply_consistent(request: RequestView, progress: Progress, outcome: OutcomeView)
    requires
        request.consistent(progress),
    ensures
        request.consistent(request.apply(progress, outcome)),
{
}

/// Whatever the outcomes, the members written are tied to the entries.
proof fn lemma_run_consistent(request: RequestView, outcomes: Seq<OutcomeView>)
    ensures
        request.consistent(request.run(outcomes)),
    decreases outcomes.len(),
{
    if outcomes.len() > 0 {
        lemma_run_consistent(request, outcomes.drop_last());
        lemma_apply_consistent(request, request.run(outcomes.drop_last()), outcomes.last());
    }
}

/// At every point of a build the members written stand for the first
/// entries of the request, one each and in their order, under the entries'
/// names and with the fixed options. No entry is skipped and none comes early.
pub proof fn lemma_members_follow_entries(request: RequestView, outcomes: Seq<OutcomeView>)
    ensures
        request.run(outcomes).members.len() <= request.entries.len(),
        request.run(outcomes).read.len() == request.run(outcomes).members.len(),
        forall|k: int|
            0 <= k < request.run(outcomes).members.len() ==> {
                &&& (#[trigger] request.run(outcomes).members[k]).name
                    == request.entries[k].archive_path
                &&& request.run(outcomes).members[k].options == fixed_options()
            },
{
    lemma_run_consistent(request, outcomes);
}

/// A build that finished has written exactly one member for each entry, in
/// the order of the entries. Each holds what its entry asks for: the UTF-8
/// bytes of the inline text, all the bytes its source file delivered, or
/// nothing.
pub proof fn lemma_finished_archive(request: RequestView, outcomes: Seq<OutcomeView>)
    requires
        request.run(outcomes).step is Finished,
    ensures
        request.run(outcomes).members.len() == request.entries.len(),
        forall|k: int|
            0 <= k < request.entries.len() ==> #[trigger] request.run(outcomes).members[k]
                == request.entries[k].member(request.run(outcomes).read[k]),
{
    lemma_run_consistent(request, outcomes);
}

/// Where every entry carries inline text, a build that finished has written
/// one member per entry, in input order, and the bytes of each are the UTF-8
/// encoding of the entry's text.
pub proof fn lemma_inline_text_members(request: RequestView, outcomes: Seq<OutcomeView>)
    requires
        request.run(outcomes).step is Finished,
        forall|k: int|
            0 <= k < request.entries.len() ==> (#[trigger] request.entries[k]).payload
                is InlineText,
    ensures
        request.run(outcomes).members.len() == request.entries.len(),
        forall|k: int|
            0 <= k < request.entries.len() ==> {
                &&& (#[trigger] request.run(outcomes).members[k]).name
                    == request.entries[k].archive_path
                &&& request.run(outcomes).members[k].data == encode_utf8(
                    request.entries[k].payload->InlineText_0,
                )
            },
{
    lemma_finished_archive(request, outcomes);
    assert forall|k: int| 0 <= k < request.entries.len() implies {
        &&& (#[trigger] request.run(outcomes).members[k]).name == request.entries[k].archive_path
        &&& request.run(outcomes).members[k].data == encode_utf8(
            request.entries[k].payload->InlineText_0,
        )
    } by {
        assert(request.entries[k].payload is InlineText);
    }
}

/// In a build that finished, the member of an entry with a source file holds
/// the bytes that the reads of that file delivered, all of them and in
/// their order, however many reads it took and however few bytes each gave.
pub proof fn lemma_source_file_members(request: RequestView, outcomes: Seq<OutcomeView>, k: int)
    requires
        request.run(outcomes).step is Finished,
        0 <= k < request.entries.len(),
        request.entries[k].payload is SourceFile,
    ensures
        request.run(outcomes).members[k].name == request.entries[k].archive_path,
        request.run(outcomes).members[k].data == request.run(outcomes).read[k],
{
    lemma_finished_archive(request, outcomes);
}

/// A build that has ended stays as it is, whatever is reported afterwards.
pub proof fn lemma_ended_build_stays(
    request: RequestView,
    outcomes: Seq<OutcomeView>,
    later: Seq<OutcomeView>,
)
    requires
        request.run(outcomes).step.ended(),
    ensures
        request.run(outcomes + later) == request.run(outcomes),
    decreases later.len(),
{
    if later.len() == 0 {
        assert(outcomes + later =~= outcomes);
    } else {
        lemma_ended_build_stays(request, outcomes, later.drop_last());
        assert((outcomes + later).drop_last() =~= outcomes + later.drop_last());
        assert((outcomes + later).last() == later.last());
    }
}

/// The first failure decides the build: it ends with the error of the
/// operation that failed, and what had been written stays as it was.
pub proof fn lemma_failure_ends_build(
    request: RequestView,
    outcomes: Seq<OutcomeView>,
    cause: Seq<char>,
    later: Seq<OutcomeView>,
)
    requires
        !request.run(outcomes).step.ended(),
    ensures
        request.run(outcomes.push(OutcomeView::Failed(cause)) + later).step
            == request.step_after_failure(request.run(outcomes).step, cause),
        request.run(outcomes.push(OutcomeView::Failed(cause)) + later).step is Failed,
        request.run(outcomes.push(OutcomeView::Failed(cause)) + later).members == request.run(
            outcomes,
        ).members,
{
    lemma_run_push(request, outcomes, OutcomeView::Failed(cause));
    lemma_ended_build_stays(request, outcomes.push(OutcomeView::Failed(cause)), later);
}

/// If a source file cannot be opened, the build ends with `SourceOpenError`
/// for that file. The members written are those of the entries up to the one
/// whose source failed: no member of a later entry exists.
pub proof fn lemma_failed_open_stops_build(
    request: RequestView,
    outcomes: Seq<OutcomeView>,
    index: int,
    cause: Seq<char>,
    later: Seq<OutcomeView>,
)
    requires
        request.run(outcomes).step == (StepView::OpenSource { index }),
    ensures
        request.run(outcomes.push(OutcomeView::Failed(cause)) + later).step == StepView::Failed(
            ErrorView::SourceOpenError {
                source_path: request.entries[index].payload->SourceFile_0,
                cause,
            },
        ),
        request.run(outcomes.push(OutcomeView::Failed(cause)) + later).members.len() == index + 1,
        index + 1 <= request.entries.len(),
{
    lemma_run_consistent(request, outcomes);
    lemma_failure_ends_build(request, outcomes, cause, later);
}

/// If the destination cannot be created, the build ends with `CreateError`
/// for the destination path, and nothing has been written: no member was
/// begun and no source was read.
pub proof fn lemma_failed_create_writes_nothing(
    request: RequestView,
    cause: Seq<char>,
    later: Seq<OutcomeView>,
)
    ensures
        request.run(seq![OutcomeView::Failed(cause)] + later) == (Progress {
            step: StepView::Failed(
                ErrorView::CreateError { path: request.destination_path, cause },
            ),
            members: Seq::empty(),
            read: Seq::empty(),
        }),
{
    let first = Seq::<OutcomeView>::empty().push(OutcomeView::Failed(cause));
    assert(first =~= seq![OutcomeView::Failed(cause)]);
    lemma_run_push(request, Seq::empty(), OutcomeView::Failed(cause));
    lemma_ended_build_stays(request, first, later);
}

/// A build never gives up by itself: as long as no operation has failed,
/// the build has not failed.
pub proof fn lemma_no_failure_without_cause(request: RequestView, outcomes: Seq<OutcomeView>)
    requires
        forall|k: int| 0 <= k < outcomes.len() ==> !(#[trigger] outcomes[k] is Failed),
    ensures
        !(request.run(outcomes).step is Failed),
    decreases outcomes.len(),
{
    if outcomes.len() > 0 {
        lemma_no_failure_without_cause(request, outcomes.drop_last());
        assert(!(outcomes[outcomes.len() - 1] is Failed));
    }
}

/// The archive does not depend on how the reads were cut into chunks, nor on
/// anything else that happened on the way: two builds of one request that
/// both finished, and in which each source delivered the same bytes
/// altogether, have written the same members.
pub proof fn lemma_finished_archives_agree(
    request: RequestView,
    one: Seq<OutcomeView>,
    other: Seq<OutcomeView>,
)
    requires
        request.run(one).step is Finished,
        request.run(other).step is Finished,
        forall|k: int|
            0 <= k < request.entries.len() && (#[trigger] request.entries[k]).payload
                is SourceFile ==> request.run(one).read[k] == request.run(other).read[k],
    ensures
        request.run(one).members == request.run(other).members,
{
    lemma_finished_archive(request, one);
    lemma_finished_archive(request, other);
    assert forall|k: int| 0 <= k < request.entries.len() implies request.run(one).members[k]
        == request.run(other).members[k] by {
        assert(request.entries[k].payload is SourceFile ==> request.run(one).read[k]
            == request.run(other).read[k]);
    }
    assert(request.run(one).members =~= request.run(other).members);
}

impl EntryView {
    /// How many operations an entry takes when it has no source file: one to
    /// begin its member and, for inline text, one to write it.
    pub open spec fn operations(self) -> int {
        match self.payload {
            PayloadView::InlineText(_) => 2,
            _ => 1,
        }
    }
}

impl RequestView {
    /// How many operations the first `count` entries take together.
    pub open spec fn operations_before(self, count: int) -> int
        decreases count,
    {
        if count <= 0 {
            0
        } else {
            self.operations_before(count - 1) + self.entries[count - 1].operations()
        }
    }

    /// How many operations a build without source files takes: one to create
    /// the destination, those of the entries, and one to complete the archive.
    pub open spec fn operations(self) -> int {
        self.operations_before(self.entries.len() as int) + 2
    }

    /// How many operations lie behind a build without source files when
    /// `step` is due.
    spec fn spent(self, step: StepView) -> int {
        match step {
            StepView::CreateDestination => 0,
            StepView::StartMember { index } => 1 + self.operations_before(index),
            StepView::WriteText { index } => 2 + self.operations_before(index),
            StepView::Finalize => 1 + self.operations_before(self.entries.len() as int),
            _ => self.operations(),
        }
    }

    /// What holds of a build without source files in which `count`
    /// operations have succeeded and none has failed.
    spec fn on_schedule(self, step: StepView, count: int) -> bool {
        &&& self.admits(step)
        &&& step is CreateDestination || step is StartMember || step is WriteText || step
            is Finalize || step is Finished
        &&& if step is Finished {
            count >= self.operations()
        } else {
            count == self.spent(step)
        }
    }
}

/// The operations of more entries are not fewer.
proof fn lemma_operations_grow(request: RequestView, fewer: int, more: int)
    requires
        0 <= fewer <= more,
    ensures
        0 <= request.operations_before(fewer) <= request.operations_before(more),
    decreases more,
{
    if fewer < more {
        lemma_operations_grow(request, fewer, more - 1);
    } else if more > 0 {
        lemma_operations_grow(request, fewer - 1, more - 1);
    }
}

/// A build without source files in which nothing fails is on schedule.
proof fn lemma_run_on_schedule(request: RequestView, outcomes: Seq<OutcomeView>)
    requires
        forall|k: int|
            0 <= k < request.entries.len() ==> !((#[trigger] request.entries[k]).payload
                is SourceFile),
        forall|k: int| 0 <= k < outcomes.len() ==> !(#[trigger] outcomes[k] is Failed),
    ensures
        request.on_schedule(request.run(outcomes).step, outcomes.len() as int),
    decreases outcomes.len(),
{
    if outcomes.len() > 0 {
        let before = request.run(outcomes.drop_last()).step;
        lemma_run_on_schedule(request, outcomes.drop_last());
        lemma_run_admitted(request, outcomes);
        assert(!(outcomes[outcomes.len() - 1] is Failed));
        match before {
            StepView::StartMember { index } => {
                assert(!(request.entries[index].payload is SourceFile));
                assert(request.operations_before(index + 1) == request.operations_before(index)
                    + request.entries[index].operations());
            },
            StepView::WriteText { index } => {
                assert(request.operations_before(index + 1) == request.operations_before(index)
                    + request.entries[index].operations());
            },
            _ => {},
        }
    }
}

/// Where no entry has a source file and no operation fails, the build is
/// finished exactly when as many operations have succeeded as the request
/// takes: no sooner and, from then on, for good.
pub proof fn lemma_build_without_sources_finishes(
    request: RequestView,
    outcomes: Seq<OutcomeView>,
)
    requires
        forall|k: int|
            0 <= k < request.entries.len() ==> !((#[trigger] request.entries[k]).payload
                is SourceFile),
        forall|k: int| 0 <= k < outcomes.len() ==> !(#[trigger] outcomes[k] is Failed),
    ensures
        request.run(outcomes).step is Finished <==> outcomes.len() >= request.operations(),
{
    lemma_run_on_schedule(request, outcomes);
    let count = request.entries.len() as int;
    match request.run(outcomes).step {
        StepView::StartMember { index } => {
            lemma_operations_grow(request, index, count);
        },
        StepView::WriteText { index } => {
            lemma_operations_grow(request, index + 1, count);
            assert(request.operations_before(index + 1) == request.operations_before(index)
                + request.entries[index].operations());
        },
        _ => {
            lemma_operations_grow(request, 0, count);
        },
    }
}

} // verus!
