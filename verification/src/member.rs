//! Archive members as the writer sees them: a name, fixed options, and bytes.

use vstd::prelude::*;

verus! {

/// How the bytes of a member are stored in the archive.
#[derive(Clone, Copy, Debug, PartialEq, Eq)]
pub enum Compression {
    /// Stored as they are. The inputs are mostly media that is compressed
    /// already, so speed is preferred to size.
    Stored,
}

/// The options a member is registered with.
#[derive(Clone, Copy, Debug, PartialEq, Eq)]
pub struct MemberOptions {
    pub compression: Compression,
    /// Unix permission bits of the member.
    pub unix_mode: u32,
    /// Whether the member may grow past 4 GiB. A writer that is not told so
    /// when the member is begun refuses the bytes beyond that size.
    pub large_file: bool,
}

/// The permission bits of every member: read, write and execute for the
/// owner, read and execute for group and others.
pub const MEMBER_MODE: u32 = 0o755;

/// The options every member is written with. Callers cannot choose others.
/// How much a source file holds is not known when its member is begun, so
/// every member is begun as one that may grow past 4 GiB.
pub open spec fn fixed_options() -> MemberOptions {
    MemberOptions { compression: Compression::Stored, unix_mode: MEMBER_MODE, large_file: true }
}

/// [`fixed_options`], computed.
pub fn member_options() -> (options: MemberOptions)
    ensures
        options == fixed_options(),
{
    MemberOptions { compression: Compression::Stored, unix_mode: MEMBER_MODE, large_file: true }
}

/// One member of an archive as a mathematical value.
pub struct MemberView {
    pub name: Seq<char>,
    pub options: MemberOptions,
    pub data: Seq<u8>,
}

/// The member list after a member `name` with no content has been begun.
pub open spec fn with_member(members: Seq<MemberView>, name: Seq<char>, options: MemberOptions) -> Seq<
    MemberView,
> {
    members.push(MemberView { name, options, data: Seq::empty() })
}

/// The member list after `bytes` have been added to the member begun last.
/// Nothing changes while no member has been begun.
pub open spec fn with_bytes(members: Seq<MemberView>, bytes: Seq<u8>) -> Seq<MemberView> {
    if members.len() == 0 {
        members
    } else {
        let last = members.last();
        members.update(
            members.len() - 1,
            MemberView { name: last.name, options: last.options, data: last.data + bytes },
        )
    }
}

} // verus!
