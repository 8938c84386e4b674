//! What goes into an archive: entries, their payloads, and the request that lists them.

use vstd::prelude::*;

verus! {

/// Where the bytes of one archive member come from.
#[derive(Debug, PartialEq, Eq)]
pub enum Payload {
    /// The member holds the UTF-8 encoding of this text.
    InlineText(String),
    /// The member holds the content of the file at this path, streamed in by the caller.
    SourceFile(String),
    /// The member is registered and left without content.
    Empty,
}

/// One archive member to be written: its name inside the archive and its payload.
#[derive(Debug, PartialEq, Eq)]
pub struct Entry {
    pub archive_path: String,
    pub payload: Payload,
}

/// One build: the file to create and the entries to write into it, in this order.
#[derive(Debug, PartialEq, Eq)]
pub struct ArchiveRequest {
    pub destination_path: String,
    pub entries: Vec<Entry>,
}

/// A [`Payload`] as a mathematical value.
pub enum PayloadView {
    InlineText(Seq<char>),
    SourceFile(Seq<char>),
    Empty,
}

/// An [`Entry`] as a mathematical value.
pub struct EntryView {
    pub archive_path: Seq<char>,
    pub payload: PayloadView,
}

/// An [`ArchiveRequest`] as a mathematical value.
pub struct RequestView {
    pub destination_path: Seq<char>,
    pub entries: Seq<EntryView>,
}

impl View for Payload {
    type V = PayloadView;

    open spec fn view(&self) -> PayloadView {
        match self {
            Payload::InlineText(text) => PayloadView::InlineText(text@),
            Payload::SourceFile(path) => PayloadView::SourceFile(path@),
            Payload::Empty => PayloadView::Empty,
        }
    }
}

impl View for Entry {
    type V = EntryView;

    open spec fn view(&self) -> EntryView {
        EntryView { archive_path: self.archive_path@, payload: self.payload@ }
    }
}

impl View for ArchiveRequest {
    type V = RequestView;

    open spec fn view(&self) -> RequestView {
        RequestView {
            destination_path: self.destination_path@,
            entries: Seq::new(self.entries@.len(), |i: int| self.entries@[i]@),
        }
    }
}

/// An entry as a caller fills it in: a path inside the archive and, at
/// most, one of inline text and the path of a source file.
#[derive(Debug, PartialEq, Eq)]
pub struct EntryParts {
    pub path: String,
    pub content: Option<String>,
    pub source_path: Option<String>,
}

/// Why parts do not make an entry.
#[derive(Debug, PartialEq, Eq)]
pub enum EntryError {
    /// The parts for `archive_path` hold both inline text and a source path,
    /// so that nothing says which of the two the member is to hold.
    BothPayloads { archive_path: String },
}

/// [`EntryParts`] as a mathematical value.
pub struct PartsView {
    pub path: Seq<char>,
    pub content: Option<Seq<char>>,
    pub source_path: Option<Seq<char>>,
}

/// An [`EntryError`] as a mathematical value.
pub enum EntryErrorView {
    BothPayloads { archive_path: Seq<char> },
}

/// `None` stays `None`; `Some` string becomes `Some` of its characters.
pub open spec fn text_view(text: Option<String>) -> Option<Seq<char>> {
    match text {
        Some(s) => Some(s@),
        None => None,
    }
}

impl View for EntryParts {
    type V = PartsView;

    open spec fn view(&self) -> PartsView {
        PartsView {
            path: self.path@,
            content: text_view(self.content),
            source_path: text_view(self.source_path),
        }
    }
}

impl View for EntryError {
    type V = EntryErrorView;

    open spec fn view(&self) -> EntryErrorView {
        match self {
            EntryError::BothPayloads { archive_path } => EntryErrorView::BothPayloads {
                archive_path: archive_path@,
            },
        }
    }
}

impl EntryErrorView {
    /// The single line shown to the user.
    pub open spec fn message(self) -> Seq<char> {
        match self {
            EntryErrorView::BothPayloads { archive_path } => "Entry "@ + archive_path
                + " has both content and a source path"@,
        }
    }
}

impl PartsView {
    /// Whether the parts hold both inline text and a source path.
    pub open spec fn conflicting(self) -> bool {
        self.content is Some && self.source_path is Some
    }

    /// The payload that parts with at most one of the two stand for; with
    /// neither, the member is left empty.
    pub open spec fn payload(self) -> PayloadView {
        match (self.content, self.source_path) {
            (Some(text), None) => PayloadView::InlineText(text),
            (None, Some(path)) => PayloadView::SourceFile(path),
            _ => PayloadView::Empty,
        }
    }

    /// The entry that the parts make, or why they make none: parts that
    /// hold both payloads are refused, and neither is picked for them.
    pub open spec fn entry(self) -> Result<EntryView, EntryErrorView> {
        if self.conflicting() {
            Err(EntryErrorView::BothPayloads { archive_path: self.path })
        } else {
            Ok(EntryView { archive_path: self.path, payload: self.payload() })
        }
    }
}

/// The position of the first parts in `parts` that hold both payloads, or
/// the length of `parts` where none do.
pub open spec fn first_conflict(parts: Seq<PartsView>) -> int
    decreases parts.len(),
{
    if parts.len() == 0 {
        0
    } else if parts[0].conflicting() {
        0
    } else {
        1 + first_conflict(parts.drop_first())
    }
}

/// What a `Result` of an entry holds, as mathematical values.
pub open spec fn entry_result_view(result: Result<Entry, EntryError>) -> Result<
    EntryView,
    EntryErrorView,
> {
    match result {
        Ok(entry) => Ok(entry@),
        Err(error) => Err(error@),
    }
}

impl EntryError {
    /// The message for this error, ready for display.
    pub fn message(&self) -> (text: String)
        ensures
            text@ == self@.message(),
    {
        match self {
            EntryError::BothPayloads { archive_path } => {
                let mut text = String::from_str("Entry ");
                text.append(archive_path.as_str());
                text.append(" has both content and a source path");
                text
            },
        }
    }
}

impl Entry {
    /// The entry that `parts` make. Parts with both inline text and a source
    /// path are refused; parts with neither make an entry without content.
    pub fn from_parts(parts: EntryParts) -> (result: Result<Entry, EntryError>)
        ensures
            entry_result_view(result) == parts@.entry(),
    {
        let EntryParts { path, content, source_path } = parts;
        match (content, source_path) {
            (Some(_), Some(_)) => Err(EntryError::BothPayloads { archive_path: path }),
            (Some(text), None) => Ok(Entry { archive_path: path, payload: Payload::InlineText(text) }),
            (None, Some(source)) => Ok(
                Entry { archive_path: path, payload: Payload::SourceFile(source) },
            ),
            (None, None) => Ok(Entry { archive_path: path, payload: Payload::Empty }),
        }
    }
}

/// The parts of a list, one by one as mathematical values.
pub open spec fn parts_view(parts: Seq<EntryParts>) -> Seq<PartsView> {
    Seq::new(parts.len(), |i: int| parts[i]@)
}

/// The request for `destination_path` that `parts` make, or why they make
/// none: the first parts that hold both payloads are refused, and with them
/// the whole request.
pub open spec fn request_of_parts(destination_path: Seq<char>, parts: Seq<PartsView>) -> Result<
    RequestView,
    EntryErrorView,
> {
    let at = first_conflict(parts);
    if at < parts.len() {
        Err(EntryErrorView::BothPayloads { archive_path: parts[at].path })
    } else {
        Ok(
            RequestView {
                destination_path,
                entries: Seq::new(
                    parts.len(),
                    |i: int| EntryView { archive_path: parts[i].path, payload: parts[i].payload() },
                ),
            },
        )
    }
}

/// What a `Result` of a request holds, as mathematical values.
pub open spec fn request_result_view(result: Result<ArchiveRequest, EntryError>) -> Result<
    RequestView,
    EntryErrorView,
> {
    match result {
        Ok(request) => Ok(request@),
        Err(error) => Err(error@),
    }
}

/// Where no parts before `at` hold both payloads, and those at `at` do or
/// `at` is the end, `at` is the first conflict.
proof fn lemma_first_conflict(parts: Seq<PartsView>, at: int)
    requires
        0 <= at <= parts.len(),
        forall|j: int| 0 <= j < at ==> !(#[trigger] parts[j]).conflicting(),
        at < parts.len() ==> parts[at].conflicting(),
    ensures
        first_conflict(parts) == at,
    decreases at,
{
    if at > 0 {
        let rest = parts.drop_first();
        assert forall|j: int| 0 <= j < at - 1 implies !(#[trigger] rest[j]).conflicting() by {
            assert(rest[j] == parts[j + 1]);
        }
        assert(at - 1 < rest.len() ==> rest[at - 1] == parts[at]);
        lemma_first_conflict(rest, at - 1);
    }
}

impl ArchiveRequest {
    /// The request to build `parts` into the file at `destination_path`.
    /// Parts that hold both payloads make the whole request invalid: nothing
    /// is built from it.
    pub fn from_parts(destination_path: String, parts: Vec<EntryParts>) -> (result: Result<
        ArchiveRequest,
        EntryError,
    >)
        ensures
            request_result_view(result) == request_of_parts(destination_path@, parts_view(parts@)),
    {
        let ghost given = parts_view(parts@);
        let mut entries: Vec<Entry> = Vec::new();
        for part in iter: parts
            invariant
                given == parts_view(parts@),
                iter.seq().len() == given.len(),
                forall|j: int| 0 <= j < given.len() ==> (#[trigger] iter.seq()[j])@ == given[j],
                entries@.len() == iter.index(),
                forall|j: int|
                    0 <= j < iter.index() ==> !(#[trigger] given[j]).conflicting() && entries@[j]@
                        == (EntryView { archive_path: given[j].path, payload: given[j].payload() }),
        {
            let ghost at = iter.index() as int;
            match Entry::from_parts(part) {
                Ok(entry) => {
                    entries.push(entry);
                },
                Err(error) => {
                    proof {
                        lemma_first_conflict(given, at);
                    }
                    return Err(error);
                },
            }
        }
        proof {
            lemma_first_conflict(given, given.len() as int);
        }
        let request = ArchiveRequest { destination_path, entries };
        assert(request@.entries =~= request_of_parts(destination_path@, given)->Ok_0.entries);
        Ok(request)
    }
}

/// The first conflict lies within the list or at its end; the parts there
/// hold both payloads, and no parts before it do.
proof fn lemma_first_conflict_is_first(parts: Seq<PartsView>)
    ensures
        0 <= first_conflict(parts) <= parts.len(),
        first_conflict(parts) < parts.len() ==> parts[first_conflict(parts)].conflicting(),
        forall|j: int| 0 <= j < first_conflict(parts) ==> !(#[trigger] parts[j]).conflicting(),
    decreases parts.len(),
{
    if parts.len() > 0 && !parts[0].conflicting() {
        let rest = parts.drop_first();
        lemma_first_conflict_is_first(rest);
        assert forall|j: int| 0 <= j < first_conflict(parts) implies !(#[trigger] parts[j]).conflicting() by {
            if j > 0 {
                assert(parts[j] == rest[j - 1]);
            }
        }
    }
}

/// A list in which any parts hold both inline text and a source path makes
/// no request: neither payload is picked for them, and nothing is built.
pub proof fn lemma_conflict_refuses_request(
    destination_path: Seq<char>,
    parts: Seq<PartsView>,
    at: int,
)
    requires
        0 <= at < parts.len(),
        parts[at].conflicting(),
    ensures
        request_of_parts(destination_path, parts) is Err,
{
    lemma_first_conflict_is_first(parts);
}

/// A list in which no parts hold both payloads makes a request with one
/// entry for each of the parts, in their order: inline text where the parts
/// hold text, a source file where they hold a source path, else no content.
pub proof fn lemma_request_keeps_parts(destination_path: Seq<char>, parts: Seq<PartsView>)
    requires
        forall|j: int| 0 <= j < parts.len() ==> !(#[trigger] parts[j]).conflicting(),
    ensures
        request_of_parts(destination_path, parts) is Ok,
        request_of_parts(destination_path, parts)->Ok_0.destination_path == destination_path,
        request_of_parts(destination_path, parts)->Ok_0.entries.len() == parts.len(),
        forall|j: int|
            0 <= j < parts.len() ==> Ok::<EntryView, EntryErrorView>(
                #[trigger] request_of_parts(destination_path, parts)->Ok_0.entries[j],
            ) == parts[j].entry(),
{
    lemma_first_conflict(parts, parts.len() as int);
}

} // verus!
