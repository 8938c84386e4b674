//! The ways in which building an archive can fail, and the text shown for each.

use vstd::prelude::*;

verus! {

/// Why a build stopped. Every failure ends the build; nothing is retried or skipped.
#[derive(Debug, PartialEq, Eq)]
pub enum ArchiveError {
    /// The destination file could not be created or truncated.
    CreateError { path: String, cause: String },
    /// The archive writer refused to begin the member `archive_path`, as it
    /// does for a name that the archive holds already.
    MemberStartError { archive_path: String, cause: String },
    /// The file at `source_path` could not be opened for reading.
    SourceOpenError { source_path: String, cause: String },
    /// Reading `source_path`, or writing what was read into its member, failed.
    CopyError { source_path: String, cause: String },
    /// Writing the inline text of the member `archive_path` failed.
    WriteError { archive_path: String, cause: String },
    /// The central directory and footer could not be written.
    FinalizeError { cause: String },
    /// The build never ran to an answer: the worker it was handed to was lost.
    DispatchError { cause: String },
}

/// An [`ArchiveError`] as a mathematical value.
pub enum ErrorView {
    CreateError { path: Seq<char>, cause: Seq<char> },
    MemberStartError { archive_path: Seq<char>, cause: Seq<char> },
    SourceOpenError { source_path: Seq<char>, cause: Seq<char> },
    CopyError { source_path: Seq<char>, cause: Seq<char> },
    WriteError { archive_path: Seq<char>, cause: Seq<char> },
    FinalizeError { cause: Seq<char> },
    DispatchError { cause: Seq<char> },
}

impl ErrorView {
    /// The single line shown to the user: the kind of failure, the member or
    /// source file it concerns where there is one, and the underlying cause.
    pub open spec fn message(self) -> Seq<char> {
        match self {
            ErrorView::CreateError { cause, .. } => "Failed to create zip file: "@ + cause,
            ErrorView::MemberStartError { archive_path, cause } => "Zip error for "@ + archive_path
                + ": "@ + cause,
            ErrorView::SourceOpenError { source_path, cause } => "Failed to open source "@
                + source_path + ": "@ + cause,
            ErrorView::CopyError { source_path, cause } => "Failed to copy "@ + source_path + ": "@
                + cause,
            ErrorView::WriteError { archive_path, cause } => "Failed to write content for "@
                + archive_path + ": "@ + cause,
            ErrorView::FinalizeError { cause } => "Failed to finalize zip: "@ + cause,
            ErrorView::DispatchError { cause } => "Task join error: "@ + cause,
        }
    }
}

impl View for ArchiveError {
    type V = ErrorView;

    open spec fn view(&self) -> ErrorView {
        match self {
            ArchiveError::CreateError { path, cause } => ErrorView::CreateError {
                path: path@,
                cause: cause@,
            },
            ArchiveError::MemberStartError { archive_path, cause } => ErrorView::MemberStartError {
                archive_path: archive_path@,
                cause: cause@,
            },
            ArchiveError::SourceOpenError { source_path, cause } => ErrorView::SourceOpenError {
                source_path: source_path@,
                cause: cause@,
            },
            ArchiveError::CopyError { source_path, cause } => ErrorView::CopyError {
                source_path: source_path@,
                cause: cause@,
            },
            ArchiveError::WriteError { archive_path, cause } => ErrorView::WriteError {
                archive_path: archive_path@,
                cause: cause@,
            },
            ArchiveError::FinalizeError { cause } => ErrorView::FinalizeError { cause: cause@ },
            ArchiveError::DispatchError { cause } => ErrorView::DispatchError { cause: cause@ },
        }
    }
}

/// `head`, then `subject`, then a colon and a space, then `cause`.
fn labelled(head: &str, subject: &str, cause: &str) -> (text: String)
    ensures
        text@ == head@ + subject@ + ": "@ + cause@,
{
    let mut text = String::from_str(head);
    text.append(subject);
    text.append(": ");
    text.append(cause);
    text
}

impl ArchiveError {
    /// The message for this error, ready for display.
    pub fn message(&self) -> (text: String)
        ensures
            text@ == self@.message(),
    {
        match self {
            ArchiveError::CreateError { cause, .. } => {
                let mut text = String::from_str("Failed to create zip file: ");
                text.append(cause.as_str());
                text
            },
            ArchiveError::MemberStartError { archive_path, cause } => labelled(
                "Zip error for ",
                archive_path.as_str(),
                cause.as_str(),
            ),
            ArchiveError::SourceOpenError { source_path, cause } => labelled(
                "Failed to open source ",
                source_path.as_str(),
                cause.as_str(),
            ),
            ArchiveError::CopyError { source_path, cause } => labelled(
                "Failed to copy ",
                source_path.as_str(),
                cause.as_str(),
            ),
            ArchiveError::WriteError { archive_path, cause } => labelled(
                "Failed to write content for ",
                archive_path.as_str(),
                cause.as_str(),
            ),
            ArchiveError::FinalizeError { cause } => {
                let mut text = String::from_str("Failed to finalize zip: ");
                text.append(cause.as_str());
                text
            },
            ArchiveError::DispatchError { cause } => {
                let mut text = String::from_str("Task join error: ");
                text.append(cause.as_str());
                text
            },
        }
    }

    /// A copy of this error with the same paths and cause.
    pub fn duplicate(&self) -> (copy: ArchiveError)
        ensures
            copy@ == self@,
    {
        match self {
            ArchiveError::CreateError { path, cause } => ArchiveError::CreateError {
                path: path.clone(),
                cause: cause.clone(),
            },
            ArchiveError::MemberStartError { archive_path, cause } => {
                ArchiveError::MemberStartError {
                    archive_path: archive_path.clone(),
                    cause: cause.clone(),
                }
            },
            ArchiveError::SourceOpenError { source_path, cause } => ArchiveError::SourceOpenError {
                source_path: source_path.clone(),
                cause: cause.clone(),
            },
            ArchiveError::CopyError { source_path, cause } => ArchiveError::CopyError {
                source_path: source_path.clone(),
                cause: cause.clone(),
            },
            ArchiveError::WriteError { archive_path, cause } => ArchiveError::WriteError {
                archive_path: archive_path.clone(),
                cause: cause.clone(),
            },
            ArchiveError::FinalizeError { cause } => ArchiveError::FinalizeError {
                cause: cause.clone(),
            },
            ArchiveError::DispatchError { cause } => ArchiveError::DispatchError {
                cause: cause.clone(),
            },
        }
    }
}

/// The answer that the caller of a build gets, as a mathematical value.
pub open spec fn response_view(dispatched: Result<Result<(), ArchiveError>, String>) -> Result<
    (),
    Seq<char>,
> {
    match dispatched {
        Ok(Ok(())) => Ok(()),
        Ok(Err(error)) => Err(error@.message()),
        Err(cause) => Err(ErrorView::DispatchError { cause: cause@ }.message()),
    }
}

/// What a `Result<(), String>` holds, with the text as characters.
pub open spec fn answer_view(answer: Result<(), String>) -> Result<(), Seq<char>> {
    match answer {
        Ok(()) => Ok(()),
        Err(text) => Err(text@),
    }
}

/// The answer for the caller of a build: nothing on success, else one
/// message. `dispatched` is the result of the build where it ran, or, where
/// the worker that was to run it was lost, the cause of that.
pub fn response(dispatched: Result<Result<(), ArchiveError>, String>) -> (answer: Result<
    (),
    String,
>)
    ensures
        answer_view(answer) == response_view(dispatched),
{
    match dispatched {
        Ok(Ok(())) => Ok(()),
        Ok(Err(error)) => Err(error.message()),
        Err(cause) => Err(ArchiveError::DispatchError { cause }.message()),
    }
}

} // verus!
