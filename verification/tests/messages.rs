use archive_export::entry::{ArchiveRequest, Entry, EntryError, EntryParts, Payload};
use archive_export::error::{response, ArchiveError};

fn s(text: &str) -> String {
    text.to_string()
}

#[test]
fn create_error_message() {
    let error = ArchiveError::CreateError { path: s("/no/dir/out.zip"), cause: s("No such file") };
    assert_eq!(error.message(), "Failed to create zip file: No such file");
}

#[test]
fn member_start_error_message() {
    let error = ArchiveError::MemberStartError { archive_path: s("a.txt"), cause: s("i/o error") };
    assert_eq!(error.message(), "Zip error for a.txt: i/o error");
}

#[test]
fn source_open_error_message() {
    let error = ArchiveError::SourceOpenError { source_path: s("/tmp/b.bin"), cause: s("denied") };
    assert_eq!(error.message(), "Failed to open source /tmp/b.bin: denied");
}

#[test]
fn copy_error_message() {
    let error = ArchiveError::CopyError { source_path: s("/tmp/b.bin"), cause: s("broken pipe") };
    assert_eq!(error.message(), "Failed to copy /tmp/b.bin: broken pipe");
}

#[test]
fn write_error_message() {
    let error = ArchiveError::WriteError { archive_path: s("a.txt"), cause: s("disk full") };
    assert_eq!(error.message(), "Failed to write content for a.txt: disk full");
}

#[test]
fn finalize_error_message() {
    let error = ArchiveError::FinalizeError { cause: s("cannot seek") };
    assert_eq!(error.message(), "Failed to finalize zip: cannot seek");
}

#[test]
fn dispatch_error_message() {
    let error = ArchiveError::DispatchError { cause: s("task 7 panicked") };
    assert_eq!(error.message(), "Task join error: task 7 panicked");
}

#[test]
fn message_with_empty_parts() {
    let error = ArchiveError::WriteError { archive_path: s(""), cause: s("") };
    assert_eq!(error.message(), "Failed to write content for : ");
}

#[test]
fn duplicate_keeps_kind_paths_and_cause() {
    let errors = vec![
        ArchiveError::CreateError { path: s("p"), cause: s("c") },
        ArchiveError::MemberStartError { archive_path: s("p"), cause: s("c") },
        ArchiveError::SourceOpenError { source_path: s("p"), cause: s("c") },
        ArchiveError::CopyError { source_path: s("p"), cause: s("c") },
        ArchiveError::WriteError { archive_path: s("p"), cause: s("c") },
        ArchiveError::FinalizeError { cause: s("c") },
        ArchiveError::DispatchError { cause: s("c") },
    ];
    for error in errors.iter() {
        assert_eq!(&error.duplicate(), error);
    }
    assert_ne!(
        ArchiveError::CopyError { source_path: s("p"), cause: s("c") }.duplicate(),
        ArchiveError::SourceOpenError { source_path: s("p"), cause: s("c") }
    );
}

fn parts(path: &str, content: Option<&str>, source_path: Option<&str>) -> EntryParts {
    EntryParts { path: s(path), content: content.map(s), source_path: source_path.map(s) }
}

#[test]
fn parts_with_content_only_are_inline_text() {
    let entry = Entry::from_parts(parts("a.txt", Some("hello"), None));
    assert_eq!(
        entry,
        Ok(Entry { archive_path: s("a.txt"), payload: Payload::InlineText(s("hello")) })
    );
}

#[test]
fn parts_with_source_only_are_a_source_file() {
    let entry = Entry::from_parts(parts("media/b.bin", None, Some("/tmp/b.bin")));
    assert_eq!(
        entry,
        Ok(Entry { archive_path: s("media/b.bin"), payload: Payload::SourceFile(s("/tmp/b.bin")) })
    );
}

#[test]
fn parts_with_both_are_refused() {
    let entry = Entry::from_parts(parts("x", Some("text"), Some("/src")));
    assert_eq!(entry, Err(EntryError::BothPayloads { archive_path: s("x") }));
}

#[test]
fn parts_with_both_are_refused_even_when_empty() {
    let entry = Entry::from_parts(parts("x", Some(""), Some("")));
    assert_eq!(entry, Err(EntryError::BothPayloads { archive_path: s("x") }));
}

#[test]
fn parts_with_neither_are_empty() {
    let entry = Entry::from_parts(parts("x", None, None));
    assert_eq!(entry, Ok(Entry { archive_path: s("x"), payload: Payload::Empty }));
}

#[test]
fn both_payloads_message() {
    let error = EntryError::BothPayloads { archive_path: s("media/b.bin") };
    assert_eq!(error.message(), "Entry media/b.bin has both content and a source path");
}

#[test]
fn request_from_parts_keeps_destination_and_order() {
    let request = ArchiveRequest::from_parts(
        s("/out/p.zip"),
        vec![
            parts("z", Some("1"), None),
            parts("a", None, Some("/src/a")),
            parts("m", None, None),
        ],
    );
    assert_eq!(
        request,
        Ok(ArchiveRequest {
            destination_path: s("/out/p.zip"),
            entries: vec![
                Entry { archive_path: s("z"), payload: Payload::InlineText(s("1")) },
                Entry { archive_path: s("a"), payload: Payload::SourceFile(s("/src/a")) },
                Entry { archive_path: s("m"), payload: Payload::Empty },
            ],
        })
    );
}

#[test]
fn request_from_no_parts_has_no_entries() {
    let request = ArchiveRequest::from_parts(s("/out/p.zip"), Vec::new());
    assert_eq!(request, Ok(ArchiveRequest { destination_path: s("/out/p.zip"), entries: vec![] }));
}

#[test]
fn request_from_parts_reports_the_first_conflict() {
    let request = ArchiveRequest::from_parts(
        s("/out/p.zip"),
        vec![
            parts("fine", Some("1"), None),
            parts("first", Some("t"), Some("/s")),
            parts("second", Some("u"), Some("/v")),
        ],
    );
    assert_eq!(request, Err(EntryError::BothPayloads { archive_path: s("first") }));
}

#[test]
fn request_from_parts_is_refused_for_a_conflict_in_the_last_place() {
    let request = ArchiveRequest::from_parts(
        s("/out/p.zip"),
        vec![parts("fine", None, None), parts("last", Some("t"), Some("/s"))],
    );
    assert_eq!(request, Err(EntryError::BothPayloads { archive_path: s("last") }));
}

#[test]
fn response_to_a_finished_build_is_empty() {
    assert_eq!(response(Ok(Ok(()))), Ok(()));
}

#[test]
fn response_to_a_failed_build_is_its_message() {
    let error = ArchiveError::SourceOpenError { source_path: s("/tmp/b.bin"), cause: s("denied") };
    assert_eq!(response(Ok(Err(error))), Err(s("Failed to open source /tmp/b.bin: denied")));
}

#[test]
fn response_to_a_lost_worker_is_a_dispatch_error() {
    assert_eq!(response(Err(s("task 3 was cancelled"))), Err(s("Task join error: task 3 was cancelled")));
}
