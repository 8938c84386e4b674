use archive_export::entry::{ArchiveRequest, Entry, Payload};
use archive_export::error::ArchiveError;
use archive_export::member::{member_options, Compression, MemberOptions, MEMBER_MODE};
use archive_export::plan::{Action, Outcome, Plan};

fn text_entry(path: &str, text: &str) -> Entry {
    Entry { archive_path: path.to_string(), payload: Payload::InlineText(text.to_string()) }
}

fn source_entry(path: &str, source: &str) -> Entry {
    Entry { archive_path: path.to_string(), payload: Payload::SourceFile(source.to_string()) }
}

fn empty_entry(path: &str) -> Entry {
    Entry { archive_path: path.to_string(), payload: Payload::Empty }
}

fn request(entries: Vec<Entry>) -> ArchiveRequest {
    ArchiveRequest { destination_path: "/out/project.zip".to_string(), entries }
}

fn fixed() -> MemberOptions {
    MemberOptions { compression: Compression::Stored, unix_mode: 0o755, large_file: true }
}

/// Reports `times` operations in a row as completed.
fn complete(plan: &mut Plan, times: usize) {
    for _ in 0..times {
        plan.advance(Outcome::Completed);
    }
}

#[test]
fn member_options_are_store_only_with_mode_755_and_room_to_grow() {
    assert_eq!(MEMBER_MODE, 0o755);
    assert_eq!(MEMBER_MODE, 493);
    assert_eq!(member_options(), fixed());
    assert_eq!(member_options().compression, Compression::Stored);
    assert_eq!(member_options().unix_mode, 0o755);
    assert!(member_options().large_file);
}

#[test]
fn new_plan_asks_for_the_destination() {
    let plan = Plan::new(request(vec![text_entry("a.txt", "hello")]));
    assert_eq!(plan.action(), Action::CreateDestination { path: "/out/project.zip" });
    assert_eq!(plan.request().destination_path, "/out/project.zip");
    assert_eq!(plan.request().entries.len(), 1);
}

#[test]
fn action_does_not_move_the_plan() {
    let plan = Plan::new(request(vec![]));
    assert_eq!(plan.action(), plan.action());
    assert_eq!(plan.action(), Action::CreateDestination { path: "/out/project.zip" });
}

#[test]
fn empty_request_goes_from_creation_to_finalize() {
    let mut plan = Plan::new(request(vec![]));
    plan.advance(Outcome::Completed);
    assert_eq!(plan.action(), Action::Finalize);
    plan.advance(Outcome::Completed);
    assert_eq!(plan.action(), Action::Finished);
}

#[test]
fn inline_entry_is_started_then_written_in_one_call() {
    let mut plan = Plan::new(request(vec![text_entry("a.txt", "hello")]));
    plan.advance(Outcome::Completed);
    assert_eq!(plan.action(), Action::StartMember { name: "a.txt", options: fixed() });
    plan.advance(Outcome::Completed);
    assert_eq!(plan.action(), Action::WriteText { bytes: b"hello" });
    plan.advance(Outcome::Completed);
    assert_eq!(plan.action(), Action::Finalize);
    plan.advance(Outcome::Completed);
    assert_eq!(plan.action(), Action::Finished);
}

#[test]
fn inline_text_is_handed_over_as_utf8() {
    let mut plan = Plan::new(request(vec![text_entry("u.txt", "h\u{e9}llo \u{4e16}\u{754c}")]));
    complete(&mut plan, 2);
    let expected: [u8; 13] = [0x68, 0xc3, 0xa9, 0x6c, 0x6c, 0x6f, 0x20, 0xe4, 0xb8, 0x96, 0xe7, 0x95, 0x8c];
    assert_eq!(plan.action(), Action::WriteText { bytes: &expected });
}

#[test]
fn empty_inline_text_is_still_written() {
    let mut plan = Plan::new(request(vec![text_entry("e.txt", "")]));
    complete(&mut plan, 2);
    assert_eq!(plan.action(), Action::WriteText { bytes: b"" });
    plan.advance(Outcome::Completed);
    assert_eq!(plan.action(), Action::Finalize);
}

#[test]
fn entry_without_payload_gets_a_member_and_no_write() {
    let mut plan = Plan::new(request(vec![empty_entry("nothing"), text_entry("b.txt", "b")]));
    plan.advance(Outcome::Completed);
    assert_eq!(plan.action(), Action::StartMember { name: "nothing", options: fixed() });
    plan.advance(Outcome::Completed);
    assert_eq!(plan.action(), Action::StartMember { name: "b.txt", options: fixed() });
}

#[test]
fn last_entry_without_payload_leads_to_finalize() {
    let mut plan = Plan::new(request(vec![empty_entry("nothing")]));
    complete(&mut plan, 2);
    assert_eq!(plan.action(), Action::Finalize);
}

#[test]
fn source_entry_is_opened_read_and_written_chunk_by_chunk() {
    let mut plan = Plan::new(request(vec![source_entry("media/b.bin", "/tmp/b.bin")]));
    plan.advance(Outcome::Completed);
    assert_eq!(plan.action(), Action::StartMember { name: "media/b.bin", options: fixed() });
    plan.advance(Outcome::Completed);
    assert_eq!(plan.action(), Action::OpenSource { path: "/tmp/b.bin" });
    plan.advance(Outcome::Completed);
    assert_eq!(plan.action(), Action::ReadSource { path: "/tmp/b.bin" });
    plan.advance(Outcome::Read(vec![1, 2, 3]));
    assert_eq!(plan.action(), Action::WriteChunk { bytes: &[1, 2, 3] });
    plan.advance(Outcome::Completed);
    assert_eq!(plan.action(), Action::ReadSource { path: "/tmp/b.bin" });
    plan.advance(Outcome::Read(vec![4]));
    assert_eq!(plan.action(), Action::WriteChunk { bytes: &[4] });
    plan.advance(Outcome::Completed);
    assert_eq!(plan.action(), Action::ReadSource { path: "/tmp/b.bin" });
    plan.advance(Outcome::Read(Vec::new()));
    assert_eq!(plan.action(), Action::Finalize);
    plan.advance(Outcome::Completed);
    assert_eq!(plan.action(), Action::Finished);
}

#[test]
fn completed_read_means_end_of_source() {
    let mut plan = Plan::new(request(vec![source_entry("z", "/zero"), text_entry("t", "t")]));
    complete(&mut plan, 3);
    assert_eq!(plan.action(), Action::ReadSource { path: "/zero" });
    plan.advance(Outcome::Completed);
    assert_eq!(plan.action(), Action::StartMember { name: "t", options: fixed() });
}

#[test]
fn bytes_reported_for_another_operation_count_as_success() {
    let mut plan = Plan::new(request(vec![text_entry("a", "x")]));
    plan.advance(Outcome::Read(vec![9, 9]));
    assert_eq!(plan.action(), Action::StartMember { name: "a", options: fixed() });
    plan.advance(Outcome::Read(Vec::new()));
    assert_eq!(plan.action(), Action::WriteText { bytes: b"x" });
}

#[test]
fn entries_are_taken_in_input_order_not_sorted() {
    let mut plan = Plan::new(
        request(vec![text_entry("z.txt", "1"), text_entry("a.txt", "2"), text_entry("m.txt", "3")]),
    );
    plan.advance(Outcome::Completed);
    let mut names: Vec<String> = Vec::new();
    let mut texts: Vec<Vec<u8>> = Vec::new();
    loop {
        match plan.action() {
            Action::StartMember { name, .. } => names.push(name.to_string()),
            Action::WriteText { bytes } => texts.push(bytes.to_vec()),
            Action::Finalize => break,
            other => panic!("unexpected action {:?}", other),
        }
        plan.advance(Outcome::Completed);
    }
    assert_eq!(names, vec!["z.txt", "a.txt", "m.txt"]);
    assert_eq!(texts, vec![b"1".to_vec(), b"2".to_vec(), b"3".to_vec()]);
}

#[test]
fn duplicate_names_are_both_asked_for() {
    let mut plan = Plan::new(request(vec![text_entry("dup.txt", "one"), text_entry("dup.txt", "two")]));
    plan.advance(Outcome::Completed);
    assert_eq!(plan.action(), Action::StartMember { name: "dup.txt", options: fixed() });
    plan.advance(Outcome::Completed);
    assert_eq!(plan.action(), Action::WriteText { bytes: b"one" });
    plan.advance(Outcome::Completed);
    assert_eq!(plan.action(), Action::StartMember { name: "dup.txt", options: fixed() });
    plan.advance(Outcome::Completed);
    assert_eq!(plan.action(), Action::WriteText { bytes: b"two" });
    plan.advance(Outcome::Completed);
    assert_eq!(plan.action(), Action::Finalize);
}

#[test]
fn failed_creation_is_a_create_error_and_nothing_else_is_asked() {
    let mut plan = Plan::new(request(vec![text_entry("a.txt", "hello")]));
    plan.advance(Outcome::Failed("No such file or directory (os error 2)".to_string()));
    let expected = ArchiveError::CreateError {
        path: "/out/project.zip".to_string(),
        cause: "No such file or directory (os error 2)".to_string(),
    };
    assert_eq!(plan.action(), Action::Failed(&expected));
}

#[test]
fn failed_member_start_names_the_archive_path() {
    let mut plan = Plan::new(request(vec![text_entry("a.txt", "hello")]));
    plan.advance(Outcome::Completed);
    plan.advance(Outcome::Failed("refused".to_string()));
    let expected = ArchiveError::MemberStartError {
        archive_path: "a.txt".to_string(),
        cause: "refused".to_string(),
    };
    assert_eq!(plan.action(), Action::Failed(&expected));
}

#[test]
fn failed_text_write_is_a_write_error() {
    let mut plan = Plan::new(request(vec![text_entry("a.txt", "hello")]));
    complete(&mut plan, 2);
    plan.advance(Outcome::Failed("disk full".to_string()));
    let expected = ArchiveError::WriteError {
        archive_path: "a.txt".to_string(),
        cause: "disk full".to_string(),
    };
    assert_eq!(plan.action(), Action::Failed(&expected));
}

#[test]
fn failed_open_is_a_source_open_error_and_stops_before_later_entries() {
    let mut plan = Plan::new(
        request(vec![
            text_entry("first.txt", "1"),
            source_entry("second.bin", "/missing"),
            text_entry("third.txt", "3"),
        ]),
    );
    complete(&mut plan, 4);
    assert_eq!(plan.action(), Action::OpenSource { path: "/missing" });
    plan.advance(Outcome::Failed("not found".to_string()));
    let expected = ArchiveError::SourceOpenError {
        source_path: "/missing".to_string(),
        cause: "not found".to_string(),
    };
    assert_eq!(plan.action(), Action::Failed(&expected));
    plan.advance(Outcome::Completed);
    assert_eq!(plan.action(), Action::Failed(&expected));
}

#[test]
fn failed_read_is_a_copy_error() {
    let mut plan = Plan::new(request(vec![source_entry("b.bin", "/src/b.bin")]));
    complete(&mut plan, 3);
    plan.advance(Outcome::Read(vec![1]));
    plan.advance(Outcome::Completed);
    plan.advance(Outcome::Failed("interrupted".to_string()));
    let expected = ArchiveError::CopyError {
        source_path: "/src/b.bin".to_string(),
        cause: "interrupted".to_string(),
    };
    assert_eq!(plan.action(), Action::Failed(&expected));
}

#[test]
fn failed_chunk_write_is_a_copy_error() {
    let mut plan = Plan::new(request(vec![source_entry("b.bin", "/src/b.bin")]));
    complete(&mut plan, 3);
    plan.advance(Outcome::Read(vec![1, 2]));
    assert_eq!(plan.action(), Action::WriteChunk { bytes: &[1, 2] });
    plan.advance(Outcome::Failed("disk full".to_string()));
    let expected = ArchiveError::CopyError {
        source_path: "/src/b.bin".to_string(),
        cause: "disk full".to_string(),
    };
    assert_eq!(plan.action(), Action::Failed(&expected));
}

#[test]
fn failed_finalize_is_a_finalize_error() {
    let mut plan = Plan::new(request(vec![]));
    plan.advance(Outcome::Completed);
    plan.advance(Outcome::Failed("cannot flush".to_string()));
    let expected = ArchiveError::FinalizeError { cause: "cannot flush".to_string() };
    assert_eq!(plan.action(), Action::Failed(&expected));
}

#[test]
fn finished_plan_stays_finished() {
    let mut plan = Plan::new(request(vec![]));
    complete(&mut plan, 2);
    assert_eq!(plan.action(), Action::Finished);
    plan.advance(Outcome::Failed("late".to_string()));
    assert_eq!(plan.action(), Action::Finished);
    plan.advance(Outcome::Read(vec![1]));
    assert_eq!(plan.action(), Action::Finished);
}

#[test]
fn failed_plan_keeps_its_first_error() {
    let mut plan = Plan::new(request(vec![text_entry("a", "b")]));
    plan.advance(Outcome::Failed("first".to_string()));
    plan.advance(Outcome::Failed("second".to_string()));
    plan.advance(Outcome::Completed);
    let expected = ArchiveError::CreateError {
        path: "/out/project.zip".to_string(),
        cause: "first".to_string(),
    };
    assert_eq!(plan.action(), Action::Failed(&expected));
}

#[test]
fn build_without_sources_takes_two_operations_and_those_of_its_entries() {
    let mut plan = Plan::new(
        request(vec![text_entry("a", "1"), empty_entry("b"), text_entry("c", "")]),
    );
    // create, then 2 + 1 + 2 for the entries, then finalize
    complete(&mut plan, 6);
    assert_eq!(plan.action(), Action::Finalize);
    plan.advance(Outcome::Completed);
    assert_eq!(plan.action(), Action::Finished);
}

#[test]
fn build_is_not_finished_one_operation_early() {
    let mut plan = Plan::new(request(vec![text_entry("a", "1"), text_entry("b", "2")]));
    for done in 0..6 {
        assert_ne!(plan.action(), Action::Finished, "after {} operations", done);
        plan.advance(Outcome::Completed);
    }
    assert_eq!(plan.action(), Action::Finished);
}
