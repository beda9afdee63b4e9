use file_api::error::{error_number, FailureKind, IoFailure, UNKNOWN_ERROR_CODE};
use file_api::lines::LineIterator;
use file_api::parent::{fd_link_path, parent_entry};
use file_api::request::{
    create_dir_request, seek_target, MakeDirectionMode, SeekPos, SeekTarget,
};
use file_api::text::{checked_path, cut_file_name, Str};

fn failure(kind: FailureKind) -> IoFailure {
    IoFailure { kind, os_code: None }
}

fn text_of(r: Option<Str>) -> Option<(String, u32)> {
    r.map(|s| (s.str, s.len))
}

fn next_text(it: &mut LineIterator) -> Option<(String, u32)> {
    match it.next_line() {
        Ok(line) => text_of(line),
        Err(_) => panic!("unexpected failure"),
    }
}

#[test]
fn error_numbers_follow_the_table() {
    assert_eq!(error_number(&failure(FailureKind::NotFound)), 2);
    assert_eq!(error_number(&failure(FailureKind::PermissionDenied)), 13);
    assert_eq!(error_number(&failure(FailureKind::AlreadyExists)), 17);
    assert_eq!(error_number(&failure(FailureKind::InvalidInput)), 22);
    assert_eq!(error_number(&failure(FailureKind::InvalidData)), 61);
    assert_eq!(error_number(&failure(FailureKind::Other)), UNKNOWN_ERROR_CODE);
    assert_eq!(UNKNOWN_ERROR_CODE, 13900042);
}

#[test]
fn native_error_number_wins() {
    let e = IoFailure { kind: FailureKind::NotFound, os_code: Some(5) };
    assert_eq!(error_number(&e), 5);
    let e = IoFailure { kind: FailureKind::Other, os_code: Some(28) };
    assert_eq!(error_number(&e), 28);
    assert!(!e.is_unmapped());
    assert!(failure(FailureKind::Other).is_unmapped());
    assert!(!failure(FailureKind::NotFound).is_unmapped());
}

#[test]
fn lines_come_back_in_order_with_terminators() {
    let content = b"first line\nsecond\n\nlast without end".to_vec();
    let mut it = LineIterator::new(content);
    assert_eq!(next_text(&mut it), Some(("first line\n".to_string(), 11)));
    assert_eq!(next_text(&mut it), Some(("second\n".to_string(), 7)));
    assert_eq!(next_text(&mut it), Some(("\n".to_string(), 1)));
    assert_eq!(next_text(&mut it), Some(("last without end".to_string(), 16)));
    assert_eq!(next_text(&mut it), None);
    assert_eq!(next_text(&mut it), None);
}

#[test]
fn lines_join_to_the_contents() {
    let content = "alpha\r\nβeta\n\ngamma\n".as_bytes().to_vec();
    let mut it = LineIterator::new(content.clone());
    let mut joined = String::new();
    let mut count = 0;
    while let Some((line, len)) = next_text(&mut it) {
        assert_eq!(line.len() as u32, len);
        assert!(line.ends_with('\n'));
        joined.push_str(&line);
        count += 1;
    }
    assert_eq!(count, 4);
    assert_eq!(joined.as_bytes(), &content[..]);
}

#[test]
fn empty_file_has_no_first_line() {
    let mut it = LineIterator::new(Vec::new());
    assert_eq!(next_text(&mut it), None);
    assert_eq!(next_text(&mut it), None);
}

#[test]
fn multibyte_line_length_counts_bytes() {
    let mut it = LineIterator::new("héllo\n".as_bytes().to_vec());
    assert_eq!(next_text(&mut it), Some(("héllo\n".to_string(), 7)));
}

#[test]
fn invalid_line_is_invalid_data_and_is_consumed() {
    let mut it = LineIterator::new(vec![0xff, 0xfe, 10, 111, 107]);
    match it.next_line() {
        Err(e) => {
            assert_eq!(e, failure(FailureKind::InvalidData));
            assert_eq!(error_number(&e), 61);
        }
        Ok(_) => panic!("invalid UTF-8 was accepted"),
    }
    assert_eq!(next_text(&mut it), Some(("ok".to_string(), 2)));
    assert_eq!(next_text(&mut it), None);
}

#[test]
fn checked_path_decodes_or_refuses() {
    assert_eq!(checked_path(None), Err(failure(FailureKind::InvalidInput)));
    assert_eq!(checked_path(Some(&[0xc3, 0x28][..])), Err(failure(FailureKind::InvalidInput)));
    assert_eq!(checked_path(Some("/tmp/é".as_bytes())), Ok("/tmp/é".to_string()));
    assert_eq!(checked_path(Some(&b""[..])), Ok(String::new()));
}

#[test]
fn str_records_byte_length() {
    let s = Str::new("añb".to_string());
    assert_eq!(s.str, "añb");
    assert_eq!(s.len, 4);
    assert_eq!(Str::new(String::new()).len, 0);
}

#[test]
fn cut_removes_a_suffix() {
    assert_eq!(text_of(cut_file_name(b"hello.txt", 4)), Some(("hello".to_string(), 5)));
}

#[test]
fn cut_clamps_to_the_length() {
    assert_eq!(text_of(cut_file_name(b"ab", 10)), Some((String::new(), 0)));
    assert_eq!(text_of(cut_file_name(b"ab", usize::MAX)), Some((String::new(), 0)));
    assert_eq!(text_of(cut_file_name(b"", 3)), Some((String::new(), 0)));
}

#[test]
fn cut_of_nothing_keeps_the_path() {
    assert_eq!(text_of(cut_file_name(b"/data/a.txt", 0)), Some(("/data/a.txt".to_string(), 11)));
}

#[test]
fn cut_counts_characters_not_bytes() {
    let path = "日本語.txt".as_bytes();
    assert_eq!(text_of(cut_file_name(path, 4)), Some(("日本語".to_string(), 9)));
    assert_eq!(text_of(cut_file_name(path, 6)), Some(("日".to_string(), 3)));
}

#[test]
fn cut_refuses_invalid_text() {
    assert!(cut_file_name(&[0x61, 0xff, 0x62], 1).is_none());
}

#[test]
fn cut_refuses_a_kept_zero_byte() {
    assert!(cut_file_name(b"a\0bc", 1).is_none());
    assert_eq!(text_of(cut_file_name(b"ab\0", 1)), Some(("ab".to_string(), 2)));
}

#[test]
fn seek_targets() {
    assert_eq!(seek_target(0, SeekPos::Start), SeekTarget::Start(0));
    assert_eq!(seek_target(5, SeekPos::Start), SeekTarget::Start(5));
    assert_eq!(seek_target(-1, SeekPos::Start), SeekTarget::Start(u64::MAX));
    assert_eq!(seek_target(i64::MIN, SeekPos::Start), SeekTarget::Start(1u64 << 63));
    assert_eq!(seek_target(5, SeekPos::Current), SeekTarget::Current(5));
    assert_eq!(seek_target(-3, SeekPos::Current), SeekTarget::Current(-3));
    assert_eq!(seek_target(-7, SeekPos::End), SeekTarget::End(-7));
}

#[test]
fn directory_requests() {
    let r = create_dir_request(Some(&b"/tmp/a/b"[..]), MakeDirectionMode::Single).ok().unwrap();
    assert_eq!(r.path, "/tmp/a/b");
    assert!(!r.with_ancestors);
    let r = create_dir_request(Some(&b"/tmp/a/b"[..]), MakeDirectionMode::Multiple).ok().unwrap();
    assert!(r.with_ancestors);
    assert!(matches!(
        create_dir_request(None, MakeDirectionMode::Multiple),
        Err(e) if e == failure(FailureKind::InvalidInput)
    ));
    assert!(matches!(
        create_dir_request(Some(&[0x80][..]), MakeDirectionMode::Single),
        Err(e) if e == failure(FailureKind::InvalidInput)
    ));
}

#[test]
fn descriptor_link_paths() {
    assert_eq!(fd_link_path(5), "/proc/self/fd/5");
    assert_eq!(fd_link_path(0), "/proc/self/fd/0");
    assert_eq!(fd_link_path(1024), "/proc/self/fd/1024");
    assert_eq!(fd_link_path(-1), "/proc/self/fd/-1");
}

#[test]
fn parent_of_nested_path() {
    assert_eq!(text_of(parent_entry("/a/b/c")), Some(("/a/b".to_string(), 4)));
    assert_eq!(text_of(parent_entry("/a")), Some(("/".to_string(), 1)));
    assert_eq!(text_of(parent_entry("/données/x")), Some(("/données".to_string(), 9)));
}

#[test]
fn root_has_no_parent() {
    assert!(parent_entry("/").is_none());
    assert!(parent_entry("").is_none());
}
