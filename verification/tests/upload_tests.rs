use elogbook::models::Attachment;
use elogbook::text::{decimal_text, hex_text, padded_text};
use elogbook::time::{timestamp_from_parts, timestamp_parts, Timestamp};
use elogbook::upload::{
    assemble_path, attachment_directory, attachment_id, compose_entry, content_type_or_default,
    digest_bytes, field_kind, file_name_or_default, new_attachment, saved_path, stamp_of, FieldKind, Stamp,
};

const NOV_2023: Timestamp = 1_700_000_000_000_000_000;

fn text(s: &str) -> String {
    s.to_string()
}

fn attachment(id: u32) -> Attachment {
    Attachment { id, saved_path: text("/p"), original_name: text("n"), mime: text("m") }
}

#[test]
fn decimal_is_what_display_writes() {
    for n in [0u64, 1, 9, 10, 11, 99, 100, 101, 12_345, 1_000_000, u32::MAX as u64, u64::MAX] {
        assert_eq!(decimal_text(n), n.to_string());
    }
    assert_eq!(decimal_text(0), "0");
    assert_eq!(decimal_text(907), "907");
    assert_eq!(decimal_text(u64::MAX), "18446744073709551615");
}

#[test]
fn padding_is_what_format_writes() {
    assert_eq!(padded_text(7, 2), "07");
    assert_eq!(padded_text(12, 2), "12");
    assert_eq!(padded_text(123, 2), "123");
    assert_eq!(padded_text(0, 4), "0000");
    assert_eq!(padded_text(2024, 4), "2024");
    assert_eq!(padded_text(33, 4), "0033");
    assert_eq!(padded_text(-5, 4), "-005");
    assert_eq!(padded_text(-12345, 4), "-12345");
    assert_eq!(padded_text(5, 0), "5");
    assert_eq!(padded_text(-1, 1), "-1");
    for n in [i64::MIN, -262143, -1000, -999, -1, 0, 1, 999, 1000, 9999, 10000, 262142, i64::MAX] {
        assert_eq!(padded_text(n, 4), format!("{:04}", n));
        assert_eq!(padded_text(n, 2), format!("{:02}", n));
        assert_eq!(padded_text(n, 25), format!("{:025}", n));
    }
}

#[test]
fn hex_has_two_small_digits_a_byte() {
    assert_eq!(hex_text(&vec![]), "");
    assert_eq!(hex_text(&vec![0]), "00");
    assert_eq!(hex_text(&vec![0x0f, 0xf0, 0xab, 0x09, 0xff]), "0ff0ab09ff");
    let all: Vec<u8> = (0..=255u8).collect();
    let expected: String = all.iter().map(|b| format!("{:02x}", b)).collect();
    assert_eq!(hex_text(&all), expected);
}

#[test]
fn timestamp_splits_into_seconds_and_nanoseconds() {
    assert_eq!(timestamp_parts(0), Some((0, 0)));
    assert_eq!(timestamp_parts(1_000_000_005), Some((1, 5)));
    assert_eq!(timestamp_parts(999_999_999), Some((0, 999_999_999)));
    assert_eq!(timestamp_parts(-1), Some((-1, 999_999_999)));
    assert_eq!(timestamp_parts(-1_000_000_000), Some((-1, 0)));
    assert_eq!(timestamp_parts(-1_000_000_001), Some((-2, 999_999_999)));
    assert_eq!(timestamp_parts(NOV_2023 + 123_456_789), Some((1_700_000_000, 123_456_789)));
    let last = i64::MAX as i128 * 1_000_000_000 + 999_999_999;
    assert_eq!(timestamp_parts(last), Some((i64::MAX, 999_999_999)));
    assert_eq!(timestamp_parts(last + 1), None);
    let first = i64::MIN as i128 * 1_000_000_000;
    assert_eq!(timestamp_parts(first), Some((i64::MIN, 0)));
    assert_eq!(timestamp_parts(first - 1), None);
    assert_eq!(timestamp_parts(Timestamp::MAX), None);
    assert_eq!(timestamp_parts(Timestamp::MIN), None);
    for t in [-3_000_000_007i128, -5, 0, 5, 86_400_000_000_001, NOV_2023] {
        let (secs, nanos) = timestamp_parts(t).unwrap();
        assert_eq!(timestamp_from_parts(secs, nanos), t);
    }
}

#[test]
fn stamp_tells_the_day_and_the_written_instant() {
    let stamp = stamp_of(NOV_2023).unwrap();
    assert_eq!(stamp.written, "2023-11-14T22:13:20+00:00");
    assert_eq!((stamp.year, stamp.month, stamp.day), (2023, 11, 14));

    let stamp = stamp_of(NOV_2023 + 123_456_789).unwrap();
    assert_eq!(stamp.written, "2023-11-14T22:13:20.123456789+00:00");

    let stamp = stamp_of(0).unwrap();
    assert_eq!(stamp.written, "1970-01-01T00:00:00+00:00");
    assert_eq!((stamp.year, stamp.month, stamp.day), (1970, 1, 1));

    let stamp = stamp_of(-1).unwrap();
    assert_eq!((stamp.year, stamp.month, stamp.day), (1969, 12, 31));

    let t = chrono::DateTime::from_timestamp(951_782_400, 0).unwrap();
    let stamp = stamp_of(951_782_400_000_000_000).unwrap();
    assert_eq!(stamp.written, t.to_rfc3339());
    assert_eq!((stamp.year, stamp.month, stamp.day), (2000, 2, 29));
}

#[test]
fn stamp_reaches_far_years() {
    let secs: i64 = 6_000_000_000_000;
    let t = chrono::DateTime::from_timestamp(secs, 7).unwrap();
    let stamp = stamp_of(secs as i128 * 1_000_000_000 + 7).unwrap();
    assert_eq!(stamp.written, t.to_rfc3339());
    assert!(stamp.written.starts_with("+1921"));
    assert_eq!(stamp.year, chrono::Datelike::year(&t));
    assert_eq!(stamp.month, chrono::Datelike::month(&t));
    assert_eq!(stamp.day, chrono::Datelike::day(&t));
    assert!(stamp.year > 190_000);
    assert_eq!(
        attachment_directory(stamp.year, stamp.month, stamp.day),
        format!("./attachments/{}/{:02}/{:02}", stamp.year, stamp.month, stamp.day)
    );

    let secs: i64 = -70_000_000_000;
    let t = chrono::DateTime::from_timestamp(secs, 0).unwrap();
    let before = stamp_of(secs as i128 * 1_000_000_000).unwrap();
    assert_eq!(before.written, t.to_rfc3339());
    assert_eq!(before.year, chrono::Datelike::year(&t));
    assert!(before.year < 0);
    assert_eq!(
        attachment_directory(before.year, before.month, before.day),
        format!("./attachments/{:04}/{:02}/{:02}", before.year, before.month, before.day)
    );
}

#[test]
fn stamp_is_refused_outside_the_calendar() {
    assert!(stamp_of(Timestamp::MAX).is_none());
    assert!(stamp_of(Timestamp::MIN).is_none());
    assert!(stamp_of(i64::MAX as i128 * 1_000_000_000).is_none());
    assert!(stamp_of(i64::MIN as i128 * 1_000_000_000).is_none());
}

#[test]
fn directory_is_named_after_the_day() {
    assert_eq!(attachment_directory(2024, 1, 2), "./attachments/2024/01/02");
    assert_eq!(attachment_directory(2023, 11, 14), "./attachments/2023/11/14");
    assert_eq!(attachment_directory(987, 12, 31), "./attachments/0987/12/31");
    assert_eq!(attachment_directory(12345, 6, 7), "./attachments/12345/06/07");
    assert_eq!(attachment_directory(-44, 3, 15), "./attachments/-044/03/15");
}

#[test]
fn digest_takes_instant_name_and_index() {
    let bytes = digest_bytes(&text("2023-11-14T22:13:20+00:00"), &text("photo.png"), 0);
    assert_eq!(bytes, b"2023-11-14T22:13:20+00:00photo.png0".to_vec());
    let bytes = digest_bytes(&text("T"), &text("é"), 120);
    assert_eq!(bytes, "Té120".as_bytes().to_vec());
    assert_eq!(digest_bytes(&text(""), &text(""), 0), b"0".to_vec());
}

#[test]
fn path_is_put_together_from_its_parts() {
    let dir = text("./attachments/2024/01/02");
    assert_eq!(assemble_path(&dir, &vec![0xde, 0xad], Some(text("png"))), "./attachments/2024/01/02/dead.png");
    assert_eq!(assemble_path(&dir, &vec![0xde, 0xad], None), "./attachments/2024/01/02/dead");
    assert_eq!(assemble_path(&text(""), &vec![], Some(text(""))), "/.");
    assert_eq!(assemble_path(&text("d"), &vec![1, 2, 3], Some(text("tar.gz"))), "d/010203.tar.gz");
}

#[test]
fn saved_path_hides_the_name_and_keeps_the_extension() {
    let stamp = stamp_of(NOV_2023).unwrap();
    assert_eq!(
        saved_path(&stamp, &text("photo.png"), 0),
        "./attachments/2023/11/14/c724ea5904751b67c4256cf2506e7e9ecf4b9acfb3bfa979018cefd9b9e6de63.png"
    );
    assert_eq!(
        saved_path(&stamp, &text("naïve été.JPG"), 1),
        "./attachments/2023/11/14/74c1bd92fcc6d02dd9bd7cabe442064e113d115860f690529fb261422ab36b18.JPG"
    );
    let stamp = stamp_of(NOV_2023 + 123_456_789).unwrap();
    assert_eq!(
        saved_path(&stamp, &text("tmpfile"), 2),
        "./attachments/2023/11/14/134f82adda15ef2869cd89097fd5d8b39f5590767177f922b10bc126bf826187"
    );
    let stamp = stamp_of(0).unwrap();
    assert_eq!(
        saved_path(&stamp, &text("archive.tar.gz"), 11),
        "./attachments/1970/01/01/3dd4c1559780ed3e64d4b5e3018fe6d4eec6acd9a9edede629e45b4b0cd6440e.gz"
    );
}

#[test]
fn saved_path_differs_by_index_and_name() {
    let stamp = stamp_of(NOV_2023).unwrap();
    let a = saved_path(&stamp, &text("photo.png"), 0);
    let b = saved_path(&stamp, &text("photo.png"), 1);
    let c = saved_path(&stamp, &text("photo2.png"), 0);
    assert_ne!(a, b);
    assert_ne!(a, c);
    assert_eq!(a, saved_path(&stamp, &text("photo.png"), 0));
}

#[test]
fn extension_is_that_of_the_last_path_component() {
    let stamp = Stamp { written: text("T"), year: 2024, month: 1, day: 2 };
    let ends_with = |name: &str, tail: &str| {
        let path = saved_path(&stamp, &text(name), 0);
        let file = path.rsplit('/').next().unwrap().to_string();
        assert_eq!(file.len(), 64 + tail.len(), "{}", name);
        assert!(file.ends_with(tail), "{}", name);
        assert!(path.starts_with("./attachments/2024/01/02/"));
    };
    ends_with("photo.png", ".png");
    ends_with("photo", "");
    ends_with(".bashrc", "");
    ends_with("a.b.c", ".c");
    ends_with("dir.d/file", "");
    ends_with("dir/file.TXT", ".TXT");
    ends_with("trailing.", ".");
    ends_with("", "");
}

#[test]
fn attachments_are_numbered_from_one() {
    assert_eq!(attachment_id(0), Some(1));
    assert_eq!(attachment_id(1), Some(2));
    assert_eq!(attachment_id(41), Some(42));
    assert_eq!(attachment_id(u32::MAX as usize - 1), Some(u32::MAX));
    assert_eq!(attachment_id(u32::MAX as usize), None);
    assert_eq!(attachment_id(usize::MAX), None);
}

#[test]
fn file_without_a_name_is_called_tmpfile() {
    assert_eq!(file_name_or_default(None), "tmpfile");
    assert_eq!(file_name_or_default(Some(text("photo.png"))), "photo.png");
    assert_eq!(file_name_or_default(Some(text(""))), "");
}

#[test]
fn file_without_a_type_is_taken_as_bytes() {
    assert_eq!(content_type_or_default(None), "application/octet-stream");
    assert_eq!(content_type_or_default(Some(text("image/png"))), "image/png");
}

#[test]
fn attachment_record_is_complete() {
    let stamp = stamp_of(NOV_2023).unwrap();
    let record = new_attachment(&stamp, text("photo.png"), text("image/png"), 0).unwrap();
    assert_eq!(record.id, 1);
    assert_eq!(
        record.saved_path,
        "./attachments/2023/11/14/c724ea5904751b67c4256cf2506e7e9ecf4b9acfb3bfa979018cefd9b9e6de63.png"
    );
    assert_eq!(record.original_name, "photo.png");
    assert_eq!(record.mime, "image/png");

    let third = new_attachment(&stamp, text("notes.txt"), text("text/plain"), 2).unwrap();
    assert_eq!(third.id, 3);
    assert_eq!(third.saved_path, saved_path(&stamp, &text("notes.txt"), 2));
    assert!(new_attachment(&stamp, text("x"), text("y"), u32::MAX as usize).is_none());
}

#[test]
fn form_fields_are_told_apart_by_name() {
    assert_eq!(field_kind(&text("content")), FieldKind::Content);
    assert_eq!(field_kind(&text("file")), FieldKind::File);
    assert_eq!(field_kind(&text("")), FieldKind::Other);
    assert_eq!(field_kind(&text("Content")), FieldKind::Other);
    assert_eq!(field_kind(&text("files")), FieldKind::Other);
    assert_eq!(field_kind(&text("log")), FieldKind::Other);
}

#[test]
fn blank_entry_is_refused() {
    assert!(compose_entry(text(""), NOV_2023, vec![]).is_none());
}

#[test]
fn entry_with_text_only_has_no_attachment_list() {
    let entry = compose_entry(text("rain"), NOV_2023, vec![]).unwrap();
    assert!(entry.id.is_none());
    assert_eq!(entry.content, "rain");
    assert_eq!(entry.created_at, NOV_2023);
    assert!(entry.attachments.is_none());
}

#[test]
fn entry_with_files_only_is_kept() {
    let entry = compose_entry(text(""), 5, vec![attachment(1), attachment(2)]).unwrap();
    assert_eq!(entry.content, "");
    assert_eq!(entry.created_at, 5);
    let list = entry.attachments.unwrap();
    assert_eq!(list.len(), 2);
    assert_eq!(list[0].id, 1);
    assert_eq!(list[1].id, 2);
}
