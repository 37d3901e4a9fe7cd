//! Timestamp and label formatting, outbound message bodies.

use tmz::compose::{build_file_message, is_image_ext, mime_for_ext, u64_to_string};
use tmz::render::{
    extract_date, extract_time, format_chat_type, format_date_label, format_time,
    format_time_short, parse_month_day, truncate,
};

#[test]
fn date_and_time_slices() {
    assert_eq!(extract_date("2026-02-17T13:43:00.933Z"), "2026-02-17");
    assert_eq!(extract_date("short"), "short");
    assert_eq!(format_time_short("2026-02-17T13:43:00.933Z"), "13:43");
    assert_eq!(format_time_short("tiny"), "tiny");
    assert_eq!(extract_time("2026-02-18T09:38:22.933Z"), "09:38");
    assert_eq!(extract_time("no separator"), "??:??");
}

#[test]
fn date_labels_spell_out_the_month() {
    assert_eq!(format_date_label("2026-02-17"), "February 17, 2026");
    assert_eq!(format_date_label("2026-09-03"), "September 3, 2026");
    assert_eq!(format_date_label("2026-13-01"), "2026-13-01");
    assert_eq!(format_date_label("not a date"), "not a date");
}

#[test]
fn month_day_is_right_aligned() {
    assert_eq!(parse_month_day("2026-02-17").unwrap(), "Feb 17");
    assert_eq!(parse_month_day("2026-02-07").unwrap(), "Feb  7");
    assert_eq!(parse_month_day("2026-00-07"), None);
    assert_eq!(parse_month_day("nope"), None);
}

#[test]
fn long_time_combines_month_day_and_clock() {
    assert_eq!(format_time("2026-02-17T13:43:00.933Z"), "Feb 17 13:43");
    assert_eq!(format_time("9999-99-99T13:43:00.933Z"), "9999-99-99 13:43");
    assert_eq!(format_time("short"), "short");
}

#[test]
fn chat_type_tags() {
    assert_eq!(format_chat_type("OneToOneChat"), "[1:1]");
    assert_eq!(format_chat_type("GroupChat"), "[group]");
    assert_eq!(format_chat_type("TeamsStandardChannel"), "[channel]");
    assert_eq!(format_chat_type("MeetingChat"), "[meeting]");
    assert_eq!(format_chat_type("anything"), "[chat]");
}

#[test]
fn truncate_marks_the_cut() {
    assert_eq!(truncate("short", 10), "short");
    assert_eq!(truncate("exactly-10", 10), "exactly-10");
    assert_eq!(truncate("much longer text", 8), "much lo...");
}

#[test]
fn decimal_formatting_is_exact() {
    assert_eq!(u64_to_string(0), "0");
    assert_eq!(u64_to_string(7), "7");
    assert_eq!(u64_to_string(4096), "4096");
    assert_eq!(u64_to_string(18_446_744_073_709_551_615), "18446744073709551615");
}

#[test]
fn file_message_embeds_name_and_size() {
    let (kind, body) = build_file_message("obj1", "https://api.asm.skype.com/v1/objects/obj1", "report.pdf", 4096, false);
    assert_eq!(kind, "RichText/Media_GenericFile");
    assert!(body.contains("<FileSize v=\"4096\"/>"));
    assert!(body.contains("<OriginalName v=\"report.pdf\"/>"));
    assert!(body.contains("docid=obj1"));
    let (ikind, ibody) = build_file_message("obj2", "u", "pic.png", 10, true);
    assert_eq!(ikind, "RichText/UriObject");
    assert!(ibody.contains("originalName=\"pic.png\""));
    assert!(!ibody.contains("FileSize"));
}

#[test]
fn extension_tables() {
    assert_eq!(mime_for_ext("png"), "image/png");
    assert_eq!(mime_for_ext("pdf"), "application/pdf");
    assert_eq!(mime_for_ext("weird"), "application/octet-stream");
    assert!(is_image_ext("jpeg"));
    assert!(!is_image_ext("pdf"));
}

#[test]
fn environment_prefix_is_uppercased() {
    assert_eq!(tmz::env_prefix(), "TMZ");
}
