//! Tests of the byte codecs: authorship conversion, abbreviation,
//! decimal parsing, the extra/committer merge and patch application.

use cinnabar::authorship::{from_source_line, to_target_bytes};
use cinnabar::bytes::{join_with, sort_byte_vecs, split_all};
use cinnabar::changeset::merge_extra;
use cinnabar::errors::DumpError;
use cinnabar::hashes::{AbbrevHgObjectId, HgObjectId, ObjectId};
use cinnabar::index::{AbbrevSize, AbbrevSizeError};
use cinnabar::patch::{apply_patch, parse_patch, PatchEdit};

#[test]
fn author_line_splits_into_three_fields() {
    let parts = from_source_line(b"Who <a@b> 1234567890 +0200").unwrap();
    assert_eq!(parts.name, b"Who <a@b>".to_vec());
    assert_eq!(parts.timestamp, b"1234567890".to_vec());
    assert_eq!(parts.utcoffset, b"-7200".to_vec());
}

#[test]
fn author_offset_west_of_utc() {
    let parts = from_source_line(b"Who <a@b> 1 -0700").unwrap();
    assert_eq!(parts.utcoffset, b"25200".to_vec());
}

#[test]
fn author_offset_zero() {
    let parts = from_source_line(b"Who <a@b> 1 +0000").unwrap();
    assert_eq!(parts.utcoffset, b"0".to_vec());
    let parts = from_source_line(b"Who <a@b> 1 -0000").unwrap();
    assert_eq!(parts.utcoffset, b"0".to_vec());
}

#[test]
fn author_line_with_spaces_in_name() {
    let parts = from_source_line(b"Some One Else <s@o> 99 +0130").unwrap();
    assert_eq!(parts.name, b"Some One Else <s@o>".to_vec());
    assert_eq!(parts.timestamp, b"99".to_vec());
    assert_eq!(parts.utcoffset, b"-5400".to_vec());
}

#[test]
fn author_line_malformed() {
    assert!(from_source_line(b"nospace").is_none());
    assert!(from_source_line(b"one space").is_none());
    assert!(from_source_line(b"Who <a@b> 12x +0200").is_none());
    assert!(from_source_line(b"Who <a@b> 12 0200").is_none());
    assert!(from_source_line(b"Who <a@b> 12 +020").is_none());
}

#[test]
fn committer_reencoded_in_target_convention() {
    let v = to_target_bytes(b"Other <o@o> 111 +0100").unwrap();
    assert_eq!(v, b"Other <o@o> 111 -3600".to_vec());
}

#[test]
fn extra_committer_merge_sorts_between() {
    let merged = merge_extra(b"a:1\0z:9", b"committer:bob".to_vec());
    assert_eq!(merged, b"a:1\0committer:bob\0z:9".to_vec());
}

#[test]
fn extra_committer_merge_at_ends() {
    let merged = merge_extra(b"a:1\0b:2", b"committer:bob".to_vec());
    assert_eq!(merged, b"a:1\0b:2\0committer:bob".to_vec());
    let merged = merge_extra(b"x:1", b"committer:bob".to_vec());
    assert_eq!(merged, b"committer:bob\0x:1".to_vec());
}

#[test]
fn patch_application_with_cursor() {
    let edits = vec![
        PatchEdit { start: 2, end: 4, data: b"XY".to_vec() },
        PatchEdit { start: 6, end: 8, data: b"Z".to_vec() },
    ];
    let out = apply_patch(b"0123456789", &edits).unwrap();
    assert_eq!(out, b"01XY45Z89".to_vec());
}

#[test]
fn patch_rejects_impossible_offsets() {
    let edits = vec![PatchEdit { start: 4, end: 2, data: b"".to_vec() }];
    assert_eq!(apply_patch(b"0123456789", &edits), Err(DumpError::MalformedPatch));
    let edits = vec![PatchEdit { start: 2, end: 99, data: b"".to_vec() }];
    assert_eq!(apply_patch(b"0123456789", &edits), Err(DumpError::MalformedPatch));
    let edits = vec![
        PatchEdit { start: 4, end: 6, data: b"".to_vec() },
        PatchEdit { start: 2, end: 3, data: b"".to_vec() },
    ];
    assert_eq!(apply_patch(b"0123456789", &edits), Err(DumpError::MalformedPatch));
}

#[test]
fn patch_parsing_percent_decodes() {
    let edits = parse_patch(b"2,4,%41%42").unwrap();
    assert_eq!(edits.len(), 1);
    assert_eq!(edits[0].start, 2);
    assert_eq!(edits[0].end, 4);
    assert_eq!(edits[0].data, b"AB".to_vec());
}

#[test]
fn patch_parsing_passes_invalid_escapes_through() {
    let edits = parse_patch(b"0,0,a%2Cb%zz%").unwrap();
    assert_eq!(edits[0].data, b"a,b%zz%".to_vec());
}

#[test]
fn patch_parsing_rejects_malformed_fields() {
    assert_eq!(parse_patch(b"no-commas"), Err(DumpError::CorruptIndex));
    assert_eq!(parse_patch(b"1,x,data"), Err(DumpError::CorruptIndex));
    assert_eq!(parse_patch(b",2,data"), Err(DumpError::CorruptIndex));
}

#[test]
fn abbreviation_is_prefix_of_wider_rendering() {
    let id = HgObjectId::from_hex(b"0123456789abcdef0123456789abcdef01234567").unwrap();
    let short = id.abbreviate(3);
    let full = id.abbreviate(40);
    assert_eq!(short.len(), 3);
    assert_eq!(short, b"012".to_vec());
    assert_eq!(&full[..3], &short[..]);
    assert_eq!(full, b"0123456789abcdef0123456789abcdef01234567".to_vec());
}

#[test]
fn abbrev_id_display_width() {
    let a = AbbrevHgObjectId::from_hex(b"abc").unwrap();
    assert_eq!(a.hex_len, 3);
    assert_eq!(a.display_bytes(), b"abc".to_vec());
    assert!(AbbrevHgObjectId::from_hex(b"ab").is_none());
    assert!(AbbrevHgObjectId::from_hex(b"xyz").is_none());
}

#[test]
fn abbrev_size_range() {
    assert_eq!(AbbrevSize::from_decimal(b"12").unwrap().0, 12);
    assert_eq!(AbbrevSize::from_decimal(b"3").unwrap().0, 3);
    assert_eq!(AbbrevSize::from_decimal(b"40").unwrap().0, 40);
    assert!(matches!(AbbrevSize::from_decimal(b"2"), Err(AbbrevSizeError::TooSmall)));
    assert!(matches!(AbbrevSize::from_decimal(b"41"), Err(AbbrevSizeError::TooLarge)));
    assert!(matches!(AbbrevSize::from_decimal(b"abc"), Err(AbbrevSizeError::NotANumber)));
    assert!(matches!(AbbrevSize::from_decimal(b""), Err(AbbrevSizeError::NotANumber)));
}

#[test]
fn hex_round_trip() {
    let id = ObjectId::from_hex(b"00ff00FF00ff00ff00ff00ff00ff00ff00ff00ff").unwrap();
    assert_eq!(
        id.to_hex_bytes(),
        b"00ff00ff00ff00ff00ff00ff00ff00ff00ff00ff".to_vec()
    );
    assert!(ObjectId::from_hex(b"shorter").is_none());
    assert!(ObjectId::from_hex(b"zz345678901234567890123456789012345678zz").is_none());
}

#[test]
fn byte_list_sorting_and_joining() {
    let parts = split_all(b"b\0a\0c", 0);
    let sorted = sort_byte_vecs(parts);
    assert_eq!(join_with(&sorted, 0), b"a\0b\0c".to_vec());
}
