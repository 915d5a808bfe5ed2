use twba_splitter::duration::{duration_to_string, Duration};
use twba_splitter::errors::SplitterError;
use twba_splitter::playlist::parse_playlist;

const THREE_PARTS: &str = "#EXTM3U\n#EXT-X-VERSION:3\n#EXT-X-MEDIA-SEQUENCE:0\n#EXT-X-ALLOW-CACHE:YES\n#EXT-X-TARGETDURATION:601\n#EXTINF:600.000000,\n000.mp4\n#EXTINF:600.500000,\n001.mp4\n#EXTINF:12.345678,\n002.mp4\n#EXT-X-ENDLIST\n";

#[test]
fn parses_every_entry_in_order() {
    let info = parse_playlist(THREE_PARTS).unwrap();
    assert_eq!(info.parts.len(), 3);
    let millis: Vec<u64> = info.parts.iter().map(|p| p.duration.millis).collect();
    assert_eq!(millis, vec![600_000, 600_500, 12_345]);
    let paths: Vec<&str> = info.parts.iter().map(|p| p.path.as_str()).collect();
    assert_eq!(paths, vec!["000.mp4", "001.mp4", "002.mp4"]);
    assert_eq!(info.total_duration.millis, 600_000 + 600_500 + 12_345);
}

#[test]
fn total_is_sum_to_the_millisecond() {
    let text = "#EXTINF:0.0019,\na.mp4\n#EXTINF:1.9999,\nb.mp4\n";
    let info = parse_playlist(text).unwrap();
    assert_eq!(info.parts[0].duration.millis, 1);
    assert_eq!(info.parts[1].duration.millis, 1999);
    assert_eq!(info.total_duration.millis, 2000);
}

#[test]
fn label_after_comma_is_ignored_and_path_trimmed() {
    let text = "#EXTINF: 4.25 ,some label\r\n  dir/part 1.mp4  \r\n";
    let info = parse_playlist(text).unwrap();
    assert_eq!(info.parts.len(), 1);
    assert_eq!(info.parts[0].duration.millis, 4250);
    assert_eq!(info.parts[0].path, "dir/part 1.mp4");
}

#[test]
fn empty_manifest_is_an_error() {
    assert_eq!(parse_playlist("").err(), Some(SplitterError::PlaylistEmpty));
}

#[test]
fn only_directives_is_empty_manifest() {
    let text = "#EXTM3U\n#EXT-X-VERSION:3\n#EXT-X-TARGETDURATION:10\n#EXT-X-SOMETHING\n#EXT-X-ENDLIST\n";
    assert_eq!(parse_playlist(text).err(), Some(SplitterError::PlaylistEmpty));
}

#[test]
fn extinf_without_path_gives_no_part() {
    let text = "#EXTINF:10.0,\n#EXT-X-ENDLIST\n000.mp4\n";
    assert_eq!(parse_playlist(text).err(), Some(SplitterError::PlaylistEmpty));
}

#[test]
fn non_numeric_duration_is_a_parse_error() {
    let text = "#EXTM3U\n#EXTINF:abc,\n000.mp4\n";
    assert_eq!(parse_playlist(text).err(), Some(SplitterError::PlaylistParse(1)));
}

#[test]
fn missing_duration_is_a_parse_error() {
    let text = "#EXTINF:,\n000.mp4\n";
    assert_eq!(parse_playlist(text).err(), Some(SplitterError::PlaylistParse(0)));
}

#[test]
fn duration_too_large_is_a_parse_error() {
    let text = "#EXTINF:99999999999999999999,\n000.mp4\n";
    assert_eq!(parse_playlist(text).err(), Some(SplitterError::PlaylistParse(0)));
}

#[test]
fn lines_after_endlist_are_ignored() {
    let text = "#EXTINF:1,\na.mp4\n#EXT-X-ENDLIST\n#EXTINF:2,\nb.mp4\n";
    let info = parse_playlist(text).unwrap();
    assert_eq!(info.parts.len(), 1);
    assert_eq!(info.total_duration.millis, 1000);
}

#[test]
fn plain_lines_without_pending_duration_are_ignored() {
    let text = "stray.mp4\n#EXTINF:.5,\nb.mp4\nother\n";
    let info = parse_playlist(text).unwrap();
    assert_eq!(info.parts.len(), 1);
    assert_eq!(info.parts[0].duration.millis, 500);
    assert_eq!(info.parts[0].path, "b.mp4");
}

#[test]
fn last_and_second_last_part() {
    let info = parse_playlist(THREE_PARTS).unwrap();
    assert_eq!(info.last_part().unwrap().path, "002.mp4");
    assert_eq!(info.second_last_part().unwrap().path, "001.mp4");
    let one = parse_playlist("#EXTINF:1,\na.mp4\n").unwrap();
    assert_eq!(one.last_part().unwrap().path, "a.mp4");
    assert!(one.second_last_part().is_none());
}

#[test]
fn duration_to_string_formats_hours_minutes_seconds() {
    assert_eq!(duration_to_string(&Duration::from_millis(20_000)), "00:00:20");
    assert_eq!(duration_to_string(&Duration::from_millis(3_723_999)), "01:02:03");
    assert_eq!(duration_to_string(&Duration::from_minutes(15).unwrap()), "00:15:00");
    assert_eq!(duration_to_string(&Duration::from_millis(360_000_000)), "100:00:00");
    assert_eq!(duration_to_string(&Duration::from_millis(0)), "00:00:00");
}

#[test]
fn duration_arithmetic() {
    assert_eq!(Duration::from_minutes(2).unwrap().millis, 120_000);
    assert!(Duration::from_minutes(u64::MAX).is_none());
    assert_eq!(Duration::from_millis(2500).num_seconds(), 2);
    let a = Duration::from_millis(u64::MAX);
    assert!(a.checked_add(&Duration::from_millis(1)).is_none());
    assert_eq!(Duration::from_millis(1).checked_add(&Duration::from_millis(2)).unwrap().millis, 3);
}
