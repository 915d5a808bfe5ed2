use twba_splitter::duration::Duration;
use twba_splitter::errors::SplitterError;
use twba_splitter::merge::{
    combine_path_as_string, join_last_parts_if_needed, join_last_two_parts, join_list_text,
    part_paths,
};
use twba_splitter::playlist::{parse_playlist, PlaylistInfo};

fn manifest(seconds: &[&str]) -> PlaylistInfo {
    let mut text = String::from("#EXTM3U\n");
    for (i, s) in seconds.iter().enumerate() {
        text.push_str(&format!("#EXTINF:{},\n{:03}.mp4\n", s, i));
    }
    text.push_str("#EXT-X-ENDLIST\n");
    parse_playlist(&text).unwrap()
}

#[test]
fn no_merge_when_pair_exceeds_cap() {
    let mut info = manifest(&["600", "600", "600"]);
    let cap = Duration::from_minutes(15).unwrap();
    assert!(join_last_parts_if_needed(&mut info, &cap).is_none());
    assert_eq!(info.parts.len(), 3);
}

#[test]
fn merge_when_pair_fits_cap() {
    let mut info = manifest(&["600", "600", "120"]);
    let cap = Duration::from_minutes(15).unwrap();
    let files = join_last_parts_if_needed(&mut info, &cap).unwrap();
    assert_eq!(files.first, "001.mp4");
    assert_eq!(files.second, "002.mp4");
    assert_eq!(info.parts.len(), 2);
    assert_eq!(info.parts[1].duration.millis, 720_000);
    assert_eq!(info.parts[1].path, "001.mp4");
    assert_eq!(info.parts[0].path, "000.mp4");
    assert_eq!(info.total_duration.millis, 1_320_000);
}

#[test]
fn merge_at_exact_cap() {
    let mut info = manifest(&["600", "500", "400"]);
    let cap = Duration::from_millis(900_000);
    assert!(join_last_parts_if_needed(&mut info, &cap).is_some());
    assert_eq!(info.parts.len(), 2);
    assert_eq!(info.parts[1].duration.millis, 900_000);
}

#[test]
fn one_past_cap_is_no_merge() {
    let mut info = manifest(&["500", "400.001"]);
    let cap = Duration::from_millis(900_000);
    assert!(join_last_parts_if_needed(&mut info, &cap).is_none());
    assert_eq!(info.parts.len(), 2);
}

#[test]
fn single_part_is_never_merged() {
    let mut info = manifest(&["1"]);
    let cap = Duration::from_minutes(15).unwrap();
    assert!(join_last_parts_if_needed(&mut info, &cap).is_none());
    assert_eq!(info.parts.len(), 1);
}

#[test]
fn only_the_last_pair_merges_once() {
    let mut info = manifest(&["600", "10", "10", "10"]);
    let cap = Duration::from_minutes(15).unwrap();
    assert!(join_last_parts_if_needed(&mut info, &cap).is_some());
    let millis: Vec<u64> = info.parts.iter().map(|p| p.duration.millis).collect();
    assert_eq!(millis, vec![600_000, 10_000, 20_000]);
}

#[test]
fn join_of_one_part_is_refused() {
    let mut info = manifest(&["1"]);
    assert_eq!(
        join_last_two_parts(&mut info).err(),
        Some(SplitterError::JoinRequiresAtLeastTwoParts)
    );
    assert_eq!(info.parts.len(), 1);
}

#[test]
fn round_trip_without_merge_keeps_order_and_paths() {
    let mut info = manifest(&["600", "600", "600"]);
    let cap = Duration::from_minutes(15).unwrap();
    assert!(join_last_parts_if_needed(&mut info, &cap).is_none());
    let paths = part_paths(&info, "/data/v1");
    assert_eq!(paths, vec!["/data/v1/000.mp4", "/data/v1/001.mp4", "/data/v1/002.mp4"]);
}

#[test]
fn combine_path_follows_path_join() {
    assert_eq!(combine_path_as_string("/a/b", "c.mp4"), "/a/b/c.mp4");
    assert_eq!(combine_path_as_string("/a/b/", "c.mp4"), "/a/b/c.mp4");
    assert_eq!(combine_path_as_string("", "c.mp4"), "c.mp4");
    assert_eq!(combine_path_as_string("/a", "/abs/c.mp4"), "/abs/c.mp4");
}

#[test]
fn join_list_names_both_files_quoted() {
    assert_eq!(
        join_list_text("/x/001.mp4", "/x/002.mp4"),
        "file '/x/001.mp4'\nfile '/x/002.mp4'"
    );
}
