//! The argument lists of the encoder's two operations.

use crate::text::push_str;
use vstd::prelude::*;

verus! {

/// Splitting `input` by stream copy into parts named by `pattern`, of about
/// `segment_time` each, with timestamps reset per part, and an m3u8 manifest
/// written to `playlist`.
pub open spec fn split_args_of(
    input: Seq<char>,
    pattern: Seq<char>,
    playlist: Seq<char>,
    segment_time: Seq<char>,
) -> Seq<Seq<char>> {
    seq![
        "-i"@, input, "-c"@, "copy"@, "-map"@, "0"@, "-segment_time"@, segment_time,
        "-reset_timestamps"@, "1"@, "-segment_list"@, playlist, "-segment_list_type"@, "m3u8"@,
        "-avoid_negative_ts"@, "1"@, "-f"@, "segment"@, pattern,
    ]
}

/// Joining by stream copy the files that the concat list `list` names into
/// `output`.
pub open spec fn concat_args_of(list: Seq<char>, output: Seq<char>) -> Seq<Seq<char>> {
    seq!["-f"@, "concat"@, "-safe"@, "0"@, "-i"@, list, "-c"@, "copy"@, output]
}

fn owned(s: &str) -> (r: String)
    ensures
        r@ == s@,
{
    let mut r = String::new();
    push_str(&mut r, s);
    r
}

/// The encoder's arguments for a split.
pub fn split_args(input: &str, pattern: &str, playlist: &str, segment_time: &str) -> (r: Vec<
    String,
>)
    ensures
        r@.map_values(|a: String| a@) == split_args_of(input@, pattern@, playlist@, segment_time@),
{
    let mut v: Vec<String> = Vec::new();
    v.push(owned("-i"));
    v.push(owned(input));
    v.push(owned("-c"));
    v.push(owned("copy"));
    v.push(owned("-map"));
    v.push(owned("0"));
    v.push(owned("-segment_time"));
    v.push(owned(segment_time));
    v.push(owned("-reset_timestamps"));
    v.push(owned("1"));
    v.push(owned("-segment_list"));
    v.push(owned(playlist));
    v.push(owned("-segment_list_type"));
    v.push(owned("m3u8"));
    v.push(owned("-avoid_negative_ts"));
    v.push(owned("1"));
    v.push(owned("-f"));
    v.push(owned("segment"));
    v.push(owned(pattern));
    assert(v@.map_values(|a: String| a@) =~= split_args_of(
        input@,
        pattern@,
        playlist@,
        segment_time@,
    ));
    v
}

/// The encoder's arguments for joining two parts.
pub fn concat_args(list: &str, output: &str) -> (r: Vec<String>)
    ensures
        r@.map_values(|a: String| a@) == concat_args_of(list@, output@),
{
    let mut v: Vec<String> = Vec::new();
    v.push(owned("-f"));
    v.push(owned("concat"));
    v.push(owned("-safe"));
    v.push(owned("0"));
    v.push(owned("-i"));
    v.push(owned(list));
    v.push(owned("-c"));
    v.push(owned("copy"));
    v.push(owned(output));
    assert(v@.map_values(|a: String| a@) =~= concat_args_of(list@, output@));
    v
}

} // verus!
