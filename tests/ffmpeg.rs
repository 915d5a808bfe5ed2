use twba_splitter::ffmpeg::{concat_args, split_args};

#[test]
fn split_arguments_in_order() {
    let args = split_args("/dl/v1.mp4", "/dl/v1/%03d.mp4", "/dl/v1/output.m3u8", "00:10:00");
    assert_eq!(
        args,
        vec![
            "-i", "/dl/v1.mp4", "-c", "copy", "-map", "0", "-segment_time", "00:10:00",
            "-reset_timestamps", "1", "-segment_list", "/dl/v1/output.m3u8",
            "-segment_list_type", "m3u8", "-avoid_negative_ts", "1", "-f", "segment",
            "/dl/v1/%03d.mp4",
        ]
    );
}

#[test]
fn concat_arguments_in_order() {
    let args = concat_args("/dl/v1/join.txt", "/dl/v1/join_out_tmp.mp4");
    assert_eq!(
        args,
        vec![
            "-f", "concat", "-safe", "0", "-i", "/dl/v1/join.txt", "-c", "copy",
            "/dl/v1/join_out_tmp.mp4",
        ]
    );
}
