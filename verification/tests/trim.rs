use ai_vid_editor::trim::{
    chunk_file_name, chunk_ranges, trim_chunk_dir, trim_chunks, trim_encode_args,
    TRIM_SEGMENTS_PER_CHUNK,
};

#[test]
fn software_encoder_arguments() {
    let args = trim_encode_args("in.mp4", "F", "libx264", "out.mp4");
    let expected: Vec<&str> = vec![
        "-i", "in.mp4", "-filter_complex", "F", "-map", "[outv]", "-map", "[outa]", "-c:v",
        "libx264", "-preset", "slow", "-crf", "20", "-c:a", "aac", "-b:a", "192k", "-ar", "48000",
        "-movflags", "+faststart", "-y", "out.mp4",
    ];
    assert_eq!(args, expected);
}

#[test]
fn hardware_encoder_arguments() {
    let args = trim_encode_args("in.mp4", "F", "h264_nvenc", "out.mp4");
    assert_eq!(&args[10..26], &[
        "-preset", "p7", "-rc:v", "vbr_hq", "-cq:v", "23", "-refs:v", "16", "-bf:v", "3",
        "-spatial_aq:v", "1", "-aq-strength:v", "8", "-coder:v", "cabac",
    ]);
    let amf = trim_encode_args("in.mp4", "F", "h264_amf", "out.mp4");
    assert_eq!(amf[11], "p7");
    let vaapi = trim_encode_args("in.mp4", "F", "h264_vaapi", "out.mp4");
    assert_eq!(vaapi[11], "slow");
}

#[test]
fn short_lists_are_one_chunk() {
    assert_eq!(trim_chunks(0), vec![]);
    assert_eq!(trim_chunks(1), vec![(0, 1)]);
    assert_eq!(trim_chunks(TRIM_SEGMENTS_PER_CHUNK), vec![(0, 48)]);
}

#[test]
fn long_lists_are_split() {
    assert_eq!(trim_chunks(49), vec![(0, 48), (48, 49)]);
    assert_eq!(trim_chunks(100), vec![(0, 48), (48, 96), (96, 100)]);
    assert_eq!(chunk_ranges(7, 3), vec![(0, 3), (3, 6), (6, 7)]);
}

#[test]
fn chunk_names() {
    assert_eq!(chunk_file_name(0), "chunk_0000.mp4");
    assert_eq!(chunk_file_name(42), "chunk_0042.mp4");
    assert_eq!(chunk_file_name(12345), "chunk_12345.mp4");
}

#[test]
fn chunk_dir_names() {
    assert_eq!(
        trim_chunk_dir("/out/talk.mp4", 255, 26),
        "/out/.agave-talk-ff-000000000000001a"
    );
    assert_eq!(
        trim_chunk_dir("talk.mp4", 1, u64::MAX as u128 + 1),
        ".agave-talk-1-10000000000000000"
    );
}
