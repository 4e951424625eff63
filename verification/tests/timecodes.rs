use ai_vid_editor::timecodes::{ass_time, edl_event, srt_time, youtube_time};

#[test]
fn srt_times() {
    assert_eq!(srt_time(0), "00:00:00,000");
    assert_eq!(srt_time(1_500), "00:00:01,500");
    assert_eq!(srt_time(3_723_004), "01:02:03,004");
    assert_eq!(srt_time(360_000_000), "100:00:00,000");
}

#[test]
fn youtube_times() {
    assert_eq!(youtube_time(0, 0, 0), "00:00");
    assert_eq!(youtube_time(0, 3, 5), "03:05");
    assert_eq!(youtube_time(1, 2, 3), "01:02:03");
}

#[test]
fn ass_times() {
    assert_eq!(ass_time(0, 1, 2, 5), "0:01:02.05");
    assert_eq!(ass_time(12, 0, 0, 99), "12:00:00.99");
}

#[test]
fn edl_events() {
    assert_eq!(
        edl_event(1, (0, 0, 1, 12), (0, 0, 5, 0), "talk.mp4"),
        "001  AX       V     C        00:00:01:12 00:00:05:00\n* FROM CLIP NAME: talk.mp4\n\n"
    );
    assert!(edl_event(1234, (0, 0, 0, 0), (0, 0, 0, 0), "x").starts_with("1234  AX"));
}
