use ai_vid_editor::analyzer::{silence_markers, SilenceMarker};

fn view(ms: &[SilenceMarker]) -> Vec<(bool, String)> {
    ms.iter()
        .map(|m| match m {
            SilenceMarker::Start(v) => (true, v.clone()),
            SilenceMarker::End(v) => (false, v.clone()),
        })
        .collect()
}

#[test]
fn silence_markers_from_ffmpeg_output() {
    let output = "[silencedetect @ 0x1] silence_start: 1.5\n\
                  [silencedetect @ 0x1] silence_end: 3.2 | silence_duration: 1.7\n\
                  frame=  100 fps=0.0\n\
                  [silencedetect @ 0x1] silence_start: 10\n\
                  [silencedetect @ 0x1] silence_end: 12.25 | silence_duration: 2.25\n";
    assert_eq!(
        view(&silence_markers(output)),
        vec![
            (true, "1.5".to_string()),
            (false, "3.2".to_string()),
            (true, "10".to_string()),
            (false, "12.25".to_string()),
        ]
    );
}

#[test]
fn silence_markers_empty_output() {
    assert!(silence_markers("").is_empty());
}

#[test]
fn silence_markers_keep_malformed_values_as_text() {
    let output = "silence_start: abc\nsilence_end:   7.0   \nsilence_end:\n";
    assert_eq!(
        view(&silence_markers(output)),
        vec![(true, "abc".to_string()), (false, "7.0".to_string()), (false, "".to_string())]
    );
}

#[test]
fn silence_markers_crlf_lines() {
    let output = "silence_start: 2.0\r\nsilence_end: 4.0 | silence_duration: 2.0\r\n";
    assert_eq!(
        view(&silence_markers(output)),
        vec![(true, "2.0".to_string()), (false, "4.0".to_string())]
    );
}

#[test]
fn silence_markers_ignore_unrelated_lines() {
    let output = "Input #0, mov\n  Duration: 00:01:00.00\nsize=N/A time=00:01:00.00\n";
    assert!(silence_markers(output).is_empty());
}

use ai_vid_editor::analyzer::{silence_step, SilenceEvent};

#[test]
fn silence_pairing_steps() {
    // a start becomes pending, an end closes it
    let (p, c) = silence_step(None, SilenceEvent::Start(Some(1.5f32)));
    assert_eq!((p, c), (Some(1.5), None));
    let (p, c) = silence_step(p, SilenceEvent::End(Some(3.0f32)));
    assert_eq!((p, c), (None, Some((1.5, 3.0))));
    // an end without a start gives nothing
    assert_eq!(silence_step(None, SilenceEvent::End(Some(2.0f32))), (None, None));
    // a start whose time is unreadable keeps the earlier start
    assert_eq!(silence_step(Some(1.0f32), SilenceEvent::Start(None)), (Some(1.0), None));
    // a later start replaces the pending one
    assert_eq!(silence_step(Some(1.0f32), SilenceEvent::Start(Some(4.0))), (Some(4.0), None));
    // an unreadable end still uses up the start
    assert_eq!(silence_step(Some(1.0f32), SilenceEvent::End(None)), (None, None));
}
