use ai_vid_editor::editor::{extract_loudnorm_stats, parse_loudnorm_stats, FfmpegEditor};
use ai_vid_editor::hwaccel::HwAccel;

fn is_finite_number(v: &String) -> bool {
    match v.parse::<f64>() {
        Ok(x) => x.is_finite(),
        Err(_) => false,
    }
}

#[test]
fn test_parse_loudnorm_stats() {
    let ffmpeg_output = r#"[Parsed_loudnorm_0 @ 0x7f6be8003740] 
{
	"input_i" : "-21.05",
	"input_tp" : "-18.06",
	"input_lra" : "0.00",
	"input_thresh" : "-31.05",
	"output_i" : "-14.04",
	"output_tp" : "-10.97",
	"output_lra" : "0.00",
	"output_thresh" : "-24.04",
	"normalization_type" : "dynamic",
	"target_offset" : "0.04"
}
[out#0/null @ 0x55b50aa50140] video:4KiB"#;

    let stats = parse_loudnorm_stats(ffmpeg_output, is_finite_number)
        .expect("should parse loudnorm stats");
    assert_eq!(stats.i, "-21.05");
    assert_eq!(stats.tp, "-18.06");
    assert_eq!(stats.lra, "0.00");
    assert_eq!(stats.thresh, "-31.05");
    assert_eq!(stats.offset, "0.04");
}

#[test]
fn test_parse_loudnorm_stats_minimal_output() {
    let ffmpeg_output = r#"{
	"input_i" : "-20.0",
	"input_tp" : "-1.0",
	"input_lra" : "0.0",
	"input_thresh" : "-20.0",
	"output_i" : "-20.0",
	"output_tp" : "-1.0",
	"input_lra" : "0.0",
	"output_thresh" : "-20.0",
	"normalization_type" : "dynamic",
	"target_offset" : "0.0"
}"#;
    let stats = parse_loudnorm_stats(ffmpeg_output, is_finite_number).expect("should parse");
    assert_eq!(stats.i, "-20.0");
    assert_eq!(stats.offset, "0.0");
}

#[test]
fn test_parse_loudnorm_stats_invalid_json() {
    let invalid_output = "not json at all";
    assert!(parse_loudnorm_stats(invalid_output, is_finite_number).is_none());
}

// ── Further cases ───────────────────────────────────────────────────────

#[test]
fn loudnorm_rejects_infinite_values() {
    let out = "{\n \"input_i\" : \"-inf\",\n \"input_tp\" : \"-1.0\",\n \"input_lra\" : \"0.0\",\n \"input_thresh\" : \"-70.0\",\n \"target_offset\" : \"0.0\"\n}";
    assert!(parse_loudnorm_stats(out, is_finite_number).is_none());
    // the text itself is still extracted
    let raw = extract_loudnorm_stats(out).expect("fields present");
    assert_eq!(raw.i, "-inf");
}

#[test]
fn loudnorm_rejects_empty_and_missing_values() {
    let empty = "{ \"input_i\" : \"\", \"input_tp\" : \"1\", \"input_lra\" : \"1\", \"input_thresh\" : \"1\", \"target_offset\" : \"1\" }";
    assert!(parse_loudnorm_stats(empty, is_finite_number).is_none());
    let missing = "{ \"input_i\" : \"1\", \"input_tp\" : \"1\" }";
    assert!(extract_loudnorm_stats(missing).is_none());
}

#[test]
fn loudnorm_unquoted_values_end_at_comma_newline_or_brace() {
    let out = "noise { \"input_i\" : -23.5 , \"input_tp\":-1\n, \"input_lra\" :  7}x , \"input_thresh\" : -33, \"target_offset\" : 0.5 } trailing";
    let raw = extract_loudnorm_stats(out).expect("fields present");
    assert_eq!(raw.i, "-23.5");
    assert_eq!(raw.tp, "-1");
    assert_eq!(raw.lra, "7");
    assert_eq!(raw.thresh, "-33");
    assert_eq!(raw.offset, "0.5");
    let stats = parse_loudnorm_stats(out, is_finite_number).expect("numbers");
    assert_eq!(stats.offset, "0.5");
}

#[test]
fn loudnorm_value_after_inner_brace_is_found() {
    // A '}' inside a quoted value does not end the block: the last '}' does.
    let out = "{ \"normalization_type\" : \"dyn}amic\", \"input_i\" : \"1\", \"input_tp\" : \"2\", \"input_lra\" : \"3\", \"input_thresh\" : \"4\", \"target_offset\" : \"5\" }";
    let stats = parse_loudnorm_stats(out, is_finite_number).expect("numbers");
    assert_eq!(stats.offset, "5");
}

#[test]
fn editor_construction() {
    assert_eq!(FfmpegEditor::new(HwAccel::Nvenc).hw_accel, HwAccel::Nvenc);
    assert_eq!(FfmpegEditor::default().hw_accel, HwAccel::Software);
}

use ai_vid_editor::editor::is_filler;

#[test]
fn filler_segments() {
    let words: Vec<String> = vec!["um".into(), "uh".into()];
    assert!(is_filler("Um, well", &words));
    assert!(is_filler("drums", &words));
    assert!(!is_filler("hello there", &words));
    assert!(!is_filler("anything", &[]));
}
