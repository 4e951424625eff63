use ai_vid_editor::concat::{
    chunk_concat_list, concat_failure_detail, concat_list, intro_outro_list, plan_chunk_join,
    ChunkJoin,
};

#[test]
fn concat_list_escapes_single_quotes() {
    let paths = vec!["/a/it's.mp4".to_string(), "/b/main.mp4".to_string()];
    assert_eq!(concat_list(&paths), "file '/a/it'\\''s.mp4'\nfile '/b/main.mp4'\n");
}

#[test]
fn chunk_list_escapes_line_breaks() {
    let paths = vec!["/t/chunk_0000.mp4".to_string(), "/t/we\nird\r'.mp4".to_string()];
    assert_eq!(
        chunk_concat_list(&paths),
        "file '/t/chunk_0000.mp4'\nfile '/t/we\\nird\\r'\\''.mp4'\n"
    );
}

#[test]
fn intro_outro_list_orders_files() {
    assert_eq!(intro_outro_list(None, "/m.mp4", None), None);
    assert_eq!(
        intro_outro_list(Some("/i.mp4"), "/m.mp4", Some("/o.mp4")),
        Some("file '/i.mp4'\nfile '/m.mp4'\nfile '/o.mp4'\n".to_string())
    );
    assert_eq!(
        intro_outro_list(None, "/m.mp4", Some("/o.mp4")),
        Some("file '/m.mp4'\nfile '/o.mp4'\n".to_string())
    );
}

#[test]
fn chunk_join_plan() {
    assert!(matches!(plan_chunk_join(&[]), ChunkJoin::NoChunks));
    assert!(matches!(plan_chunk_join(&["a".to_string()]), ChunkJoin::Single));
    match plan_chunk_join(&["a".to_string(), "b".to_string()]) {
        ChunkJoin::List(s) => assert_eq!(s, "file 'a'\nfile 'b'\n"),
        _ => panic!("expected a list"),
    }
}

#[test]
fn failure_detail_is_last_five_lines_reversed() {
    let stderr = "l1\nl2\nl3\nl4\nl5\nl6\nl7\n";
    assert_eq!(concat_failure_detail(stderr), "l7\nl6\nl5\nl4\nl3");
    assert_eq!(concat_failure_detail("only\r\n"), "only");
    assert_eq!(concat_failure_detail(""), "");
}
