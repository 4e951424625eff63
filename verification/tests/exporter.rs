use ai_vid_editor::exporter::xml_escape;

#[test]
fn test_xml_escape_all_special_chars() {
    let input = "Tom & Jerry";
    assert_eq!(xml_escape(input), "Tom &amp; Jerry");
}

#[test]
fn test_xml_escape_angle_brackets() {
    let input = "<intro> and </outro>";
    assert_eq!(xml_escape(input), "&lt;intro&gt; and &lt;/outro&gt;");
}

#[test]
fn test_xml_escape_quotes() {
    let input = "He said \"hello\" and 'world'";
    let escaped = xml_escape(input);
    assert!(escaped.contains("&quot;"));
    assert!(escaped.contains("&apos;"));
    assert!(!escaped.contains('"'));
    assert!(!escaped.contains('\''));
}

#[test]
fn test_xml_escape_complete_roundtrip() {
    let input = "&<>\"'";
    let escaped = xml_escape(input);
    assert_eq!(escaped, "&amp;&lt;&gt;&quot;&apos;");
}

#[test]
fn test_xml_escape_no_special_chars() {
    let input = "Plain text without special chars";
    assert_eq!(xml_escape(input), input);
}

#[test]
fn xml_escape_does_not_double_escape_entities() {
    assert_eq!(xml_escape("&amp;"), "&amp;amp;");
    assert_eq!(xml_escape(""), "");
    assert_eq!(xml_escape("ünïcödé <b>"), "ünïcödé &lt;b&gt;");
}

use ai_vid_editor::exporter::{chapter_title, srt_entry};

#[test]
fn srt_entries() {
    assert_eq!(
        srt_entry(1, "00:00:00,000", "00:00:02,500", "  Hello world \n"),
        "1\n00:00:00,000 --> 00:00:02,500\nHello world\n\n"
    );
}

#[test]
fn chapter_titles() {
    let t = vec!["Welcome to".to_string(), "the show".to_string()];
    assert_eq!(chapter_title(&t), "Welcome to the show");
    let long = vec!["a".repeat(60)];
    assert_eq!(chapter_title(&long), "a".repeat(50));
    let lines = vec!["one\r\ntwo".to_string(), " three ".to_string()];
    assert_eq!(chapter_title(&lines), "one two  three");
    assert_eq!(chapter_title(&[]), "");
}

#[test]
fn xml_escape_decodes_back() {
    for s in ["Tom & Jerry", "&<>\"'", "&amp; already", "a<b>c", "", "plain"] {
        let e = xml_escape(s);
        let back = e
            .replace("&quot;", "\"")
            .replace("&apos;", "'")
            .replace("&lt;", "<")
            .replace("&gt;", ">")
            .replace("&amp;", "&");
        assert_eq!(back, s);
    }
}
