use clipper_studio::catalog::{envelope_flag_sql, envelope_insert_sql, envelope_query_sql};
use clipper_studio::clipper::merge_ass_text;
use clipper_studio::subtitle::{
    clip_ass, clip_base_ms, clip_relative_segments, clip_segments_query, clip_srt, SubtitleSegment,
};
use clipper_studio::text::{find_run, replace_first_chars, text_lines};

fn seg(id: i64, start_ms: i64, end_ms: i64, text: &str) -> SubtitleSegment {
    SubtitleSegment {
        id,
        video_id: 9,
        language: "zh".to_string(),
        start_ms,
        end_ms,
        text: text.to_string(),
        source: "asr".to_string(),
    }
}

fn chars(s: &str) -> Vec<char> {
    s.chars().collect()
}

#[test]
fn lines_split_like_str_lines() {
    let got: Vec<String> = text_lines("a\r\nb\n\nc\r")
        .into_iter()
        .map(|l| l.into_iter().collect())
        .collect();
    assert_eq!(got, vec!["a", "b", "", "c\r"]);
    let expected: Vec<&str> = "x\ny\n".lines().collect();
    let got2: Vec<String> = text_lines("x\ny\n").into_iter().map(|l| l.into_iter().collect()).collect();
    assert_eq!(got2, expected);
    assert!(text_lines("").is_empty());
}

#[test]
fn first_match_only_is_replaced() {
    assert_eq!(find_run(&chars("abcabc"), &chars("ca")), Some(2));
    assert_eq!(find_run(&chars("abc"), &chars("x")), None);
    let r = replace_first_chars(&chars("a,Default,b,Default,"), &chars(",Default,"), &chars(",Subtitle,"));
    assert_eq!(r.into_iter().collect::<String>(), "a,Subtitle,b,Default,");
}

#[test]
fn subtitle_dialogue_merged_into_danmaku_ass() {
    let danmaku = "[Script Info]\n[V4+ Styles]\nStyle: Danmaku,x\n[Events]\nDialogue: 0,d\n";
    let subtitle = "[Events]\r\nDialogue: 0,0:00:01.00,0:00:02.00,Default,,0,0,0,,hi\r\nComment: no\r\n";
    let merged = merge_ass_text(danmaku, subtitle, "Noto Sans CJK SC");
    let style = "Style: Subtitle,Noto Sans CJK SC,48,&H00FFFFFF,&H000000FF,&H00000000,&H80000000,-1,0,0,0,100,100,0,0,1,2,1,2,10,10,10,1\n";
    let expected = format!(
        "[Script Info]\n[V4+ Styles]\nStyle: Danmaku,x\n{}[Events]\nDialogue: 0,d\nDialogue: 0,0:00:01.00,0:00:02.00,Subtitle,,0,0,0,,hi\n",
        style
    );
    assert_eq!(merged, expected);
}

#[test]
fn existing_subtitle_style_is_not_added_again() {
    let danmaku = "Style: Subtitle,Arial\n[Events]\n";
    let merged = merge_ass_text(danmaku, "Dialogue: a,Default,b", "X");
    assert_eq!(merged, "Style: Subtitle,Arial\n[Events]\nDialogue: a,Subtitle,b\n");
    let no_events = merge_ass_text("plain", "", "X");
    assert_eq!(no_events, "plain");
}

#[test]
fn envelope_statements() {
    assert_eq!(
        envelope_insert_sql(3, 500, &vec![0x00, 0xab, 0x10, 0xff]),
        "INSERT OR REPLACE INTO audio_envelopes (video_id, window_ms, data) VALUES (3, 500, X'00ab10ff')"
    );
    assert_eq!(envelope_flag_sql(3), "UPDATE videos SET has_envelope = 1 WHERE id = 3");
    assert_eq!(envelope_query_sql(3), "SELECT data FROM audio_envelopes WHERE video_id = 3");
}

#[test]
fn clip_subtitles_are_clip_relative_and_clamped() {
    assert_eq!(clip_base_ms(&None), 0);
    assert_eq!(clip_base_ms(&Some("not a time".to_string())), 0);
    assert_eq!(
        clip_segments_query(9, 1000, 5000, 8000),
        "SELECT * FROM subtitle_segments WHERE video_id = 9 AND end_ms > 6000 AND start_ms < 9000 ORDER BY start_ms ASC"
    );
    let rows = vec![seg(1, 5500, 6500, "a"), seg(2, 8500, 9500, "b")];
    let rel = clip_relative_segments(&rows, 9, 1000, 5000, 8000);
    assert_eq!((rel[0].start_ms, rel[0].end_ms), (0, 500));
    assert_eq!((rel[1].start_ms, rel[1].end_ms), (2500, 3000));
    assert_eq!(rel[1].text, "b");
    let srt = clip_srt(&rel, 5000, 8000).unwrap();
    assert_eq!(
        srt,
        "1\n00:00:00,000 --> 00:00:00,500\na\n\n2\n00:00:02,500 --> 00:00:03,000\nb\n\n"
    );
    assert!(clip_srt(&[], 0, 1000).is_none());
    assert!(clip_ass(&[]).is_none());
    let ass = clip_ass(&rel).unwrap();
    assert!(ass.ends_with("Dialogue: 0,0:00:02.50,0:00:03.00,Default,,0,0,0,,b\n"));
}
