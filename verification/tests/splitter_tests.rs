use clipper_studio::splitter::{merge_sentences, plan_segment, split_by_punctuation, Sentence, SegmentPlan};

fn sentence(text: &str, start: usize, end: usize) -> Sentence {
    Sentence { text: text.to_string(), char_start: start, char_end: end }
}

#[test]
fn punctuation_runs_end_sentences() {
    let s = split_by_punctuation("你好，，世界！再见");
    let got: Vec<(String, usize, usize)> =
        s.iter().map(|x| (x.text.clone(), x.char_start, x.char_end)).collect();
    assert_eq!(
        got,
        vec![
            ("你好，，".to_string(), 0, 4),
            ("世界！".to_string(), 4, 7),
            ("再见".to_string(), 7, 9)
        ]
    );
    assert!(split_by_punctuation("").is_empty());
    assert!(split_by_punctuation("  ").is_empty());
}

#[test]
fn sentences_pack_greedily() {
    let s = vec![sentence("ab,", 0, 3), sentence("cd,", 3, 6), sentence("efghij", 6, 12)];
    let g = merge_sentences(&s, 6);
    let spans: Vec<(usize, usize)> = g.iter().map(|x| (x.char_start, x.char_end)).collect();
    assert_eq!(spans, vec![(0, 6), (6, 12)]);
    let one = merge_sentences(&s, 100);
    assert_eq!(one.len(), 1);
    assert_eq!((one[0].char_start, one[0].char_end), (0, 12));
}

#[test]
fn test_no_split_when_disabled() {
    assert!(matches!(plan_segment("   ", 15), SegmentPlan::Skip));
    match plan_segment("你好世界，这是一个测试", 0) {
        SegmentPlan::Whole(t) => assert_eq!(t, "你好世界，这是一个测试"),
        _ => panic!("splitting is off"),
    }
    match plan_segment(" 你好世界，这是一个测试 ", 0) {
        SegmentPlan::Whole(t) => assert_eq!(t, "你好世界，这是一个测试"),
        _ => panic!("splitting is off"),
    }
}

#[test]
fn test_no_split_when_short() {
    match plan_segment("你好", 15) {
        SegmentPlan::Whole(t) => assert_eq!(t, "你好"),
        _ => panic!("short text"),
    }
}

#[test]
fn test_linear_interpolation_without_words() {
    match plan_segment("你好，世界！", 3) {
        SegmentPlan::Parts { char_count, groups, texts } => {
            assert_eq!(char_count, 6);
            let spans: Vec<(usize, usize)> = groups.iter().map(|g| (g.char_start, g.char_end)).collect();
            assert_eq!(spans, vec![(0, 3), (3, 6)]);
            assert_eq!(texts, vec!["你好，", "世界！"]);
        }
        _ => panic!("expected parts"),
    }
}

#[test]
fn test_split_by_punctuation() {
    let text = "效率，兄弟们，这把图的就是一个呃两个字，效率，效率还是效，哎，快快快快！";
    match plan_segment(text, 15) {
        SegmentPlan::Parts { texts, .. } => {
            assert!(texts.len() >= 2);
            assert_eq!(texts.concat(), text);
        }
        _ => panic!("expected parts"),
    }
}

#[test]
fn test_single_sentence_exceeds_max() {
    match plan_segment("这是一个没有标点符号的很长的句子", 5) {
        SegmentPlan::Parts { groups, texts, .. } => {
            assert_eq!(groups.len(), 1);
            assert_eq!(texts, vec!["这是一个没有标点符号的很长的句子"]);
        }
        _ => panic!("expected one part"),
    }
}

#[test]
fn long_sentence_stands_alone() {
    let s = vec![
        sentence("ab,", 0, 3),
        sentence("a very long sentence,", 3, 24),
        sentence("cd.", 24, 27),
        sentence("ef.", 27, 30),
    ];
    let g = merge_sentences(&s, 6);
    let spans: Vec<(usize, usize)> = g.iter().map(|x| (x.char_start, x.char_end)).collect();
    assert_eq!(spans, vec![(0, 3), (3, 24), (24, 30)]);
}
