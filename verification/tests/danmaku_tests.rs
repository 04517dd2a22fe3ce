use clipper_studio::danmaku_xml::{collect_d_elements, XmlStep};
use clipper_studio::danmaku::{danmaku_factory_args, danmaku_resolution, d_time_field};
use clipper_studio::danmaku::{compute_density, filter_danmaku_by_range, parse_d_element, render_bilibili_xml, DanmakuItem, DanmakuMode};
use clipper_studio::danmaku_xml::{bilibili_xml_elements, danmaku_from_elements, DElement};

/// The time field read as a float and scaled, as the application reads it.
fn float_time(params: &str) -> Option<i64> {
    let secs: f64 = d_time_field(params).parse().ok()?;
    Some((secs * 1000.0) as i64)
}

fn parse_d(params: &str, text: &str) -> Option<DanmakuItem> {
    parse_d_element(params, text, float_time(params))
}

fn timed(elements: &Vec<DElement>) -> Vec<DanmakuItem> {
    let times: Vec<Option<i64>> = elements.iter().map(|e| float_time(&e.params)).collect();
    danmaku_from_elements(elements, &times)
}

fn parse_bilibili_xml_str(xml: &str) -> Result<Vec<DanmakuItem>, String> {
    Ok(timed(&bilibili_xml_elements(xml)))
}

#[test]
fn test_parse_d_element() {
    let item = parse_d_element("1.5,1,25,16777215,1234567890,0,12345,0", "测试弹幕", float_time("1.5,1,25,16777215,1234567890,0,12345,0")).unwrap();
    assert_eq!(item.time_ms, 1500);
    assert_eq!(item.text, "测试弹幕");
    assert_eq!(item.mode, DanmakuMode::Scroll);
    assert_eq!(item.color, 16777215);
    assert_eq!(item.font_size, 25);
}

#[test]
fn test_parse_bottom_danmaku() {
    let item = parse_d_element("10.0,4,25,255,0,0,0,0", "底部弹幕", float_time("10.0,4,25,255,0,0,0,0")).unwrap();
    assert_eq!(item.mode, DanmakuMode::Bottom);
}

#[test]
fn test_parse_top_danmaku() {
    let item = parse_d_element("10.0,5,25,255,0,0,0,0", "顶部弹幕", float_time("10.0,5,25,255,0,0,0,0")).unwrap();
    assert_eq!(item.mode, DanmakuMode::Top);
}

#[test]
fn test_skip_special_danmaku() {
    assert!(parse_d_element("10.0,7,25,255,0,0,0,0", "特殊弹幕", float_time("10.0,7,25,255,0,0,0,0")).is_none());
    assert!(parse_d_element("10.0,9,25,255,0,0,0,0", "高级弹幕", float_time("10.0,9,25,255,0,0,0,0")).is_none());
}

fn item(t: i64, text: &str) -> DanmakuItem {
    DanmakuItem { time_ms: t, text: text.into(), mode: DanmakuMode::Scroll, color: 0, font_size: 25 }
}

#[test]
fn test_filter_danmaku_by_range() {
    let items = vec![item(500, "a"), item(1500, "b"), item(2500, "c"), item(3500, "d")];
    let filtered = filter_danmaku_by_range(&items, 1000, 3000);
    assert_eq!(filtered.len(), 2);
    assert_eq!(filtered[0].text, "b");
    assert_eq!(filtered[0].time_ms, 500);
    assert_eq!(filtered[1].text, "c");
    assert_eq!(filtered[1].time_ms, 1500);
}

#[test]
fn test_compute_density() {
    let items = vec![item(100, "a"), item(200, "b"), item(1500, "c")];
    let density = compute_density(&items, 3000, 1000);
    assert_eq!(density, vec![2, 1, 0]);
}

#[test]
fn density_edge_cases() {
    let items = vec![item(-500, "early"), item(2999, "late"), item(3000, "out")];
    assert_eq!(compute_density(&items, 3000, 1000), vec![1, 0, 1]);
    assert!(compute_density(&items, 0, 1000).is_empty());
    assert!(compute_density(&items, 1000, 0).is_empty());
    assert_eq!(compute_density(&items, 2500, 1000).len(), 3);
}

#[test]
fn d_element_defaults_and_errors() {
    let d = parse_d("2.25,2,x,y", "t").unwrap();
    assert_eq!(d.time_ms, 2250);
    assert_eq!(d.font_size, 25);
    assert_eq!(d.color, 0xFFFFFF);
    assert!(parse_d("1.0,1,25", "t").is_none());
    assert!(parse_d("abc,1,25,0", "t").is_none());
    assert!(parse_d("1.0,-1,25,0", "t").is_none());
    assert_eq!(parse_d("-0.0015,1,25,0", "t").unwrap().time_ms, -1);
    assert_eq!(parse_d(".5,1,25,0", "t").unwrap().time_ms, 500);
    assert_eq!(parse_d("99999999999999999999,1,25,0", "t").unwrap().time_ms, i64::MAX);
}

#[test]
fn test_parse_xml_str() {
    let xml = r#"<?xml version="1.0" encoding="utf-8"?>
<i>
<d p="0.5,1,25,16777215,1234567890,0,12345,0">第一条</d>
<d p="1.0,4,25,255,1234567890,0,12345,0">底部弹幕</d>
<d p="2.0,5,25,16711680,1234567890,0,12345,0">顶部弹幕</d>
</i>"#;
    let items = parse_bilibili_xml_str(xml).unwrap();
    assert_eq!(items.len(), 3);
    assert_eq!(items[0].text, "第一条");
    assert_eq!(items[1].mode, DanmakuMode::Bottom);
    assert_eq!(items[2].mode, DanmakuMode::Top);
}

#[test]
fn xml_items_sorted_stably_by_time() {
    let xml = r#"<i><d p="3,1,25,0">c</d><d p="1,1,25,0">a</d><d p="3,1,25,0">d</d><d p="1,1,25,0">b</d><d p="9,7,25,0">special</d></i>"#;
    let items = parse_bilibili_xml_str(xml).unwrap();
    let texts: Vec<&str> = items.iter().map(|d| d.text.as_str()).collect();
    assert_eq!(texts, vec!["a", "b", "c", "d"]);
}

#[test]
fn test_write_bilibili_xml() {
    let items = vec![
        DanmakuItem { time_ms: 1000, text: "hello".into(), mode: DanmakuMode::Scroll, color: 16777215, font_size: 25 },
        DanmakuItem { time_ms: 2000, text: "<test>&".into(), mode: DanmakuMode::Top, color: 255, font_size: 30 },
    ];
    let content = render_bilibili_xml(&items);
    assert!(content.contains("<d p=\"1.000,1,25,16777215,0,0,0,0\">hello</d>"));
    assert!(content.contains("<d p=\"2.000,5,30,255,0,0,0,0\">&lt;test&gt;&amp;</d>"));
}

#[test]
fn test_write_read_roundtrip() {
    let items = vec![
        DanmakuItem { time_ms: 1000, text: "你好".into(), mode: DanmakuMode::Scroll, color: 16777215, font_size: 25 },
        DanmakuItem { time_ms: 2000, text: "世界".into(), mode: DanmakuMode::Top, color: 255, font_size: 30 },
        DanmakuItem { time_ms: 3000, text: "底部".into(), mode: DanmakuMode::Bottom, color: 16711680, font_size: 25 },
    ];
    let parsed = parse_bilibili_xml_str(&render_bilibili_xml(&items)).unwrap();
    assert_eq!(parsed.len(), 3);
    assert_eq!(parsed[0].text, "你好");
    assert_eq!(parsed[0].mode, DanmakuMode::Scroll);
    assert_eq!(parsed[1].mode, DanmakuMode::Top);
    assert_eq!(parsed[2].mode, DanmakuMode::Bottom);
    assert_eq!(parsed[2].color, 16711680);
}

#[test]
fn test_xml_escape_roundtrip() {
    let items = vec![DanmakuItem {
        time_ms: 500,
        text: "<script>&alert(\"xss\")</script>".into(),
        mode: DanmakuMode::Scroll,
        color: 0,
        font_size: 25,
    }];
    let parsed = parse_bilibili_xml_str(&render_bilibili_xml(&items)).unwrap();
    assert_eq!(parsed.len(), 1);
    assert_eq!(parsed[0].text, "<script>&alert(\"xss\")</script>");
}

#[test]
fn negative_times_render_with_sign() {
    let items = vec![item(-1500, "n")];
    assert!(render_bilibili_xml(&items).contains("<d p=\"-1.500,1,25,0,0,0,0,0\">n</d>"));
}

#[test]
fn danmaku_factory_invocation() {
    assert_eq!(danmaku_resolution(1920, 1080, Some(1280), Some(720)), (1280, 720));
    assert_eq!(danmaku_resolution(1920, 1080, Some(0), Some(720)), (1920, 1080));
    assert_eq!(danmaku_resolution(1920, 1080, None, Some(720)), (1920, 1080));
    let args = danmaku_factory_args("/o.ass", "/i.xml", 1920, 1080, "12", 38, 180, -1);
    assert_eq!(
        args,
        vec![
            "-o", "ass", "/o.ass", "-i", "xml", "/i.xml", "-r", "1920x1080", "-s", "12", "-S", "38",
            "-O", "180", "-d", "-1", "--force"
        ]
    );
}

#[test]
fn reader_events_become_time_ordered_danmaku() {
    let d = |p: &str, t: &str| {
        vec![
            XmlStep::Start(b"d".to_vec(), vec![Some((b"p".to_vec(), p.as_bytes().to_vec()))]),
            XmlStep::Text(Some(t.to_string())),
            XmlStep::End(b"d".to_vec()),
        ]
    };
    let mut events = vec![XmlStep::Other];
    events.extend(d("2.5,1,25,255,0,0,0,0", " later "));
    events.extend(d("1.0,5,25,0,0,0,0,0", "first"));
    events.extend(d("0.5,7,25,0,0,0,0,0", "special"));
    events.push(XmlStep::Stop);
    events.extend(d("0.1,1,25,0,0,0,0,0", "after the end"));
    let items = timed(&collect_d_elements(&events));
    let got: Vec<(i64, String, DanmakuMode)> = items.iter().map(|i| (i.time_ms, i.text.clone(), i.mode)).collect();
    assert_eq!(
        got,
        vec![(1000, "first".to_string(), DanmakuMode::Top), (2500, "later".to_string(), DanmakuMode::Scroll)]
    );
}

#[test]
fn time_field_is_the_first_field() {
    assert_eq!(d_time_field("1.001,1,0,0"), "1.001");
    assert_eq!(d_time_field("abc"), "abc");
    assert_eq!(d_time_field(""), "");
    assert_eq!(float_time("1.001,1,0,0"), Some(1000));
}

#[test]
fn element_takes_the_given_time() {
    assert!(parse_d_element("1.0,1,25,0", "t", None).is_none());
    assert_eq!(parse_d_element("1.0,1,25,0", "t", Some(7)).unwrap().time_ms, 7);
    assert!(parse_d_element("1.0,1,25", "t", Some(7)).is_none());
    assert!(parse_d_element("1.0,6,25,0", "t", Some(7)).is_none());
}

#[test]
fn elements_keep_document_order_and_timed_ones_sort() {
    let xml = r#"<i><d p="3,1,25,0">c</d><d p="x,1,25,0">bad</d><d p="1,1,25,0"> a </d><d p="2">short</d><d p="1,1,25,0">   </d></i>"#;
    let els = bilibili_xml_elements(xml);
    let got: Vec<(&str, &str)> = els.iter().map(|e| (e.params.as_str(), e.text.as_str())).collect();
    assert_eq!(got, vec![("3,1,25,0", "c"), ("x,1,25,0", "bad"), ("1,1,25,0", "a"), ("2", "short")]);
    let items = danmaku_from_elements(&els, &vec![Some(3000), None, Some(1000), Some(5)]);
    let texts: Vec<&str> = items.iter().map(|d| d.text.as_str()).collect();
    assert_eq!(texts, vec!["a", "c"]);
}
