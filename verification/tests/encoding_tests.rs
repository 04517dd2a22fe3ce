use clipper_studio::encoding::{base64_encode, url_encode, utf8_bytes};

#[test]
fn utf8_matches_std() {
    for s in ["", "abc", "é", "弹幕", "😀", "a\u{7ff}\u{800}\u{ffff}\u{10000}"] {
        assert_eq!(utf8_bytes(s), s.as_bytes().to_vec());
    }
}

#[test]
fn base64_standard_alphabet_without_padding() {
    assert_eq!(base64_encode(""), "");
    assert_eq!(base64_encode("f"), "Zg");
    assert_eq!(base64_encode("fo"), "Zm8");
    assert_eq!(base64_encode("a"), "YQ");
    assert_eq!(base64_encode("ab"), "YWI");
    assert_eq!(base64_encode("Man"), "TWFu");
    assert_eq!(base64_encode("foo"), "Zm9v");
    assert_eq!(base64_encode("user:pass"), "dXNlcjpwYXNz");
    assert_eq!(base64_encode("用户"), "55So5oi3");
}

#[test]
fn base64_length_is_four_per_three_bytes_rounded_up() {
    for s in ["", "a", "ab", "abc", "abcd", "弹幕姬"] {
        let n = s.len();
        assert_eq!(base64_encode(s).len(), (4 * n + 2) / 3);
    }
}

#[test]
fn percent_encoding_keeps_unreserved() {
    assert_eq!(url_encode("abc-_.~XYZ019"), "abc-_.~XYZ019");
    assert_eq!(url_encode("a b/c"), "a%20b%2Fc");
    assert_eq!(url_encode("主播"), "%E4%B8%BB%E6%92%AD");
}
