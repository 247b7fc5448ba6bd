use dcinside_crawler::hangul;
use dcinside_crawler::norm;

#[test]
fn it_whitespace_less() {
    assert_eq!(hangul::whitespace_less("   가     나  다 라    ".to_string()), "가 나 다 라".to_string());
}

#[test]
fn lib_it_whitespace_less() {
    assert_eq!(norm::whitespace_less("   가     나  다 라    ".to_string()), "가 나 다 라".to_string());
}

#[test]
fn it_hangul_to_jamo() {
    assert_eq!(hangul::hangul_to_jamo("가힣 뷁 ab123킼ㄱㄴㄷ".to_string()), "ㄱㅏㅎㅣㅎ ㅂㅞㄺ ab123ㅋㅣㅋㄱㄴㄷ".to_string());
}

#[test]
fn it_derepeat() {
    assert_eq!(hangul::derepeat("아아아아아 음음음 호호호호 홀홀 ".to_string(), 3), "아아아 음음음 호호호 홀홀 ".to_string());
}

#[test]
fn lib_it_derepeat() {
    assert_eq!(norm::derepeat("아아아아아 음음음 호호호호 홀홀 ".to_string(), 3), "아아아 음음음 호호호 홀홀 ".to_string());
}

#[test]
fn whitespace_less_keeps_tabs_only_in_hangul_variant() {
    assert_eq!(hangul::whitespace_less("a \t\tb".to_string()), "a \t\tb".to_string());
    assert_eq!(norm::whitespace_less("a \t\tb".to_string()), "a b".to_string());
}

#[test]
fn derepeat_zero_drops_everything() {
    assert_eq!(hangul::derepeat("abc".to_string(), 0), "".to_string());
    assert_eq!(hangul::derepeat("".to_string(), 2), "".to_string());
}

#[test]
fn hangul_to_jamo_drops_nul() {
    assert_eq!(hangul::hangul_to_jamo("a\0b".to_string()), "ab".to_string());
}

#[test]
fn control_chars_replaces_symbols() {
    assert_eq!(hangul::control_chars("가힣#ㄱㅏz1()!?[]/ &".to_string(), "_"), "가힣_ㄱㅏz1()!?[]/ _".to_string());
    assert_eq!(hangul::control_chars("a:b<c>".to_string(), "_"), "a:b<c>".to_string());
    assert_eq!(norm::control_chars("a:b<c>".to_string(), "_"), "a_b_c_".to_string());
}

#[test]
fn normalize_applies_in_order() {
    let opts = hangul::Opts {
        input_file_path: None,
        output_file_path: None,
        hangul_to_jamo: true,
        control_chars: Some(" ".to_string()),
        repeat: Some(2),
        whitespace_less: true,
        verbose: 0,
    };
    assert_eq!(hangul::normalize("가가가##나".to_string(), &opts), "ㄱㅏㄱㅏ ㄴㅏ".to_string());
    let plain = norm::Opts {
        input_file_path: None,
        output_file_path: None,
        hangul_to_jamo: true,
        control_chars: None,
        repeat: Some(1),
        whitespace_less: false,
        verbose: 0,
    };
    assert_eq!(norm::normalize("aab".to_string(), &plain), "ab".to_string());
}

#[test]
fn encode_for_model_input() {
    assert_eq!(hangul::encode("가가가가가가  #!".to_string()), "ㄱㅏㄱㅏㄱㅏㄱㅏㄱㅏ _!".to_string());
}

#[test]
fn it_control_chars() {
    assert_eq!(hangul::control_chars("가힣#ㄱㅏz1()!?[]/ &".to_string(), "혠"), "가힣혠ㄱㅏz1()!?[]/ 혠".to_string());
}

#[test]
fn lib_it_control_chars() {
    assert_eq!(norm::control_chars("가힣#ㄱㅏz1()!?[]/ &".to_string(), "혠"), "가힣혠ㄱㅏz1()!?[]/ 혠".to_string());
}
