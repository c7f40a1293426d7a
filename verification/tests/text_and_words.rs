use language_processor_unit::config::Config;
use language_processor_unit::exception::{plain, wrapped, BaseException, Exception};
use language_processor_unit::text::{
    chars_of, decimal_string, lines_of, parse_u32_bytes, string_from_chars,
    trimmed_single_line, unescape_bytes,
};
use language_processor_unit::word::{from_be_bytes, to_be_bytes};

#[test]
fn words_round_trip() {
    assert_eq!(to_be_bytes(0x0102_0304), [1, 2, 3, 4]);
    assert_eq!(from_be_bytes([1, 2, 3, 4]), 0x0102_0304);
    for v in [0u32, 1, 255, 256, 65535, 16777216, u32::MAX] {
        assert_eq!(from_be_bytes(to_be_bytes(v)), v);
    }
}

#[test]
fn decimal_strings() {
    assert_eq!(decimal_string(0), "0");
    assert_eq!(decimal_string(1234), "1234");
    assert_eq!(decimal_string(u64::MAX), "18446744073709551615");
}

#[test]
fn parse_numbers() {
    assert_eq!(parse_u32_bytes(b"42"), Some(42));
    assert_eq!(parse_u32_bytes(b"4294967295"), Some(u32::MAX));
    assert_eq!(parse_u32_bytes(b"4294967296"), None);
    assert_eq!(parse_u32_bytes(b""), None);
    assert_eq!(parse_u32_bytes(b"4a"), None);
}

#[test]
fn lines_like_str_lines() {
    let text = "one\ntwo\r\n\nthree\n";
    let got: Vec<String> = lines_of(&chars_of(text))
        .iter()
        .map(|l| l.iter().collect())
        .collect();
    let expected: Vec<String> = text.lines().map(|l| l.to_string()).collect();
    assert_eq!(got, expected);
    assert!(lines_of(&[]).is_empty());
}

#[test]
fn trimmed_single_line_text() {
    let t: String = trimmed_single_line(&chars_of("  a\nb  ")).iter().collect();
    assert_eq!(t, "ab");
}

#[test]
fn unescape_quotes() {
    assert_eq!(unescape_bytes(b"say \\\"hi\\\""), b"say \"hi\"".to_vec());
    assert_eq!(unescape_bytes(b"plain"), b"plain".to_vec());
}

#[test]
fn strings_from_characters() {
    assert_eq!(string_from_chars(&['a', 'é', 'z']), "aéz");
}

#[test]
fn exception_reads_with_its_causes() {
    let inner = Exception::Register(plain("register out of range"));
    let outer = Exception::Executor(wrapped("failed to read", inner));
    assert_eq!(
        outer.to_display_string(),
        "[] failed to read\n  Caused by: [] register out of range"
    );
    assert_eq!(outer.inner().message, "failed to read");
    let base: BaseException = outer.into_inner();
    assert!(base.inner_exception.is_some());
    let made = BaseException::caused_by("top".to_string(), Exception::Config(plain("x")));
    assert_eq!(made.message, "top");
    assert_eq!(made.location, "");
}

#[test]
fn config_copies() {
    let c = Config {
        text_model: "t".to_string(),
        embedding_model: "e".to_string(),
        debug_build: true,
        debug_run: false,
        debug_chat: true,
    };
    let d = c.duplicate();
    assert_eq!(d.text_model, "t");
    assert_eq!(d.embedding_model, "e");
    assert!(d.debug_build && !d.debug_run && d.debug_chat);
}

#[test]
fn base_exception_from_an_exception() {
    let e = Exception::Decoder(wrapped("outer", Exception::Memory(plain("inner"))));
    let base = BaseException::from(e);
    assert_eq!(base.message, "outer");
    assert_eq!(base.location, "");
    match base.inner_exception {
        Some(inner) => assert!(matches!(*inner, Exception::Memory(_))),
        None => panic!("the cause was lost"),
    }
}
