use base64::Engine;
use gcp_auth::encoding::{push_base64url, push_decimal, push_form_encoded, push_json_string};
use gcp_auth::wire::{push_form, Field};

fn decimal(n: u64) -> String {
    let mut out = String::new();
    push_decimal(&mut out, n);
    out
}

fn json(text: &str) -> String {
    let mut out = String::new();
    push_json_string(&mut out, text);
    out
}

fn base64url(bytes: &[u8]) -> String {
    let mut out = String::new();
    push_base64url(&mut out, bytes);
    out
}

fn form(text: &str) -> String {
    let mut out = String::new();
    push_form_encoded(&mut out, text);
    out
}

#[test]
fn decimal_numerals() {
    assert_eq!(decimal(0), "0");
    assert_eq!(decimal(7), "7");
    assert_eq!(decimal(9), "9");
    assert_eq!(decimal(10), "10");
    assert_eq!(decimal(1_600_003_600), "1600003600");
    assert_eq!(decimal(u64::MAX), "18446744073709551615");
}

#[test]
fn decimal_appends_to_what_is_there() {
    let mut out = String::from("n=");
    push_decimal(&mut out, 305);
    assert_eq!(out, "n=305");
}

#[test]
fn json_string_of_plain_text() {
    assert_eq!(json(""), "\"\"");
    assert_eq!(json("robot@project.example"), "\"robot@project.example\"");
    assert_eq!(json("a b/c"), "\"a b/c\"");
    assert_eq!(json("caf\u{e9} \u{4e2d}\u{1f600}"), "\"caf\u{e9} \u{4e2d}\u{1f600}\"");
}

#[test]
fn json_string_escapes_quotes_solidus_and_controls() {
    assert_eq!(json("say \"hi\""), "\"say \\\"hi\\\"\"");
    assert_eq!(json("a\\b"), "\"a\\\\b\"");
    assert_eq!(json("line\nbreak"), "\"line\\u000Abreak\"");
    assert_eq!(json("\u{0}\u{1f}"), "\"\\u0000\\u001F\"");
    assert_eq!(json("\u{20}\u{7f}"), "\"\u{20}\u{7f}\"");
}

#[test]
fn json_string_reads_back_as_the_text() {
    for text in ["", "plain", "q\"s\\", "\t\r\n\u{8}\u{c}\u{1}", "\u{e9}\u{4e2d}\u{1f600}", "a\u{0}b"] {
        let parsed: serde_json::Value = serde_json::from_str(&json(text)).unwrap();
        assert_eq!(parsed.as_str(), Some(text));
    }
}

#[test]
fn base64url_of_known_texts() {
    assert_eq!(base64url(b""), "");
    assert_eq!(base64url(b"f"), "Zg");
    assert_eq!(base64url(b"fo"), "Zm8");
    assert_eq!(base64url(b"foo"), "Zm9v");
    assert_eq!(base64url(b"foob"), "Zm9vYg");
    assert_eq!(base64url(b"fooba"), "Zm9vYmE");
    assert_eq!(base64url(b"foobar"), "Zm9vYmFy");
    assert_eq!(base64url(&[0xfb, 0xff]), "-_8");
    assert_eq!(base64url(&[0xff, 0xff, 0xff]), "____");
    assert_eq!(base64url(&[0, 0, 0]), "AAAA");
    assert_eq!(base64url(b"{\"alg\":\"RS256\",\"typ\":\"JWT\"}"), "eyJhbGciOiJSUzI1NiIsInR5cCI6IkpXVCJ9");
}

#[test]
fn base64url_agrees_with_the_base64_crate() {
    let engine = base64::engine::general_purpose::URL_SAFE_NO_PAD;
    let mut bytes: Vec<u8> = Vec::new();
    for length in 0..300usize {
        assert_eq!(base64url(&bytes), engine.encode(&bytes), "length {}", length);
        bytes.push(((length * 37 + 11) % 256) as u8);
    }
    let all: Vec<u8> = (0..=255u8).collect();
    assert_eq!(base64url(&all), engine.encode(&all));
}

#[test]
fn form_encoding_of_known_texts() {
    assert_eq!(form(""), "");
    assert_eq!(form("AZaz09*-._"), "AZaz09*-._");
    assert_eq!(form("a b"), "a+b");
    assert_eq!(form("a+b"), "a%2Bb");
    assert_eq!(form("a,b"), "a%2Cb");
    assert_eq!(form("a=b&c"), "a%3Db%26c");
    assert_eq!(form("~/%"), "%7E%2F%25");
    assert_eq!(form("\u{e9}"), "%C3%A9");
    assert_eq!(form("\u{0}\n"), "%00%0A");
    assert_eq!(
        form("urn:ietf:params:oauth:grant-type:jwt-bearer"),
        "urn%3Aietf%3Aparams%3Aoauth%3Agrant-type%3Ajwt-bearer"
    );
}

#[test]
fn form_encoding_agrees_with_the_form_urlencoded_crate() {
    let mut text = String::new();
    for code in 0..0x250u32 {
        if let Some(c) = char::from_u32(code) {
            text.push(c);
        }
    }
    text.push('\u{1f600}');
    let expected: String = form_urlencoded::byte_serialize(text.as_bytes()).collect();
    assert_eq!(form(&text), expected);
}

#[test]
fn form_text_joins_fields() {
    let mut out = String::from("?");
    push_form(&mut out, &[]);
    assert_eq!(out, "?");
    push_form(&mut out, &[Field::new("a b", "1&2")]);
    assert_eq!(out, "?a+b=1%262");
    let mut body = String::new();
    push_form(&mut body, &[Field::new("x", "1"), Field::new("y", ""), Field::new("", "z")]);
    assert_eq!(body, "x=1&y=&=z");
    let expected: String = form_urlencoded::Serializer::new(String::new())
        .append_pair("x", "1")
        .append_pair("y", "")
        .append_pair("", "z")
        .finish();
    assert_eq!(body, expected);
}
