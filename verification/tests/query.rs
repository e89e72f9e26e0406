use cbor_playground::query::{
    build_query, build_url, decode_component, encode_component, lookup, parse_query, read_params,
};
use cbor_playground::text::{chars_of, same_text};

fn pairs(items: &[(&str, &str)]) -> Vec<(String, String)> {
    items.iter().map(|(k, v)| (k.to_string(), v.to_string())).collect()
}

#[test]
fn unreserved_characters_stay() {
    assert_eq!(encode_component("AZaz09-._~"), "AZaz09-._~");
    assert_eq!(encode_component(""), "");
}

#[test]
fn everything_else_is_percent_escaped() {
    assert_eq!(encode_component("42(\"hi\")"), "42%28%22hi%22%29");
    assert_eq!(encode_component("a b+c&d=e"), "a%20b%2Bc%26d%3De");
    assert_eq!(encode_component("#?%/:"), "%23%3F%25%2F%3A");
    assert_eq!(encode_component("é😀"), "%C3%A9%F0%9F%98%80");
    assert_eq!(encode_component("\n\u{0}"), "%0A%00");
}

#[test]
fn component_decoding() {
    assert_eq!(decode_component("a+b%20c"), Some("a b c".to_string()));
    assert_eq!(decode_component("%C3%A9%c3%a9"), Some("éé".to_string()));
    assert_eq!(decode_component("é"), Some("é".to_string()));
    assert_eq!(decode_component(""), Some(String::new()));
    assert_eq!(decode_component("%2B%25"), Some("+%".to_string()));
}

#[test]
fn malformed_component_is_absent() {
    assert_eq!(decode_component("%"), None);
    assert_eq!(decode_component("%4"), None);
    assert_eq!(decode_component("%zz"), None);
    assert_eq!(decode_component("a%4g"), None);
    assert_eq!(decode_component("%ff"), None);
    assert_eq!(decode_component("%C3"), None);
    assert_eq!(decode_component("%ED%A0%80"), None);
}

#[test]
fn components_read_back() {
    for text in ["", "8301020f", "[1, 2, 15]", "42(\"hi\")", "a&b=c#d?e+f%20", "é 😀\n", "100%"] {
        assert_eq!(decode_component(&encode_component(text)), Some(text.to_string()), "text {:?}", text);
    }
}

#[test]
fn query_is_pairs_joined() {
    assert_eq!(build_query(&pairs(&[])), "");
    assert_eq!(build_query(&pairs(&[("type", "hex")])), "type=hex");
    assert_eq!(build_query(&pairs(&[("type", "hex"), ("value", "a b")])), "type=hex&value=a%20b");
    assert_eq!(build_query(&pairs(&[("", ""), ("a&b", "c=d")])), "=&a%26b=c%3Dd");
}

#[test]
fn query_parsing() {
    assert_eq!(parse_query(""), pairs(&[]));
    assert_eq!(parse_query("type=diag&value=%5B1%2C2%5D"), pairs(&[("type", "diag"), ("value", "[1,2]")]));
    assert_eq!(parse_query("a=b=c"), pairs(&[("a", "b=c")]));
    assert_eq!(
        parse_query("a&&b=1&=x&c=%zz&%zz=c&d&"),
        pairs(&[("a", ""), ("b", "1"), ("", "x"), ("d", "")])
    );
    assert_eq!(parse_query("&"), pairs(&[]));
    assert_eq!(parse_query("="), pairs(&[("", "")]));
}

#[test]
fn queries_read_back() {
    for list in [
        pairs(&[]),
        pairs(&[("type", "diag"), ("value", "42(\"hi\")")]),
        pairs(&[("", ""), ("", "")]),
        pairs(&[("a&b", "c=d"), ("é", "#?+ %"), ("x", "")]),
    ] {
        assert_eq!(parse_query(&build_query(&list)), list);
    }
}

#[test]
fn url_gets_its_query_replaced() {
    let link = pairs(&[("type", "hex"), ("value", "a b")]);
    assert_eq!(
        build_url("https://example.org/play/?old=1&x=2#frag", &link),
        "https://example.org/play/?type=hex&value=a%20b#frag"
    );
    assert_eq!(build_url("https://example.org/play/", &link), "https://example.org/play/?type=hex&value=a%20b");
    assert_eq!(build_url("https://example.org/#a?b", &link), "https://example.org/?type=hex&value=a%20b#a?b");
    assert_eq!(build_url("https://example.org/?x", &pairs(&[])), "https://example.org/");
    assert_eq!(build_url("https://example.org/?x#y", &pairs(&[])), "https://example.org/#y");
    assert_eq!(build_url("", &pairs(&[("a", "b")])), "?a=b");
}

#[test]
fn params_are_read_from_the_query_only() {
    assert_eq!(
        read_params("https://example.org/?type=hex&value=01#value=02"),
        pairs(&[("type", "hex"), ("value", "01")])
    );
    assert_eq!(read_params("https://example.org/#?type=hex"), pairs(&[]));
    assert_eq!(read_params("https://example.org/"), pairs(&[]));
    assert_eq!(read_params("https://example.org/?"), pairs(&[]));
    assert_eq!(read_params("https://example.org/?a=1?b"), pairs(&[("a", "1?b")]));
}

#[test]
fn built_urls_read_back() {
    for address in ["https://example.org/", "https://example.org/p?old=1#frag", "http://h/#f?x=1", ""] {
        for list in [pairs(&[]), pairs(&[("type", "diag"), ("value", "42(\"hi\")")]), pairs(&[("a#b", "c?d&e")])] {
            assert_eq!(read_params(&build_url(address, &list)), list, "address {:?}", address);
        }
    }
}

#[test]
fn lookup_finds_the_first() {
    let list = pairs(&[("type", "hex"), ("value", "01"), ("type", "diag")]);
    assert_eq!(lookup(&list, "type"), Some(&"hex".to_string()));
    assert_eq!(lookup(&list, "value"), Some(&"01".to_string()));
    assert_eq!(lookup(&list, "dark"), None);
    assert_eq!(lookup(&pairs(&[]), "type"), None);
}

#[test]
fn text_helpers() {
    assert_eq!(chars_of("aé😀"), vec!['a', 'é', '😀']);
    assert_eq!(chars_of(""), Vec::<char>::new());
    assert!(same_text("hex", "hex"));
    assert!(!same_text("hex", "hey"));
    assert!(!same_text("hex", "hexa"));
    assert!(same_text("", ""));
}
