use ingwe::query::{extract_query_param, url_decode};

#[test]
fn decodes_percent_escapes() {
    assert_eq!(url_decode("hello%20world"), "hello world");
    assert_eq!(url_decode("%41%42%43"), "ABC");
    assert_eq!(url_decode("%4a%4A"), "JJ");
}

#[test]
fn decodes_plus_as_space() {
    assert_eq!(url_decode("a+b+c"), "a b c");
    assert_eq!(url_decode("%2B"), "+");
}

#[test]
fn keeps_incomplete_or_invalid_escapes() {
    assert_eq!(url_decode("100%"), "100%");
    assert_eq!(url_decode("%4"), "%4");
    assert_eq!(url_decode("%zz"), "%zz");
    assert_eq!(url_decode("%%41"), "%A");
    assert_eq!(url_decode("%-5"), "%-5");
}

#[test]
fn accepts_a_sign_before_a_single_digit() {
    assert_eq!(url_decode("%+5"), "\u{5}");
    assert_eq!(url_decode("%+f!"), "\u{f}!");
}

#[test]
fn decodes_each_byte_as_one_character() {
    assert_eq!(url_decode("%e2%82%ac"), "\u{e2}\u{82}\u{ac}");
    assert_eq!(url_decode("é"), "\u{c3}\u{a9}");
    assert_eq!(url_decode(""), "");
}

#[test]
fn percent_escaping_then_decoding_gives_the_bytes_back() {
    let text = "a+b%c d&e=f";
    let mut escaped = String::new();
    for (i, b) in text.bytes().enumerate() {
        if b == b'%' || b == b'+' || i % 2 == 0 {
            escaped.push_str(&format!("%{:02X}", b));
        } else {
            escaped.push(b as char);
        }
    }
    assert_eq!(url_decode(&escaped), text);
}

#[test]
fn finds_a_parameter() {
    assert_eq!(
        extract_query_param("ingwe-ctrl://?a=top-enter", "a"),
        Some("top-enter".to_string())
    );
    assert_eq!(extract_query_param("x://host/path?b=1&a=2", "a"), Some("2".to_string()));
}

#[test]
fn without_a_query_there_is_no_parameter() {
    assert_eq!(extract_query_param("ingwe-ctrl://host/a=1", "a"), None);
    assert_eq!(extract_query_param("", "a"), None);
}

#[test]
fn missing_parameter_is_none() {
    assert_eq!(extract_query_param("x://?b=1&c=2", "a"), None);
    assert_eq!(extract_query_param("x://?A=1", "a"), None);
}

#[test]
fn parameter_without_value_is_empty() {
    assert_eq!(extract_query_param("x://?a", "a"), Some(String::new()));
    assert_eq!(extract_query_param("x://?a=&b=2", "a"), Some(String::new()));
}

#[test]
fn value_keeps_later_equals_signs() {
    assert_eq!(extract_query_param("x://?a=1=2", "a"), Some("1=2".to_string()));
}

#[test]
fn first_parameter_of_a_name_wins() {
    assert_eq!(extract_query_param("x://?a=1&a=2", "a"), Some("1".to_string()));
}

#[test]
fn query_ends_at_a_second_question_mark() {
    assert_eq!(extract_query_param("x://?a=1?b=2", "a"), Some("1".to_string()));
    assert_eq!(extract_query_param("x://?b=1?a=2", "a"), None);
}

#[test]
fn empty_query_has_an_empty_named_parameter() {
    assert_eq!(extract_query_param("x://?", ""), Some(String::new()));
    assert_eq!(extract_query_param("x://?", "a"), None);
}

#[test]
fn values_are_decoded() {
    assert_eq!(
        extract_query_param("ingwe-notify://?title=New%20episode&body=Out+now", "title"),
        Some("New episode".to_string())
    );
    assert_eq!(
        extract_query_param("ingwe-notify://?title=New%20episode&body=Out+now", "body"),
        Some("Out now".to_string())
    );
}
