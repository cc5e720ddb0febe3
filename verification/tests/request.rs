use page_server::request::{parse_request, Headers};
use page_server::text::{chars_of, is_white_space, same_text};

fn headers(method: &str, path: &str, version: &str) -> Headers {
    Headers { method: method.to_string(), path: path.to_string(), version: version.to_string() }
}

#[test]
fn parses_a_full_request_line() {
    assert_eq!(parse_request("GET /index HTTP/1.0"), headers("GET", "/index", "HTTP/1.0"));
}

#[test]
fn parses_only_the_first_line() {
    let request = "POST /form HTTP/1.1\r\nHost: example.org\r\nContent-Length: 3\r\n\r\nabc";
    assert_eq!(parse_request(request), headers("POST", "/form", "HTTP/1.1"));
}

#[test]
fn empty_request_gets_the_defaults() {
    assert_eq!(parse_request(""), headers("GET", "/", "HTTP/1.1"));
}

#[test]
fn empty_first_line_gets_the_defaults() {
    assert_eq!(parse_request("\nGET /late HTTP/1.0"), headers("GET", "/", "HTTP/1.1"));
    assert_eq!(parse_request("\r\nGET /late HTTP/1.0"), headers("GET", "/", "HTTP/1.1"));
}

#[test]
fn blank_first_line_gets_the_defaults() {
    assert_eq!(parse_request("  \t  \r\n"), headers("GET", "/", "HTTP/1.1"));
}

#[test]
fn missing_version_gets_the_default() {
    assert_eq!(parse_request("HEAD /a"), headers("HEAD", "/a", "HTTP/1.1"));
}

#[test]
fn missing_path_and_version_get_the_defaults() {
    assert_eq!(parse_request("DELETE"), headers("DELETE", "/", "HTTP/1.1"));
    assert_eq!(parse_request("DELETE\r\n/path HTTP/1.0"), headers("DELETE", "/", "HTTP/1.1"));
}

#[test]
fn words_after_the_third_are_ignored() {
    assert_eq!(parse_request("GET /a HTTP/1.1 extra words"), headers("GET", "/a", "HTTP/1.1"));
}

#[test]
fn any_run_of_white_space_separates_words() {
    assert_eq!(parse_request("  GET\t\t/a   HTTP/2 \r\n"), headers("GET", "/a", "HTTP/2"));
    assert_eq!(parse_request("GET\u{a0}/a\u{3000}HTTP/2"), headers("GET", "/a", "HTTP/2"));
    assert_eq!(parse_request("GET\u{2003}/a\u{85}HTTP/2"), headers("GET", "/a", "HTTP/2"));
}

#[test]
fn carriage_return_alone_does_not_end_the_line() {
    assert_eq!(parse_request("GET\r/a\rHTTP/1.0\nrest"), headers("GET", "/a", "HTTP/1.0"));
}

#[test]
fn words_keep_characters_outside_ascii() {
    let parsed = parse_request("GÉT /caf\u{e9}/\u{1f600}.png HTTP/1.1");
    assert_eq!(parsed, headers("GÉT", "/caf\u{e9}/\u{1f600}.png", "HTTP/1.1"));
}

#[test]
fn zero_width_space_is_part_of_a_word() {
    assert_eq!(parse_request("GET /a\u{200b}b"), headers("GET", "/a\u{200b}b", "HTTP/1.1"));
}

#[test]
fn parsing_agrees_with_splitting_the_first_line() {
    let requests = [
        "GET / HTTP/1.1\r\n\r\n",
        "GET /missing HTTP/1.1",
        " a  b   c    d",
        "one\ttwo",
        "\u{b}\u{c}x\u{1680}y\u{2028}z",
        "x\u{180e}y z",
        "\r",
        "a\r\n",
    ];
    for request in requests {
        let line = request.lines().next().unwrap_or("");
        let mut words = line.split_whitespace();
        let expected = headers(
            words.next().unwrap_or("GET"),
            words.next().unwrap_or("/"),
            words.next().unwrap_or("HTTP/1.1"),
        );
        assert_eq!(parse_request(request), expected, "{:?}", request);
    }
}

#[test]
fn white_space_is_what_unicode_says() {
    for c in ['\t', '\n', '\u{b}', '\u{c}', '\r', ' ', '\u{85}', '\u{a0}', '\u{1680}', '\u{2000}',
        '\u{200a}', '\u{2028}', '\u{2029}', '\u{202f}', '\u{205f}', '\u{3000}']
    {
        assert!(is_white_space(c), "{:?}", c);
    }
    for c in ['a', '/', '.', '\0', '\u{8}', '\u{e}', '\u{1f}', '!', '\u{84}', '\u{86}', '\u{180e}',
        '\u{1fff}', '\u{200b}', '\u{2027}', '\u{202a}', '\u{2060}', '\u{feff}', '\u{10ffff}']
    {
        assert!(!is_white_space(c), "{:?}", c);
    }
}

#[test]
fn white_space_agrees_with_the_standard_library_on_every_character() {
    let mut c = '\0';
    loop {
        assert_eq!(is_white_space(c), c.is_whitespace(), "{:?}", c);
        if c == char::MAX {
            break;
        }
        c = char::from_u32(if c == '\u{d7ff}' { 0xe000 } else { c as u32 + 1 }).unwrap();
    }
}

#[test]
fn chars_of_gives_every_character_in_order() {
    assert_eq!(chars_of(""), Vec::<char>::new());
    assert_eq!(chars_of("a/\u{e9}\u{1f600}."), vec!['a', '/', '\u{e9}', '\u{1f600}', '.']);
}

#[test]
fn same_text_compares_whole_strings() {
    assert!(same_text("", ""));
    assert!(same_text("png", "png"));
    assert!(same_text("caf\u{e9}", "caf\u{e9}"));
    assert!(!same_text("png", "pn"));
    assert!(!same_text("pn", "png"));
    assert!(!same_text("png", "pnh"));
    assert!(!same_text("PNG", "png"));
    assert!(!same_text("", "/"));
}
