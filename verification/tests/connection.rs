use page_server::connection::{receive_request, resolve_request};
use page_server::request::Headers;
use page_server::response::serve_file;

fn headers(method: &str, path: &str, version: &str) -> Headers {
    Headers { method: method.to_string(), path: path.to_string(), version: version.to_string() }
}

#[test]
fn request_for_the_root_is_answered_with_the_index_page() {
    let request = receive_request(b"GET / HTTP/1.1");
    assert_eq!(request, headers("GET", "./pages/index.html", "HTTP/1.1"));
    assert!(request.serves_html());
    let sent = serve_file(&request, Some(b"Hi".to_vec()));
    assert_eq!(sent, b"HTTP/1.1 200 Ok\r\nContent-Type: text/html\r\n\r\nHi\n");
}

#[test]
fn request_for_a_missing_page_is_answered_with_not_found() {
    let request = receive_request(b"GET /missing HTTP/1.1");
    assert_eq!(request.path, "./pages/sub/missing.html");
    let sent = serve_file(&request, None);
    assert_eq!(
        sent,
        b"HTTP/1.1 404 Not found\r\nContent-Type: text/plain\r\n\r\nFile not found\n"
    );
}

#[test]
fn request_for_an_image_is_answered_with_its_bytes() {
    let request = receive_request(b"GET /cat.png HTTP/1.1");
    assert_eq!(request.path, "./pages/assets/cat.png");
    assert!(!request.serves_html());
    let file: Vec<u8> = vec![1, 2, 3, 4, 5, 6, 7, 8, 9, 10];
    let sent = serve_file(&request, Some(file.clone()));
    let text = String::from_utf8_lossy(&sent).into_owned();
    assert!(text.starts_with("HTTP/1.1 200 Ok\r\n"));
    assert!(text.contains("\r\nContent-Type: image/png\r\n"));
    assert!(text.contains("\r\nContent-Length: 10\r\n"));
    let head = b"HTTP/1.1 200 Ok\r\nContent-Type: image/png\r\nContent-Length: 10\r\n\r\n";
    assert_eq!(sent.len(), head.len() + 10);
    assert_eq!(&sent[..head.len()], head);
    assert_eq!(&sent[head.len()..], &file[..]);
}

#[test]
fn request_for_an_unknown_type_is_answered_as_png() {
    let request = receive_request(b"GET /doc.xyz HTTP/1.1");
    assert_eq!(request.path, "./pages/assets/doc.xyz");
    let sent = serve_file(&request, Some(b"some text".to_vec()));
    assert_eq!(
        sent,
        b"HTTP/1.1 200 Ok\r\nContent-Type: image/png\r\nContent-Length: 9\r\n\r\nsome text"
    );
}

#[test]
fn request_with_headers_and_body_is_read_by_its_first_line() {
    let raw = b"GET /about HTTP/1.0\r\nHost: localhost:8080\r\nAccept: */*\r\n\r\nbody.png";
    assert_eq!(receive_request(raw), headers("GET", "./pages/sub/about.html", "HTTP/1.0"));
}

#[test]
fn nothing_received_is_a_request_for_the_root() {
    assert_eq!(receive_request(b""), headers("GET", "./pages/index.html", "HTTP/1.1"));
    assert_eq!(receive_request(b"\r\n"), headers("GET", "./pages/index.html", "HTTP/1.1"));
    assert_eq!(receive_request(&[0u8; 0]), headers("GET", "./pages/index.html", "HTTP/1.1"));
}

#[test]
fn malformed_bytes_are_replaced_and_never_fail() {
    let request = receive_request(b"GET /a\xffb HTTP/1.1\r\n");
    assert_eq!(request, headers("GET", "./pages/sub/a\u{fffd}b.html", "HTTP/1.1"));
    let request = receive_request(b"\xff\xfe /x.png\xc3");
    assert_eq!(request, headers("\u{fffd}\u{fffd}", "./pages/assets/x.png\u{fffd}", "HTTP/1.1"));
    let request = receive_request(&[0x80u8, 0x80, 0x80]);
    assert_eq!(request, headers("\u{fffd}\u{fffd}\u{fffd}", "./pages/index.html", "HTTP/1.1"));
}

#[test]
fn well_formed_bytes_are_decoded_as_they_are() {
    let request = receive_request("GET /caf\u{e9}.png HTTP/1.1".as_bytes());
    assert_eq!(request, headers("GET", "./pages/assets/caf\u{e9}.png", "HTTP/1.1"));
    let request = receive_request("GET\u{a0}/a".as_bytes());
    assert_eq!(request, headers("GET", "./pages/sub/a.html", "HTTP/1.1"));
}

#[test]
fn received_bytes_decide_like_their_text() {
    let texts = ["GET / HTTP/1.1", "GET /a/b.c HTTP/1.0\r\n", "", "x", "PUT /..", "a b c d e"];
    for text in texts {
        assert_eq!(receive_request(text.as_bytes()), resolve_request(text), "{:?}", text);
    }
}

#[test]
fn a_full_buffer_of_one_word_is_the_method() {
    let raw = vec![b'A'; 1024];
    let request = receive_request(&raw);
    assert_eq!(request.method.len(), 1024);
    assert_eq!(request.path, "./pages/index.html");
    assert_eq!(request.version, "HTTP/1.1");
}

#[test]
fn same_bytes_give_the_same_request_and_the_same_answer() {
    let raws: [&[u8]; 5] =
        [b"GET / HTTP/1.1", b"GET /cat.png HTTP/1.1", b"", b"\xff\xff /\xff.gif", b"GET /missing"];
    let files: [Option<Vec<u8>>; 3] = [None, Some(b"Hi".to_vec()), Some(vec![0xff, 0x00])];
    for raw in raws {
        let first = receive_request(raw);
        let second = receive_request(raw);
        assert_eq!(first, second);
        for file in &files {
            assert_eq!(serve_file(&first, file.clone()), serve_file(&second, file.clone()));
        }
    }
}

#[test]
fn traversal_reaches_the_responder_unchanged() {
    let request = receive_request(b"GET /../../etc/passwd.txt HTTP/1.1");
    assert_eq!(request.path, "./pages/assets/../../etc/passwd.txt");
    let sent = serve_file(&request, Some(b"root".to_vec()));
    assert_eq!(
        sent,
        b"HTTP/1.1 200 Ok\r\nContent-Type: image/png\r\nContent-Length: 4\r\n\r\nroot"
    );
}
