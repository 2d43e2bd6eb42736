use rust_book_server::http::{decimal_string, response, Page};

#[test]
fn root_request_gets_the_greeting() {
    let page = Page::route("GET / HTTP/1.1");
    assert_eq!(page, Page::Hello);
    assert_eq!(page.status_line(), "HTTP/1.1 200 OK");
    assert_eq!(page.file(), "hello.html");
    assert_eq!(page.delay_seconds(), 0);
}

#[test]
fn sleep_request_gets_the_greeting_after_five_seconds() {
    let page = Page::route("GET /sleep HTTP/1.1");
    assert_eq!(page, Page::Sleep);
    assert_eq!(page.status_line(), "HTTP/1.1 200 OK");
    assert_eq!(page.file(), "hello.html");
    assert_eq!(page.delay_seconds(), 5);
}

#[test]
fn any_other_request_is_not_found() {
    for line in [
        "",
        "GET /",
        "GET / HTTP/1.0",
        "GET /index.html HTTP/1.1",
        "POST / HTTP/1.1",
        "get / http/1.1",
        "GET / HTTP/1.1 ",
        " GET / HTTP/1.1",
        "GET /sleep/ HTTP/1.1",
    ] {
        let page = Page::route(line);
        assert_eq!(page, Page::NotFound, "{:?}", line);
        assert_eq!(page.status_line(), "HTTP/1.1 404 NOT FOUND");
        assert_eq!(page.file(), "error.html");
        assert_eq!(page.delay_seconds(), 0);
    }
}

#[test]
fn numbers_are_written_in_decimal() {
    assert_eq!(decimal_string(0), "0");
    assert_eq!(decimal_string(7), "7");
    assert_eq!(decimal_string(9), "9");
    assert_eq!(decimal_string(10), "10");
    assert_eq!(decimal_string(42), "42");
    assert_eq!(decimal_string(100), "100");
    assert_eq!(decimal_string(1234567890), "1234567890");
    assert_eq!(decimal_string(usize::MAX), format!("{}", usize::MAX));
}

#[test]
fn response_carries_status_length_and_body() {
    assert_eq!(
        response("HTTP/1.1 200 OK", "<h1>Hello!</h1>"),
        "HTTP/1.1 200 OK\r\nContent-Length: 15\r\n\r\n<h1>Hello!</h1>"
    );
    assert_eq!(
        response("HTTP/1.1 404 NOT FOUND", ""),
        "HTTP/1.1 404 NOT FOUND\r\nContent-Length: 0\r\n\r\n"
    );
}

#[test]
fn response_length_counts_bytes() {
    // Five characters, six bytes.
    assert_eq!(
        response("HTTP/1.1 200 OK", "caf\u{e9}!"),
        "HTTP/1.1 200 OK\r\nContent-Length: 6\r\n\r\ncaf\u{e9}!"
    );
    // Two characters, six bytes.
    assert_eq!(
        response("HTTP/1.1 200 OK", "\u{4f60}\u{597d}"),
        "HTTP/1.1 200 OK\r\nContent-Length: 6\r\n\r\n\u{4f60}\u{597d}"
    );
}
