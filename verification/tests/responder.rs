use load_balancer::responder::{generate_response, select_page, SLOW_PAGE_DELAY_SECS};

#[test]
fn home_page_is_served_at_once() {
    let page = select_page("GET / HTTP/1.1");
    assert_eq!(page.status_line, "HTTP/1.1 200 OK");
    assert_eq!(page.filename, "pages/hello.html");
    assert_eq!(page.delay_secs, 0);
}

#[test]
fn slow_page_is_served_after_five_seconds() {
    let page = select_page("GET /sleep HTTP/1.1");
    assert_eq!(page.status_line, "HTTP/1.1 200 OK");
    assert_eq!(page.filename, "pages/sleep.html");
    assert_eq!(page.delay_secs, 5);
    assert_eq!(SLOW_PAGE_DELAY_SECS, 5);
}

#[test]
fn anything_else_is_not_found() {
    for request in ["", "GET /missing HTTP/1.1", "GET / HTTP/1.1\r\n", "get / http/1.1", "POST / HTTP/1.1"] {
        let page = select_page(request);
        assert_eq!(page.status_line, "HTTP/1.1 404 NOT FOUND");
        assert_eq!(page.filename, "pages/404.html");
        assert_eq!(page.delay_secs, 0);
    }
}

#[test]
fn response_carries_the_length_of_the_body_in_bytes() {
    assert_eq!(
        generate_response("HTTP/1.1 200 OK", "<h1>Hello!</h1>"),
        "HTTP/1.1 200 OK\r\nContent-Length: 15\r\n\r\n<h1>Hello!</h1>"
    );
    assert_eq!(
        generate_response("HTTP/1.1 404 NOT FOUND", ""),
        "HTTP/1.1 404 NOT FOUND\r\nContent-Length: 0\r\n\r\n"
    );
    assert_eq!(
        generate_response("HTTP/1.1 200 OK", "caf\u{e9}"),
        "HTTP/1.1 200 OK\r\nContent-Length: 5\r\n\r\ncaf\u{e9}"
    );
    let body = "x".repeat(1234);
    assert_eq!(
        generate_response("S", &body),
        format!("S\r\nContent-Length: 1234\r\n\r\n{}", body)
    );
}
