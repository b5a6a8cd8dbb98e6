//! What a backend answers: the page for a request line and the response
//! that carries it.

use vstd::prelude::*;
use vstd::string::*;
use crate::hashing::{decimal, to_decimal};

verus! {

/// Seconds that the slow page takes to answer.
pub const SLOW_PAGE_DELAY_SECS: u64 = 5;

/// The answer chosen for a request: the status line, the file whose
/// contents form the body, and the seconds to wait before answering.
#[derive(Debug, Clone, Copy, PartialEq, Eq)]
pub struct Page {
    pub status_line: &'static str,
    pub filename: &'static str,
    pub delay_secs: u64,
}

/// The status line chosen for `request`.
pub open spec fn status_for(request: Seq<char>) -> Seq<char> {
    if request == "GET / HTTP/1.1"@ || request == "GET /sleep HTTP/1.1"@ {
        "HTTP/1.1 200 OK"@
    } else {
        "HTTP/1.1 404 NOT FOUND"@
    }
}

/// The file chosen for `request`.
pub open spec fn file_for(request: Seq<char>) -> Seq<char> {
    if request == "GET / HTTP/1.1"@ {
        "pages/hello.html"@
    } else if request == "GET /sleep HTTP/1.1"@ {
        "pages/sleep.html"@
    } else {
        "pages/404.html"@
    }
}

/// The seconds to wait before `request` is answered.
pub open spec fn delay_for(request: Seq<char>) -> u64 {
    if request == "GET /sleep HTTP/1.1"@ {
        SLOW_PAGE_DELAY_SECS
    } else {
        0
    }
}

/// The response that carries `contents` under `status_line`.
pub open spec fn response_text(status_line: Seq<char>, contents: &str) -> Seq<char> {
    status_line + "\r\nContent-Length: "@ + decimal(contents.spec_bytes().len()) + "\r\n\r\n"@
        + contents@
}

/// Chooses the answer to a request: the home page, the slow page after its
/// delay, or the page for everything else.
pub fn select_page(request: &str) -> (page: Page)
    ensures
        page.status_line@ == status_for(request@),
        page.filename@ == file_for(request@),
        page.delay_secs == delay_for(request@),
{
    proof {
        reveal_strlit("GET / HTTP/1.1");
        reveal_strlit("GET /sleep HTTP/1.1");
        assert("GET / HTTP/1.1"@.len() != "GET /sleep HTTP/1.1"@.len());
    }
    let wanted: String = request.to_owned();
    if wanted == "GET / HTTP/1.1".to_owned() {
        Page { status_line: "HTTP/1.1 200 OK", filename: "pages/hello.html", delay_secs: 0 }
    } else if wanted == "GET /sleep HTTP/1.1".to_owned() {
        Page {
            status_line: "HTTP/1.1 200 OK",
            filename: "pages/sleep.html",
            delay_secs: SLOW_PAGE_DELAY_SECS,
        }
    } else {
        Page { status_line: "HTTP/1.1 404 NOT FOUND", filename: "pages/404.html", delay_secs: 0 }
    }
}

/// Builds the response: the status line, the length of the body in bytes,
/// an empty line, and the body.
pub fn generate_response(status_line: &str, contents: &str) -> (response: String)
    ensures
        response@ == response_text(status_line@, contents),
{
    let length: usize = contents.as_bytes().len();
    let length_text: String = to_decimal(length);
    let mut response: String = status_line.to_owned();
    response.append("\r\nContent-Length: ");
    response.append(length_text.as_str());
    response.append("\r\n\r\n");
    response.append(contents);
    response
}

} // verus!
