//! Pages that are opened outside the main window.

use vstd::prelude::*;
use vstd::string::*;

use crate::json::{field, JsonView};
use crate::provider::{host_view, parse_host, url_host};
use super::{done_answer, failed, failure, ok, Answer, AnswerView};
use crate::text::str_view;

verus! {

/// The host that a request came to.
pub open spec fn own_host(host: Option<Seq<char>>) -> Seq<char> {
    match host {
        Some(h) => h,
        None => "127.0.0.1"@,
    }
}

pub open spec fn page_address(host: Option<Seq<char>>, path: Seq<char>) -> Seq<char> {
    "http://"@ + own_host(host) + path
}

/// The address of one of the relay's own pages; `host` is where the request came to.
pub fn page_url(host: Option<&str>, path: &str) -> (r: String)
    ensures
        r@ == page_address(str_view(host), path@),
{
    let mut r = "http://".to_string();
    match host {
        Some(h) => {
            r.append(h);
        },
        None => {
            r.append("127.0.0.1");
        },
    }
    r.append(path);
    r
}

/// The address of the page that opens the print dialog.
pub fn export_url(host: Option<&str>) -> (r: String)
    ensures
        r@ == page_address(str_view(host), "/slides/deck.pdf.html?print=1"@),
{
    page_url(host, "/slides/deck.pdf.html?print=1")
}

/// The answer to a request to open something: `error` is why it did not open.
pub open spec fn opened_answer(error: Option<Seq<char>>) -> AnswerView {
    match error {
        Some(e) => failure(500, e),
        None => done_answer(),
    }
}

pub fn opened(r: Result<(), String>) -> (a: Answer)
    ensures
        a@ == opened_answer(
            match r {
                Ok(_) => None,
                Err(e) => Some(e@),
            },
        ),
{
    match r {
        Ok(_) => ok(),
        Err(e) => failed(500, e.as_str()),
    }
}

/// What is answered at once to a request for a window: without an app there is none, and
/// an address has to be one.
pub open spec fn window_refusal(
    has_app: bool,
    parsed: Result<Option<Seq<char>>, Seq<char>>,
) -> Option<AnswerView> {
    if !has_app {
        Some(failure(503, "no app handle"@))
    } else {
        match parsed {
            Ok(_) => None,
            Err(e) => Some(failure(400, "bad url: "@ + e)),
        }
    }
}

/// What is answered at once to a request for a window, where `parsed` is what was made of
/// the address.
pub fn refuse_window(has_app: bool, parsed: Result<Option<String>, String>) -> (r: Option<Answer>)
    ensures
        match window_refusal(has_app, host_view(parsed)) {
            Some(a) => r matches Some(x) && x@ == a,
            None => r is None,
        },
{
    if !has_app {
        return Some(failed(503, "no app handle"));
    }
    match parsed {
        Ok(_) => None,
        Err(e) => {
            let mut t = "bad url: ".to_string();
            t.append(e.as_str());
            Some(failed(400, t.as_str()))
        },
    }
}

/// The address for a new window, or the answer where none can be opened.
pub fn window_url(has_app: bool, host: Option<&str>, path: &str) -> (r: Result<String, Answer>)
    ensures
        ({
            let url = page_address(str_view(host), path@);
            match window_refusal(has_app, url_host(url)) {
                Some(a) => r matches Err(x) && x@ == a,
                None => r matches Ok(u) && u@ == url,
            }
        }),
{
    let url = page_url(host, path);
    match refuse_window(has_app, parse_host(url.as_str())) {
        Some(a) => Err(a),
        None => Ok(url),
    }
}

// ---- Laws --------------------------------------------------------------

/// A page is opened at the host that the request came to, or at this machine where it named
/// none, under the path that is asked for.
pub proof fn law_page_is_opened_where_the_request_came_to(host: Seq<char>, path: Seq<char>)
    ensures
        page_address(Some(host), path) == "http://"@ + host + path,
        page_address(None, path) == "http://"@ + "127.0.0.1"@ + path,
{
}

/// A window is refused without an app, and where its address is none; what did not open is
/// answered with the reason.
pub proof fn law_window_refusals(host: Option<Seq<char>>, reason: Seq<char>)
    ensures
        window_refusal(false, Ok(host)) matches Some(a) && a.status == 503 && field(
            a.body,
            "error"@,
        ) == Some(JsonView::Text("no app handle"@)),
        window_refusal(false, Err(reason)) == window_refusal(false, Ok(host)),
        window_refusal(true, Ok(host)) is None,
        window_refusal(true, Err(reason)) matches Some(a) && a.status == 400 && field(
            a.body,
            "error"@,
        ) == Some(JsonView::Text("bad url: "@ + reason)),
        opened_answer(None) == done_answer(),
        opened_answer(Some(reason)).status == 500,
        field(opened_answer(Some(reason)).body, "error"@) == Some(JsonView::Text(reason)),
{
    reveal_strlit("ok");
    reveal_strlit("error");
    assert("ok"@.len() == 2 && "error"@.len() == 5);
}

} // verus!
