//! The HTTP surface as plain values: a response is a status, a content kind
//! and a body; the routing table is a map from method and path to a handler.

use vstd::prelude::*;

verus! {

use crate::text::str_eq;
use vstd::string::StringExecFns;

/// A response about to be written out: its status code, whether its body is
/// HTML (otherwise it goes out as plain text), and the body itself.
pub struct HttpResponse {
    pub status: u16,
    pub html: bool,
    pub body: String,
}

/// The mathematical shadow of a response.
pub struct RespModel {
    pub status: int,
    pub html: bool,
    pub body: Seq<char>,
}

impl View for HttpResponse {
    type V = RespModel;

    open spec fn view(&self) -> RespModel {
        RespModel { status: self.status as int, html: self.html, body: self.body@ }
    }
}

/// The two handlers a request can be dispatched to.
#[derive(Clone, Copy, PartialEq, Eq, Debug, Structural)]
pub enum Route {
    /// `GET /`: the HTML form.
    Form,
    /// `POST /gcd`: the computation.
    Gcd,
}

/// The routing table: `GET /` shows the form, `POST /gcd` computes; nothing
/// else is served.
pub open spec fn spec_route(method: Seq<char>, path: Seq<char>) -> Option<Route> {
    if method == "GET"@ && path == "/"@ {
        Some(Route::Form)
    } else if method == "POST"@ && path == "/gcd"@ {
        Some(Route::Gcd)
    } else {
        None
    }
}

/// Dispatches a method and path pair to its handler, if any.
pub fn route(method: &str, path: &str) -> (r: Option<Route>)
    ensures
        r == spec_route(method@, path@),
{
    if str_eq(method, "GET") && str_eq(path, "/") {
        Some(Route::Form)
    } else if str_eq(method, "POST") && str_eq(path, "/gcd")  {
        Some(Route::Gcd)
    } else {
        None
    }
}

/// The fixed HTML fragment that the form handler serves: a form that posts
/// one or more fields named `n` to the computation path.
pub open spec fn spec_form_page_text() -> Seq<char> {
    r#"
        <title>GCD Calculator</title>
        <form action="/gcd" method="post">
            <input type="text" name="n">
            <input type="text" name="n">
            <button type="submit">Compute GCD</button>
        </form>
    "#@
}

/// What the form handler answers on any request that reaches it: status 200
/// and the fixed HTML page.
pub open spec fn spec_form_page() -> RespModel {
    RespModel { status: 200, html: true, body: spec_form_page_text() }
}

/// The form handler: status 200, HTML content, the fixed form page.
pub fn form_page() -> (r: HttpResponse)
    ensures
        r@ == spec_form_page(),
{
    HttpResponse {
        status: 200,
        html: true,
        body: String::from_str(
            r#"
        <title>GCD Calculator</title>
        <form action="/gcd" method="post">
            <input type="text" name="n">
            <input type="text" name="n">
            <button type="submit">Compute GCD</button>
        </form>
    "#,
        ),
    }
}

} // verus!
