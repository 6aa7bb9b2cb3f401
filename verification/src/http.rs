//! The requests the portal client sends, as plain values: method, address,
//! headers and form fields. The application performs them.
use vstd::prelude::*;
use crate::text::{
    lemma_replace_absent, lemma_replace_char_split, occurs_at, replace, replace_all,
};

verus! {

/// HTTP method of a request.
#[derive(PartialEq, Eq, Structural, Clone, Copy, Debug)]
pub enum Method {
    Get,
    Post,
}

/// A request to send: headers and form fields are name/value pairs in the
/// order they are added; a POST with form fields sends them URL-encoded.
pub struct HttpRequest {
    pub method: Method,
    pub url: String,
    pub headers: Vec<(String, String)>,
    pub form: Vec<(String, String)>,
}

/// The characters of an `HttpRequest`.
pub struct HttpRequestView {
    pub method: Method,
    pub url: Seq<char>,
    pub headers: Seq<(Seq<char>, Seq<char>)>,
    pub form: Seq<(Seq<char>, Seq<char>)>,
}

impl View for HttpRequest {
    type V = HttpRequestView;

    open spec fn view(&self) -> HttpRequestView {
        HttpRequestView {
            method: self.method,
            url: self.url@,
            headers: self.headers.deep_view(),
            form: self.form.deep_view(),
        }
    }
}

/// The browser identification every request carries.
pub open spec fn user_agent() -> Seq<char> {
    "Mozilla/5.0 (Windows NT 10.0; Win64; x64; rv:133.0) Gecko/20100101 Firefox/133.0"@
}

/// The login page, which also receives the login form.
pub open spec fn login_url() -> Seq<char> {
    "https://www.fit.ba/student/login.aspx"@
}

/// The student home page with the news list.
pub open spec fn home_url() -> Seq<char> {
    "https://www.fit.ba/student/default.aspx"@
}

/// The page whose status tells whether a session is still open.
pub open spec fn session_check_url() -> Seq<char> {
    "https://www.fit.ba/student/EUSASStudentHome.aspx"@
}

/// Text that only pages of a logged-in student contain.
pub open spec fn logged_in_marker() -> Seq<char> {
    "logout.aspx"@
}

/// The site the portal belongs to; its cookies are kept for this address.
pub open spec fn portal_origin() -> Seq<char> {
    "https://www.fit.ba"@
}

/// The address of the login page.
pub fn login_address() -> (r: &'static str)
    ensures
        r@ == login_url(),
{
    "https://www.fit.ba/student/login.aspx"
}

/// The address of the student home page.
pub fn home_address() -> (r: &'static str)
    ensures
        r@ == home_url(),
{
    "https://www.fit.ba/student/default.aspx"
}

/// The address of the site, for the cookies kept for it.
pub fn portal_origin_address() -> (r: &'static str)
    ensures
        r@ == portal_origin(),
{
    "https://www.fit.ba"
}

/// A plain GET of `url`: no extra headers, no form.
pub open spec fn plain_get(url: Seq<char>) -> HttpRequestView {
    HttpRequestView { method: Method::Get, url, headers: seq![], form: seq![] }
}

/// The first step of a login: fetching the login page.
pub fn login_page_request() -> (r: HttpRequest)
    ensures
        r@ == plain_get(login_url()),
{
    let r = HttpRequest {
        method: Method::Get,
        url: String::from_str("https://www.fit.ba/student/login.aspx"),
        headers: Vec::new(),
        form: Vec::new(),
    };
    assert(r@.headers =~= plain_get(login_url()).headers);
    assert(r@.form =~= plain_get(login_url()).form);
    r
}

/// The request whose status tells whether a session is still open.
pub fn session_check_request() -> (r: HttpRequest)
    ensures
        r@ == plain_get(session_check_url()),
{
    let r = HttpRequest {
        method: Method::Get,
        url: String::from_str("https://www.fit.ba/student/EUSASStudentHome.aspx"),
        headers: Vec::new(),
        form: Vec::new(),
    };
    assert(r@.headers =~= plain_get(session_check_url()).headers);
    assert(r@.form =~= plain_get(session_check_url()).form);
    r
}

/// Bytes that `http::HeaderValue::from_str` accepts: a tab, or anything
/// from space upwards but DEL. Every byte of a character beyond ASCII is
/// at least 128, so such characters pass.
pub open spec fn header_char_ok(c: char) -> bool {
    c == '\t' || (c as u32 >= 32 && c as u32 != 127)
}

/// `s` can be the value of an HTTP header.
pub open spec fn valid_header_value(s: Seq<char>) -> bool {
    forall|i: int| 0 <= i < s.len() ==> header_char_ok(#[trigger] s[i])
}

/// Calls `reqwest::header::HeaderValue::from_str` and tells whether it
/// accepted `value`. Claimed, from the source of `http`: it accepts exactly
/// the strings whose bytes are all a tab or at least 32 and not 127.
#[verifier::external_body]
pub(crate) fn header_value_accepted(value: &str) -> (r: bool)
    ensures
        r == valid_header_value(value@),
{
    reqwest::header::HeaderValue::from_str(value).is_ok()
}

/// The message of `http`'s error for a refused header value.
pub open spec fn invalid_header_message() -> Seq<char> {
    "failed to parse header value"@
}

/// A pair of strings.
pub fn pair(name: &str, value: &str) -> (r: (String, String))
    ensures
        r.0@ == name@,
        r.1@ == value@,
{
    (String::from_str(name), String::from_str(value))
}

/// The `Cookie` header made of a stored cookie string: a space after each
/// semicolon.
pub open spec fn cookie_header(cookies: Seq<char>) -> Seq<char> {
    replace_all(cookies, ";"@, "; "@)
}

/// A GET of `url` that presents the stored `cookies`.
pub open spec fn cookie_get(url: Seq<char>, cookies: Seq<char>) -> HttpRequestView {
    HttpRequestView {
        method: Method::Get,
        url,
        headers: seq![("user-agent"@, user_agent()), ("cookie"@, cookie_header(cookies))],
        form: seq![],
    }
}

/// What asking for `url` with `cookies` gives: the request, or the error
/// for a cookie string that cannot be a header.
pub open spec fn cookie_request_result(url: Seq<char>, cookies: Seq<char>) -> Result<
    HttpRequestView,
    Seq<char>,
> {
    if valid_header_value(cookie_header(cookies)) {
        Ok(cookie_get(url, cookies))
    } else {
        Err(invalid_header_message())
    }
}

/// The GET request for `url` that carries the stored `cookies` (with a
/// space after each semicolon) and the browser identification; an error
/// when the cookies cannot be a header value.
pub fn cookie_request(url: &str, cookies: &str) -> (r: Result<HttpRequest, String>)
    ensures
        match r {
            Ok(req) => cookie_request_result(url@, cookies@) == Ok::<HttpRequestView, Seq<char>>(
                req@,
            ),
            Err(e) => cookie_request_result(url@, cookies@) == Err::<HttpRequestView, Seq<char>>(
                e@,
            ),
        },
{
    proof {
        reveal_strlit(";");
    }
    let value = replace(cookies, ";", "; ");
    if !header_value_accepted(value.as_str()) {
        return Err(String::from_str("failed to parse header value"));
    }
    let mut headers: Vec<(String, String)> = Vec::new();
    headers.push(
        pair(
            "user-agent",
            "Mozilla/5.0 (Windows NT 10.0; Win64; x64; rv:133.0) Gecko/20100101 Firefox/133.0",
        ),
    );
    headers.push((String::from_str("cookie"), value));
    let req = HttpRequest {
        method: Method::Get,
        url: String::from_str(url),
        headers,
        form: Vec::new(),
    };
    assert(req@.headers =~= cookie_get(url@, cookies@).headers);
    assert(req@.form =~= cookie_get(url@, cookies@).form);
    Ok(req)
}

/// A request with stored cookies goes to exactly the given address, as a
/// GET without a form, with the browser identification and the whole
/// cookie string, a space after each semicolon; it is made exactly when
/// every character of the cookie string may stand in a header.
pub proof fn lemma_cookie_request_shape(url: Seq<char>, cookies: Seq<char>)
    ensures
        cookie_request_result(url, cookies) matches Ok(v) ==> v.method == Method::Get && v.url
            == url && v.form.len() == 0 && v.headers.len() == 2 && v.headers[0] == (
            "user-agent"@,
            user_agent(),
        ) && v.headers[1] == ("cookie"@, replace_all(cookies, seq![';'], seq![';', ' '])),
        cookie_request_result(url, cookies) is Ok <==> forall|i: int|
            0 <= i < cookies.len() ==> #[trigger] header_char_ok(cookies[i]),
{
    reveal_strlit(";");
    reveal_strlit("; ");
    assert(";"@ =~= seq![';']);
    assert("; "@ =~= seq![';', ' ']);
    lemma_cookie_header_chars(cookies);
}

/// The characters of the cookie header may stand in a header exactly when
/// those of the cookie string may.
proof fn lemma_cookie_header_chars(cookies: Seq<char>)
    ensures
        valid_header_value(replace_all(cookies, seq![';'], seq![';', ' '])) <==> forall|i: int|
            0 <= i < cookies.len() ==> #[trigger] header_char_ok(cookies[i]),
    decreases cookies.len(),
{
    if cookies.len() > 0 {
        let t = cookies.drop_first();
        lemma_cookie_header_chars(t);
        let rt = replace_all(t, seq![';'], seq![';', ' ']);
        let head: Seq<char> = if cookies[0] == ';' {
            seq![';', ' ']
        } else {
            seq![cookies[0]]
        };
        assert(cookies.subrange(0, 1) =~= seq![cookies[0]]);
        if cookies[0] == ';' {
            assert(occurs_at(cookies, seq![';'], 0));
            assert(cookies.skip(1) =~= t);
        } else {
            assert(cookies.subrange(0, 1)[0] != seq![';'][0]);
            assert(!occurs_at(cookies, seq![';'], 0));
        }
        let r = replace_all(cookies, seq![';'], seq![';', ' ']);
        assert(r == head + rt);
        assert(header_char_ok(' '));
        if valid_header_value(r) {
            assert forall|i: int| 0 <= i < cookies.len() implies #[trigger] header_char_ok(
                cookies[i],
            ) by {
                if i == 0 {
                    assert(r[0] == cookies[0]);
                } else {
                    assert(cookies[i] == t[i - 1]);
                    assert forall|k: int| 0 <= k < rt.len() implies #[trigger] header_char_ok(
                        rt[k],
                    ) by {
                        assert(r[head.len() + k] == rt[k]);
                    }
                }
            }
        }
        if forall|i: int| 0 <= i < cookies.len() ==> #[trigger] header_char_ok(cookies[i]) {
            assert forall|i: int| 0 <= i < t.len() implies #[trigger] header_char_ok(t[i]) by {
                assert(t[i] == cookies[i + 1]);
            }
            assert(header_char_ok(cookies[0]));
            assert forall|k: int| 0 <= k < r.len() implies #[trigger] header_char_ok(r[k]) by {
                if k >= head.len() {
                    assert(r[k] == rt[k - head.len()]);
                }
            }
        }
    } else {
        assert(replace_all(cookies, seq![';'], seq![';', ' ']) =~= Seq::<char>::empty());
    }
}

/// A cookie string without semicolons is sent as it is.
pub proof fn lemma_cookie_header_plain(url: Seq<char>, cookies: Seq<char>)
    requires
        forall|i: int| 0 <= i < cookies.len() ==> cookies[i] != ';',
    ensures
        cookie_request_result(url, cookies) matches Ok(v) ==> v.headers[1].1 == cookies,
{
    lemma_cookie_request_shape(url, cookies);
    assert forall|i: int| !#[trigger] occurs_at(cookies, seq![';'], i) by {
        if 0 <= i && i + 1 <= cookies.len() {
            assert(cookies.subrange(i, i + 1)[0] == cookies[i]);
        }
    }
    lemma_replace_absent(cookies, seq![';'], seq![';', ' ']);
}

/// The cookie header of two cookie strings joined by a semicolon is their
/// headers joined by a semicolon and a space.
pub proof fn lemma_cookie_header_split(a: Seq<char>, b: Seq<char>)
    ensures
        replace_all(a + seq![';'] + b, seq![';'], seq![';', ' ']) == replace_all(
            a,
            seq![';'],
            seq![';', ' '],
        ) + seq![';', ' '] + replace_all(b, seq![';'], seq![';', ' ']),
{
    lemma_replace_char_split(a, b, ';', seq![';', ' ']);
}

/// The status codes that `reqwest::StatusCode::is_success` accepts.
pub open spec fn success_status(code: u16) -> bool {
    200 <= code <= 299
}

/// Whether a response status counts as success (2xx).
pub fn is_success(code: u16) -> (r: bool)
    ensures
        r == success_status(code),
{
    200 <= code && code <= 299
}

} // verus!
