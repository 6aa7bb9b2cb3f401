//! Logging in to the portal and asking it for pages: the form and headers
//! that are sent, and how the portal's answers are read.
use vstd::prelude::*;
use crate::http::{login_url, logged_in_marker, pair, user_agent, HttpRequest, HttpRequestView, Method};
use crate::scrape::{hidden_field, hidden_field_value};
use crate::text::{contains, has_substring, join, join_strings, occurs_at};

verus! {

/// Answer to a login attempt.
pub struct LoginResponse {
    pub success: bool,
    pub message: String,
    /// The session cookies, on success.
    pub cookies: Option<String>,
}

/// Answer to a request for a page.
pub struct PageRequestResponse {
    pub success: bool,
    pub message: String,
    pub page: String,
}

/// Answer to the question whether stored cookies still open a session.
pub struct ValidateCookiesResponse {
    pub is_valid: bool,
}

/// The page is one that the portal shows only to a logged-in student.
pub open spec fn logged_in(page: Seq<char>) -> bool {
    has_substring(page, logged_in_marker())
}

/// A page is a logged-in one exactly when `logout.aspx` occurs anywhere in
/// it: whatever stands before and after the marker, on whatever line.
pub proof fn lemma_marker_anywhere(before: Seq<char>, after: Seq<char>)
    ensures
        logged_in(before + "logout.aspx"@ + after),
{
    let page = before + "logout.aspx"@ + after;
    let m = logged_in_marker();
    assert(page.subrange(before.len() as int, before.len() + m.len() as int) =~= m);
    assert(occurs_at(page, m, before.len() as int));
}

/// A page in which `logout.aspx` does not occur is not a logged-in one.
pub proof fn lemma_no_marker(page: Seq<char>)
    requires
        forall|before: Seq<char>, after: Seq<char>| page != before + "logout.aspx"@ + after,
    ensures
        !logged_in(page),
{
    if logged_in(page) {
        let m = logged_in_marker();
        let i = choose|i: int| occurs_at(page, m, i);
        let before = page.take(i);
        let after = page.skip(i + m.len() as int);
        assert(page =~= before + m + after);
    }
}

/// Whether `page` is shown only to a logged-in student.
pub fn is_logged_in(page: &str) -> (r: bool)
    ensures
        r == logged_in(page@),
{
    contains(page, "logout.aspx")
}

pub open spec fn login_success_message() -> Seq<char> {
    "Login successful"@
}

pub open spec fn login_failure_message() -> Seq<char> {
    "Login failed. Check your username and password."@
}

pub open spec fn page_success_message() -> Seq<char> {
    "Page requested successfully"@
}

pub open spec fn invalid_cookies_message() -> Seq<char> {
    "Failed to request page. Cookies are invalid."@
}

/// The answer to a login whose response page is `page`, with `cookies` the
/// cookies the client then held: success exactly when the page is a
/// logged-in one, and the cookies only then.
pub fn login_response(page: &str, cookies: String) -> (r: LoginResponse)
    ensures
        r.success == logged_in(page@),
        r.success ==> r.message@ == login_success_message() && r.cookies.deep_view() == Some(
            cookies@,
        ),
        !r.success ==> r.message@ == login_failure_message() && r.cookies is None,
{
    if is_logged_in(page) {
        LoginResponse {
            success: true,
            message: String::from_str("Login successful"),
            cookies: Some(cookies),
        }
    } else {
        LoginResponse {
            success: false,
            message: String::from_str("Login failed. Check your username and password."),
            cookies: None,
        }
    }
}

/// The answer to a page request whose response is `page`: the page when it
/// is a logged-in one, else the error that the cookies are invalid.
pub fn page_response(page: String) -> (r: Result<PageRequestResponse, String>)
    ensures
        r is Ok <==> logged_in(page@),
        r matches Ok(p) ==> p.success && p.message@ == page_success_message() && p.page@
            == page@,
        r matches Err(e) ==> e@ == invalid_cookies_message(),
{
    if !is_logged_in(page.as_str()) {
        return Err(String::from_str("Failed to request page. Cookies are invalid."));
    }
    Ok(
        PageRequestResponse {
            success: true,
            message: String::from_str("Page requested successfully"),
            page,
        },
    )
}

/// Whether cookies are valid, given the page they were presented for.
pub fn validate_response(page: &str) -> (r: ValidateCookiesResponse)
    ensures
        r.is_valid == logged_in(page@),
{
    ValidateCookiesResponse { is_valid: is_logged_in(page) }
}

/// The text of an authenticated page: `page` when it is a logged-in one,
/// else the error that the cookies are invalid.
pub fn authenticated_page(page: String) -> (r: Result<String, String>)
    ensures
        r is Ok <==> logged_in(page@),
        r matches Ok(t) ==> t@ == page@,
        r matches Err(e) ==> e@ == invalid_cookies_message(),
{
    if !is_logged_in(page.as_str()) {
        return Err(String::from_str("Failed to request page. Cookies are invalid."));
    }
    Ok(page)
}

/// The cookies `name=value` joined with `"; "`, as they are handed back
/// after a login.
pub open spec fn cookie_line_of(pairs: Seq<(Seq<char>, Seq<char>)>) -> Seq<char> {
    join(pairs.map_values(|p: (Seq<char>, Seq<char>)| p.0 + "="@ + p.1), "; "@)
}

/// Joins the cookies `name=value` with `"; "`.
pub fn cookie_line(pairs: &Vec<(String, String)>) -> (r: String)
    ensures
        r@ == cookie_line_of(pairs.deep_view()),
{
    let mut parts: Vec<String> = Vec::new();
    let mut i: usize = 0;
    while i < pairs.len()
        invariant
            i <= pairs@.len(),
            parts.deep_view() =~= pairs.deep_view().take(i as int).map_values(
                |p: (Seq<char>, Seq<char>)| p.0 + "="@ + p.1,
            ),
        decreases pairs@.len() - i,
    {
        let item = pairs[i].0.clone().concat("=").concat(pairs[i].1.as_str());
        let ghost before = parts.deep_view();
        parts.push(item);
        assert(parts.deep_view() =~= before.push(item@));
        assert(pairs.deep_view()[i as int] == (pairs@[i as int].0@, pairs@[i as int].1@));
        assert(pairs.deep_view().take(i + 1) =~= pairs.deep_view().take(i as int).push(
            pairs.deep_view()[i as int],
        ));
        i += 1;
    }
    assert(pairs.deep_view().take(i as int) =~= pairs.deep_view());
    join_strings(&parts, "; ")
}

/// The headers of the login form's submission.
pub open spec fn login_headers() -> Seq<(Seq<char>, Seq<char>)> {
    seq![
        ("user-agent"@, user_agent()),
        ("accept"@, "text/html,application/xhtml+xml,application/xml;q=0.9,*/*;q=0.8"@),
        ("accept-language"@, "en-US,en;q=0.5"@),
        ("accept-encoding"@, "gzip, deflate, br, zstd"@),
        ("content-type"@, "application/x-www-form-urlencoded"@),
        ("origin"@, "https://www.fit.ba"@),
        ("dnt"@, "1"@),
        ("connection"@, "keep-alive"@),
        ("referer"@, "https://www.fit.ba/student/login.aspx"@),
        ("upgrade-insecure-requests"@, "1"@),
        ("sec-fetch-dest"@, "document"@),
        ("sec-fetch-mode"@, "navigate"@),
        ("sec-fetch-site"@, "same-origin"@),
        ("sec-fetch-user"@, "?1"@),
        ("pragma"@, "no-cache"@),
        ("cache-control"@, "no-cache"@),
        ("te"@, "trailers"@),
    ]
}

/// The headers of the login form's submission.
pub fn login_header_list() -> (r: Vec<(String, String)>)
    ensures
        r.deep_view() == login_headers(),
{
    let mut h: Vec<(String, String)> = Vec::new();
    h.push(
        pair(
            "user-agent",
            "Mozilla/5.0 (Windows NT 10.0; Win64; x64; rv:133.0) Gecko/20100101 Firefox/133.0",
        ),
    );
    h.push(pair("accept", "text/html,application/xhtml+xml,application/xml;q=0.9,*/*;q=0.8"));
    h.push(pair("accept-language", "en-US,en;q=0.5"));
    h.push(pair("accept-encoding", "gzip, deflate, br, zstd"));
    h.push(pair("content-type", "application/x-www-form-urlencoded"));
    h.push(pair("origin", "https://www.fit.ba"));
    h.push(pair("dnt", "1"));
    h.push(pair("connection", "keep-alive"));
    h.push(pair("referer", "https://www.fit.ba/student/login.aspx"));
    h.push(pair("upgrade-insecure-requests", "1"));
    h.push(pair("sec-fetch-dest", "document"));
    h.push(pair("sec-fetch-mode", "navigate"));
    h.push(pair("sec-fetch-site", "same-origin"));
    h.push(pair("sec-fetch-user", "?1"));
    h.push(pair("pragma", "no-cache"));
    h.push(pair("cache-control", "no-cache"));
    h.push(pair("te", "trailers"));
    assert(h.deep_view() =~= login_headers());
    h
}

/// The fields of the login form, in the order they are sent.
pub open spec fn login_form(
    username: Seq<char>,
    password: Seq<char>,
    institute: Seq<char>,
    viewstate: Seq<char>,
    eventvalidation: Seq<char>,
    viewstategenerator: Seq<char>,
) -> Seq<(Seq<char>, Seq<char>)> {
    seq![
        ("txtBrojDosijea"@, username),
        ("txtLozinka"@, password),
        ("listInstitucija"@, institute),
        ("__VIEWSTATE"@, viewstate),
        ("__EVENTVALIDATION"@, eventvalidation),
        ("__VIEWSTATEGENERATOR"@, viewstategenerator),
        ("__EVENTTARGET"@, ""@),
        ("__EVENTARGUMENT"@, ""@),
        ("__LASTFOCUS"@, ""@),
        ("btnPrijava"@, "Prijava"@),
    ]
}

/// What submitting the login form read from `page` gives: the request, or
/// the error of the first hidden field that could not be read.
pub open spec fn login_request_result(
    page: Seq<char>,
    username: Seq<char>,
    password: Seq<char>,
    institute: Seq<char>,
) -> Result<HttpRequestView, Seq<char>> {
    match hidden_field(page, "__VIEWSTATE"@) {
        Err(e) => Err(e),
        Ok(vs) => match hidden_field(page, "__EVENTVALIDATION"@) {
            Err(e) => Err(e),
            Ok(ev) => match hidden_field(page, "__VIEWSTATEGENERATOR"@) {
                Err(e) => Err(e),
                Ok(vg) => Ok(
                    HttpRequestView {
                        method: Method::Post,
                        url: login_url(),
                        headers: login_headers(),
                        form: login_form(username, password, institute, vs, ev, vg),
                    },
                ),
            },
        },
    }
}

/// The submission of the login form, with the hidden fields read from the
/// login page `page`; the error of the first hidden field that is missing.
pub fn login_request(page: &str, username: &str, password: &str, institute: &str) -> (r: Result<
    HttpRequest,
    String,
>)
    ensures
        match r {
            Ok(req) => login_request_result(page@, username@, password@, institute@) == Ok::<
                HttpRequestView,
                Seq<char>,
            >(req@),
            Err(e) => login_request_result(page@, username@, password@, institute@) == Err::<
                HttpRequestView,
                Seq<char>,
            >(e@),
        },
{
    let viewstate = match hidden_field_value(page, "__VIEWSTATE") {
        Ok(v) => v,
        Err(e) => return Err(e),
    };
    let eventvalidation = match hidden_field_value(page, "__EVENTVALIDATION") {
        Ok(v) => v,
        Err(e) => return Err(e),
    };
    let viewstategenerator = match hidden_field_value(page, "__VIEWSTATEGENERATOR") {
        Ok(v) => v,
        Err(e) => return Err(e),
    };
    let mut form: Vec<(String, String)> = Vec::new();
    form.push(pair("txtBrojDosijea", username));
    form.push(pair("txtLozinka", password));
    form.push(pair("listInstitucija", institute));
    form.push((String::from_str("__VIEWSTATE"), viewstate));
    form.push((String::from_str("__EVENTVALIDATION"), eventvalidation));
    form.push((String::from_str("__VIEWSTATEGENERATOR"), viewstategenerator));
    form.push(pair("__EVENTTARGET", ""));
    form.push(pair("__EVENTARGUMENT", ""));
    form.push(pair("__LASTFOCUS", ""));
    form.push(pair("btnPrijava", "Prijava"));
    let req = HttpRequest {
        method: Method::Post,
        url: String::from_str("https://www.fit.ba/student/login.aspx"),
        headers: login_header_list(),
        form,
    };
    assert(req@.form =~= login_form(
        username@,
        password@,
        institute@,
        viewstate@,
        eventvalidation@,
        viewstategenerator@,
    ));
    Ok(req)
}

} // verus!
