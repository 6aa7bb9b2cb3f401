//! The order of the exchanges with the portal. Each flow is a state and a
//! step function: given the answer to the last request, the step says what
//! to do next (send a request, read the answer's body, finish, or stop
//! with an error), and no request follows a failed check.
use vstd::prelude::*;
use crate::home::{
    fetch_failed_message, home_news_result, home_page_request, home_request_result, parse_news, News,
};
use crate::http::{
    cookie_request, cookie_request_result, home_url, is_success, login_page_request, login_url,
    plain_get, success_status, HttpRequest,
};
use crate::portal::{
    cookie_line, cookie_line_of, invalid_cookies_message, is_logged_in, logged_in,
    login_failure_message, login_request, login_request_result, login_response,
    login_success_message, LoginResponse,
};

verus! {

/// Where a login stands.
#[derive(PartialEq, Eq, Structural, Clone, Copy, Debug)]
pub enum LoginStage {
    /// Nothing sent yet.
    Start,
    /// The login page was asked for.
    PageRequested,
    /// The filled-in form was sent.
    FormSubmitted,
    /// The login is over.
    Done,
}

/// A login under way: the credentials and the stage.
pub struct LoginFlow {
    pub username: String,
    pub password: String,
    pub institute: String,
    pub stage: LoginStage,
}

/// The answer the last request of a login brought.
pub enum LoginAnswer {
    /// Nothing was sent yet.
    Nothing,
    /// The text of the login page.
    Page(String),
    /// The text of the answer to the form, and the cookies the client
    /// then held, `name=value` pairs.
    Response(String, Vec<(String, String)>),
}

/// What a login does next.
pub enum LoginAction {
    Send(HttpRequest),
    Finish(LoginResponse),
    Fail(String),
}

/// The answer is the one the stage waits for.
pub open spec fn login_answer_fits(stage: LoginStage, answer: LoginAnswer) -> bool {
    match stage {
        LoginStage::Start => answer is Nothing,
        LoginStage::PageRequested => answer is Page,
        LoginStage::FormSubmitted => answer is Response,
        LoginStage::Done => false,
    }
}

/// A login that has not sent anything yet.
pub fn login_flow(username: &str, password: &str, institute: &str) -> (r: LoginFlow)
    ensures
        r.username@ == username@,
        r.password@ == password@,
        r.institute@ == institute@,
        r.stage == LoginStage::Start,
{
    LoginFlow {
        username: String::from_str(username),
        password: String::from_str(password),
        institute: String::from_str(institute),
        stage: LoginStage::Start,
    }
}

/// One step of a login. First the login page is fetched; from its text
/// the form is filled in and sent, or the login stops with the error of a
/// missing hidden field; the answer to the form and the cookies then held
/// give the result.
pub fn login_step(flow: &mut LoginFlow, answer: LoginAnswer) -> (r: LoginAction)
    requires
        login_answer_fits(old(flow).stage, answer),
    ensures
        final(flow).username == old(flow).username,
        final(flow).password == old(flow).password,
        final(flow).institute == old(flow).institute,
        old(flow).stage == LoginStage::Start ==> final(flow).stage == LoginStage::PageRequested
            && (r matches LoginAction::Send(req) && req@ == plain_get(login_url())),
        answer matches LoginAnswer::Page(page) ==> match login_request_result(
            page@,
            old(flow).username@,
            old(flow).password@,
            old(flow).institute@,
        ) {
            Ok(v) => final(flow).stage == LoginStage::FormSubmitted && (r matches LoginAction::Send(
                req,
            ) && req@ == v),
            Err(e) => final(flow).stage == LoginStage::Done && (r matches LoginAction::Fail(m)
                && m@ == e),
        },
        answer matches LoginAnswer::Response(text, _pairs) ==> final(flow).stage
            == LoginStage::Done && (r matches LoginAction::Finish(resp) && resp.success
            == logged_in(text@)),
        answer matches LoginAnswer::Response(text, pairs) ==> (r matches LoginAction::Finish(resp)
            && (resp.success ==> resp.message@ == login_success_message()
            && resp.cookies.deep_view() == Some(cookie_line_of(pairs.deep_view())))
            && (!resp.success ==> resp.message@ == login_failure_message()
            && resp.cookies is None)),
{
    match answer {
        LoginAnswer::Nothing => {
            flow.stage = LoginStage::PageRequested;
            LoginAction::Send(login_page_request())
        },
        LoginAnswer::Page(page) => {
            match login_request(
                page.as_str(),
                flow.username.as_str(),
                flow.password.as_str(),
                flow.institute.as_str(),
            ) {
                Ok(req) => {
                    flow.stage = LoginStage::FormSubmitted;
                    LoginAction::Send(req)
                },
                Err(e) => {
                    flow.stage = LoginStage::Done;
                    LoginAction::Fail(e)
                },
            }
        },
        LoginAnswer::Response(text, pairs) => {
            flow.stage = LoginStage::Done;
            let cookies = cookie_line(&pairs);
            LoginAction::Finish(login_response(text.as_str(), cookies))
        },
    }
}

/// What a session login gives once its login flow finished: nothing on
/// success, else the answer's message.
pub fn session_outcome(resp: &LoginResponse) -> (r: Result<(), String>)
    ensures
        r is Ok <==> resp.success,
        r matches Err(e) ==> e@ == resp.message@,
{
    if resp.success {
        Ok(())
    } else {
        Err(resp.message.clone())
    }
}

/// Where the reading of a page of the news list stands.
#[derive(PartialEq, Eq, Structural, Clone, Copy, Debug)]
pub enum HomeStage {
    /// Nothing sent yet.
    Start,
    /// The home page was asked for with the stored cookies.
    HomeRequested,
    /// The page of the list was asked for; its status is awaited.
    ListRequested,
    /// The list's answer succeeded; its body is awaited.
    ListAccepted,
    /// The reading is over.
    Done,
}

/// The reading of page `page_number` of the news list, with the stored
/// `cookies`.
pub struct HomeFlow {
    pub cookies: String,
    pub page_number: usize,
    pub stage: HomeStage,
}

/// The answer the last request brought.
pub enum HomeAnswer {
    Nothing,
    /// The status of the answer.
    Status(u16),
    /// The text of the answer.
    Body(String),
}

/// What the reading does next.
pub enum HomeAction {
    /// Send this request.
    Send(HttpRequest),
    /// Read the body of the answer just received.
    ReadBody,
    /// The news items of the page.
    Finish(Vec<News>),
    /// Stop with this error.
    Fail(String),
    /// Page 0 was asked for: the page before it is out of range.
    PageBeforeFirst,
}

/// The answer is the one the stage waits for.
pub open spec fn home_answer_fits(stage: HomeStage, answer: HomeAnswer) -> bool {
    match stage {
        HomeStage::Start => answer is Nothing,
        HomeStage::HomeRequested => answer is Body,
        HomeStage::ListRequested => answer is Status,
        HomeStage::ListAccepted => answer is Body,
        HomeStage::Done => false,
    }
}

/// A reading of the news list that has not sent anything yet.
pub fn home_flow(cookies: &str, page_number: usize) -> (r: HomeFlow)
    ensures
        r.cookies@ == cookies@,
        r.page_number == page_number,
        r.stage == HomeStage::Start,
{
    HomeFlow { cookies: String::from_str(cookies), page_number, stage: HomeStage::Start }
}

/// One step of reading page `page_number` of the news list. The home page
/// is fetched with the stored cookies (none is sent when they cannot be a
/// header); a page that is not a logged-in one stops the reading; from the
/// home page the request for the list page is made, or the reading stops
/// with the error of a missing hidden field or a selector; a status that is
/// not a success stops it; and the list's body gives the news items.
pub fn home_step(flow: &mut HomeFlow, answer: HomeAnswer) -> (r: HomeAction)
    requires
        home_answer_fits(old(flow).stage, answer),
    ensures
        final(flow).cookies == old(flow).cookies,
        final(flow).page_number == old(flow).page_number,
        old(flow).stage == HomeStage::Start ==> match cookie_request_result(
            home_url(),
            old(flow).cookies@,
        ) {
            Ok(v) => final(flow).stage == HomeStage::HomeRequested && (r matches HomeAction::Send(
                req,
            ) && req@ == v),
            Err(e) => final(flow).stage == HomeStage::Done && (r matches HomeAction::Fail(m)
                && m@ == e),
        },
        old(flow).stage == HomeStage::HomeRequested ==> (answer matches HomeAnswer::Body(text)
            && if !logged_in(text@) {
            final(flow).stage == HomeStage::Done && (r matches HomeAction::Fail(m) && m@
                == invalid_cookies_message())
        } else if old(flow).page_number == 0 {
            final(flow).stage == HomeStage::Done && match home_request_result(
                text@,
                old(flow).cookies@,
                1,
            ) {
                Ok(_) => r is PageBeforeFirst,
                Err(e) => (r matches HomeAction::Fail(m) && m@ == e),
            }
        } else {
            match home_request_result(text@, old(flow).cookies@, old(flow).page_number as nat) {
                Ok(v) => final(flow).stage == HomeStage::ListRequested && (r matches HomeAction::Send(
                    req,
                ) && req@ == v),
                Err(e) => final(flow).stage == HomeStage::Done && (r matches HomeAction::Fail(m)
                    && m@ == e),
            }
        }),
        old(flow).stage == HomeStage::ListRequested ==> (answer matches HomeAnswer::Status(code)
            && if success_status(code) {
            final(flow).stage == HomeStage::ListAccepted && r is ReadBody
        } else {
            final(flow).stage == HomeStage::Done && (r matches HomeAction::Fail(m) && m@
                == fetch_failed_message())
        }),
        old(flow).stage == HomeStage::ListAccepted ==> (answer matches HomeAnswer::Body(text)
            && final(flow).stage == HomeStage::Done && match home_news_result(200, text@) {
            Ok(v) => (r matches HomeAction::Finish(items) && items.deep_view() == v),
            Err(e) => (r matches HomeAction::Fail(m) && m@ == e),
        }),
{
    match flow.stage {
        HomeStage::Start => {
            match cookie_request("https://www.fit.ba/student/default.aspx", flow.cookies.as_str()) {
                Ok(req) => {
                    flow.stage = HomeStage::HomeRequested;
                    HomeAction::Send(req)
                },
                Err(e) => {
                    flow.stage = HomeStage::Done;
                    HomeAction::Fail(e)
                },
            }
        },
        HomeStage::HomeRequested => {
            let text = match answer {
                HomeAnswer::Body(t) => t,
                _ => {
                    flow.stage = HomeStage::Done;
                    return HomeAction::Fail(String::new());
                },
            };
            flow.stage = HomeStage::Done;
            if !is_logged_in(text.as_str()) {
                return HomeAction::Fail(
                    String::from_str("Failed to request page. Cookies are invalid."),
                );
            }
            if flow.page_number == 0 {
                return match home_page_request(text.as_str(), flow.cookies.as_str(), 1) {
                    Ok(_) => HomeAction::PageBeforeFirst,
                    Err(e) => HomeAction::Fail(e),
                };
            }
            match home_page_request(text.as_str(), flow.cookies.as_str(), flow.page_number) {
                Ok(req) => {
                    flow.stage = HomeStage::ListRequested;
                    HomeAction::Send(req)
                },
                Err(e) => HomeAction::Fail(e),
            }
        },
        HomeStage::ListRequested => {
            let code = match answer {
                HomeAnswer::Status(c) => c,
                _ => {
                    flow.stage = HomeStage::Done;
                    return HomeAction::Fail(String::new());
                },
            };
            if is_success(code) {
                flow.stage = HomeStage::ListAccepted;
                HomeAction::ReadBody
            } else {
                flow.stage = HomeStage::Done;
                HomeAction::Fail(String::from_str("Failed to fetch the requested page"))
            }
        },
        HomeStage::ListAccepted => {
            let text = match answer {
                HomeAnswer::Body(t) => t,
                _ => {
                    flow.stage = HomeStage::Done;
                    return HomeAction::Fail(String::new());
                },
            };
            flow.stage = HomeStage::Done;
            match parse_news(text.as_str()) {
                Ok(items) => HomeAction::Finish(items),
                Err(e) => HomeAction::Fail(e),
            }
        },
        HomeStage::Done => HomeAction::Fail(String::new()),
    }
}

/// What to do with a session after asking whether it is still open.
#[derive(PartialEq, Eq, Structural, Clone, Copy, Debug)]
pub enum SessionNext {
    /// The session is open: keep using its client.
    KeepClient,
    /// Log in again (and save the new cookies).
    LogInAgain,
}

/// The decision after the session check: keep the client when the check
/// was answered with a success status; log in again when it failed or was
/// not answered.
pub fn session_check_step(status: Option<u16>) -> (r: SessionNext)
    ensures
        r == SessionNext::KeepClient <==> (status matches Some(code) && success_status(code)),
{
    match status {
        Some(code) => {
            if is_success(code) {
                SessionNext::KeepClient
            } else {
                SessionNext::LogInAgain
            }
        },
        None => SessionNext::LogInAgain,
    }
}

} // verus!
