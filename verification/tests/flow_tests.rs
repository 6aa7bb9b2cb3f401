use fit_portal::flow::{
    home_flow, home_step, login_flow, login_step, session_check_step, HomeAction, HomeAnswer,
    HomeStage, LoginAction, LoginAnswer, LoginStage, SessionNext,
};
use fit_portal::http::Method;

const LOGIN_PAGE: &str = "<form>\
    <input name=\"__VIEWSTATE\" value=\"VS1\">\
    <input name=\"__EVENTVALIDATION\" value=\"EV1\">\
    <input name=\"__VIEWSTATEGENERATOR\" value=\"GEN1\"></form>";

const HOME_PAGE: &str = "<form>\
    <input name=\"__VIEWSTATE\" value=\"VS\">\
    <input name=\"__EVENTVALIDATION\" value=\"EV\">\
    <input name=\"__VIEWSTATEGENERATOR\" value=\"GEN\"></form><a href=\"logout.aspx\">x</a>";

const LIST_PAGE: &str = "<ul class=\"newslist\"><li><a id=\"lnkNaslov\" href=\"n?id=7\">T</a>\
    <div class=\"abstract\">  a   b </div></li></ul>";

#[test]
fn login_runs_page_form_answer() {
    let mut login = login_flow("IB1", "pw", "1");
    let first = login_step(&mut login, LoginAnswer::Nothing);
    assert_eq!(login.stage, LoginStage::PageRequested);
    match first {
        LoginAction::Send(req) => {
            assert_eq!(req.method, Method::Get);
            assert_eq!(req.url, "https://www.fit.ba/student/login.aspx");
            assert!(req.headers.is_empty());
        }
        _ => panic!("expected the login page request"),
    }
    match login_step(&mut login, LoginAnswer::Page(LOGIN_PAGE.to_string())) {
        LoginAction::Send(req) => {
            assert_eq!(req.method, Method::Post);
            assert_eq!(req.form[0], ("txtBrojDosijea".to_string(), "IB1".to_string()));
            assert_eq!(req.form[3], ("__VIEWSTATE".to_string(), "VS1".to_string()));
        }
        _ => panic!("expected the form submission"),
    }
    assert_eq!(login.stage, LoginStage::FormSubmitted);
    let pairs = vec![("sid".to_string(), "1".to_string()), ("auth".to_string(), "2".to_string())];
    match login_step(&mut login, LoginAnswer::Response("<a href=\"logout.aspx\">".to_string(), pairs)) {
        LoginAction::Finish(resp) => {
            assert!(resp.success);
            assert_eq!(resp.cookies, Some("sid=1; auth=2".to_string()));
        }
        _ => panic!("expected the result"),
    }
    assert_eq!(login.stage, LoginStage::Done);
}

#[test]
fn login_stops_before_form_without_hidden_fields() {
    let mut login = login_flow("u", "p", "1");
    let _ = login_step(&mut login, LoginAnswer::Nothing);
    match login_step(&mut login, LoginAnswer::Page("<p>down</p>".to_string())) {
        LoginAction::Fail(e) => assert_eq!(e, "Failed to extract value for field: __VIEWSTATE"),
        _ => panic!("expected an error"),
    }
    assert_eq!(login.stage, LoginStage::Done);
}

#[test]
fn login_refused() {
    let mut login = login_flow("u", "p", "1");
    let _ = login_step(&mut login, LoginAnswer::Nothing);
    let _ = login_step(&mut login, LoginAnswer::Page(LOGIN_PAGE.to_string()));
    match login_step(&mut login, LoginAnswer::Response("<p>wrong</p>".to_string(), Vec::new())) {
        LoginAction::Finish(resp) => {
            assert!(!resp.success);
            assert_eq!(resp.message, "Login failed. Check your username and password.");
            assert_eq!(resp.cookies, None);
        }
        _ => panic!("expected the result"),
    }
}

#[test]
fn home_reading_runs_to_the_items() {
    let mut reading = home_flow("a=1;b=2", 2);
    match home_step(&mut reading, HomeAnswer::Nothing) {
        HomeAction::Send(req) => {
            assert_eq!(req.url, "https://www.fit.ba/student/default.aspx");
            assert_eq!(req.headers[1], ("cookie".to_string(), "a=1; b=2".to_string()));
        }
        _ => panic!("expected the home page request"),
    }
    match home_step(&mut reading, HomeAnswer::Body(HOME_PAGE.to_string())) {
        HomeAction::Send(req) => {
            assert_eq!(req.method, Method::Post);
            assert_eq!(req.headers, vec![("Cookie".to_string(), "a=1;b=2".to_string())]);
            assert_eq!(
                req.form[0].1,
                "ctl00$ContentPlaceHolder1$dgObavijesti$ctl14$ctl01".to_string()
            );
        }
        _ => panic!("expected the list request"),
    }
    assert_eq!(reading.stage, HomeStage::ListRequested);
    assert!(matches!(home_step(&mut reading, HomeAnswer::Status(200)), HomeAction::ReadBody));
    match home_step(&mut reading, HomeAnswer::Body(LIST_PAGE.to_string())) {
        HomeAction::Finish(items) => {
            assert_eq!(items.len(), 1);
            assert_eq!(items[0].title, "T");
            assert_eq!(items[0].abstract_text, "a b");
            assert_eq!(items[0].link, "https://www.fit.ba/student/n?id=7");
        }
        _ => panic!("expected the items"),
    }
    assert_eq!(reading.stage, HomeStage::Done);
}

#[test]
fn home_reading_stops_early() {
    let mut bad_cookies = home_flow("a=\n", 1);
    match home_step(&mut bad_cookies, HomeAnswer::Nothing) {
        HomeAction::Fail(e) => assert_eq!(e, "failed to parse header value"),
        _ => panic!("expected an error"),
    }
    let mut logged_out = home_flow("a=1", 1);
    let _ = home_step(&mut logged_out, HomeAnswer::Nothing);
    match home_step(&mut logged_out, HomeAnswer::Body("<p>login</p>".to_string())) {
        HomeAction::Fail(e) => assert_eq!(e, "Failed to request page. Cookies are invalid."),
        _ => panic!("expected an error"),
    }
    let mut no_fields = home_flow("a=1", 1);
    let _ = home_step(&mut no_fields, HomeAnswer::Nothing);
    match home_step(&mut no_fields, HomeAnswer::Body("logout.aspx".to_string())) {
        HomeAction::Fail(e) => assert_eq!(e, "Failed to extract value for field: __VIEWSTATE"),
        _ => panic!("expected an error"),
    }
    let mut refused = home_flow("a=1", 1);
    let _ = home_step(&mut refused, HomeAnswer::Nothing);
    let _ = home_step(&mut refused, HomeAnswer::Body(HOME_PAGE.to_string()));
    match home_step(&mut refused, HomeAnswer::Status(503)) {
        HomeAction::Fail(e) => assert_eq!(e, "Failed to fetch the requested page"),
        _ => panic!("expected an error"),
    }
    assert_eq!(refused.stage, HomeStage::Done);
}

#[test]
fn home_page_zero_is_out_of_range() {
    let mut reading = home_flow("a=1", 0);
    let _ = home_step(&mut reading, HomeAnswer::Nothing);
    assert!(matches!(
        home_step(&mut reading, HomeAnswer::Body(HOME_PAGE.to_string())),
        HomeAction::PageBeforeFirst
    ));
    let mut missing = home_flow("a=1", 0);
    let _ = home_step(&mut missing, HomeAnswer::Nothing);
    assert!(matches!(
        home_step(&mut missing, HomeAnswer::Body("logout.aspx".to_string())),
        HomeAction::Fail(_)
    ));
}

#[test]
fn session_check_decision() {
    assert_eq!(session_check_step(Some(200)), SessionNext::KeepClient);
    assert_eq!(session_check_step(Some(302)), SessionNext::LogInAgain);
    assert_eq!(session_check_step(Some(500)), SessionNext::LogInAgain);
    assert_eq!(session_check_step(None), SessionNext::LogInAgain);
}
