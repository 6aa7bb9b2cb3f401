use fit_portal::http::{cookie_request, is_success, Method};
use fit_portal::portal::{
    authenticated_page, cookie_line, login_header_list, login_request, login_response,
    page_response, validate_response,
};
use fit_portal::flow::session_outcome;
use fit_portal::scrape::{extract_hidden_value, hidden_field_value};

const LOGIN_PAGE: &str = "<html><body><form>\
    <input type=\"hidden\" name=\"__VIEWSTATE\" value=\"VS1\">\
    <input type=\"hidden\" name=\"__EVENTVALIDATION\" value=\"EV1\">\
    <input type=\"hidden\" name=\"__VIEWSTATEGENERATOR\" value=\"GEN1\">\
    </form></body></html>";

const LOGGED_IN: &str = "<html><body><a href=\"logout.aspx\">Odjava</a></body></html>";
const LOGGED_OUT: &str = "<html><body><a href=\"login.aspx\">Prijava</a></body></html>";

fn pairs(items: &[(&str, &str)]) -> Vec<(String, String)> {
    items.iter().map(|(a, b)| (a.to_string(), b.to_string())).collect()
}

#[test]
fn hidden_values_are_read() {
    assert_eq!(hidden_field_value(LOGIN_PAGE, "__VIEWSTATE"), Ok("VS1".to_string()));
    assert_eq!(extract_hidden_value(LOGIN_PAGE, "__VIEWSTATEGENERATOR"), Ok("GEN1".to_string()));
    assert_eq!(
        hidden_field_value(LOGIN_PAGE, "__LASTFOCUS"),
        Err("Failed to extract value for field: __LASTFOCUS".to_string())
    );
}

#[test]
fn hidden_value_needs_value_attribute() {
    let page = "<input name=\"__VIEWSTATE\"><input name=\"__VIEWSTATE\" value=\"late\">";
    assert_eq!(
        hidden_field_value(page, "__VIEWSTATE"),
        Err("Failed to extract value for field: __VIEWSTATE".to_string())
    );
}

#[test]
fn hidden_value_read_the_same_everywhere() {
    for field in ["__VIEWSTATE", "__EVENTVALIDATION", "__LASTFOCUS"] {
        assert_eq!(hidden_field_value(LOGIN_PAGE, field), extract_hidden_value(LOGIN_PAGE, field));
    }
}

#[test]
fn hidden_value_with_unparsable_selector() {
    assert_eq!(hidden_field_value(LOGIN_PAGE, "a\"b"), Err("Invalid selector".to_string()));
    assert_eq!(hidden_field_value(LOGIN_PAGE, "x\"]!"), Err("Invalid selector".to_string()));
    assert_eq!(hidden_field_value(LOGIN_PAGE, "x\"]!y"), Err("Invalid selector".to_string()));
}

#[test]
fn login_form_is_posted() {
    let req = login_request(LOGIN_PAGE, "IB123", "secret", "1").unwrap();
    assert_eq!(req.method, Method::Post);
    assert_eq!(req.url, "https://www.fit.ba/student/login.aspx");
    assert_eq!(
        req.form,
        pairs(&[
            ("txtBrojDosijea", "IB123"),
            ("txtLozinka", "secret"),
            ("listInstitucija", "1"),
            ("__VIEWSTATE", "VS1"),
            ("__EVENTVALIDATION", "EV1"),
            ("__VIEWSTATEGENERATOR", "GEN1"),
            ("__EVENTTARGET", ""),
            ("__EVENTARGUMENT", ""),
            ("__LASTFOCUS", ""),
            ("btnPrijava", "Prijava"),
        ])
    );
    assert_eq!(req.headers, login_header_list());
    assert_eq!(req.headers.len(), 17);
    assert_eq!(req.headers[0].0, "user-agent");
    assert_eq!(req.headers[16], ("te".to_string(), "trailers".to_string()));
}

#[test]
fn login_form_needs_hidden_fields() {
    let page = "<input name=\"__VIEWSTATE\" value=\"VS1\">";
    assert_eq!(
        login_request(page, "u", "p", "1").err(),
        Some("Failed to extract value for field: __EVENTVALIDATION".to_string())
    );
    assert_eq!(
        login_request("", "u", "p", "1").err(),
        Some("Failed to extract value for field: __VIEWSTATE".to_string())
    );
}

#[test]
fn login_answer() {
    let ok = login_response(LOGGED_IN, "a=1; b=2".to_string());
    assert!(ok.success);
    assert_eq!(ok.message, "Login successful");
    assert_eq!(ok.cookies, Some("a=1; b=2".to_string()));
    let failed = login_response(LOGGED_OUT, "a=1".to_string());
    assert!(!failed.success);
    assert_eq!(failed.message, "Login failed. Check your username and password.");
    assert_eq!(failed.cookies, None);
}

#[test]
fn page_answer() {
    let page = page_response(LOGGED_IN.to_string()).ok().unwrap();
    assert!(page.success);
    assert_eq!(page.message, "Page requested successfully");
    assert_eq!(page.page, LOGGED_IN);
    assert_eq!(
        page_response(LOGGED_OUT.to_string()).err(),
        Some("Failed to request page. Cookies are invalid.".to_string())
    );
}

#[test]
fn one_marker_decides_every_answer() {
    for page in [LOGGED_IN, LOGGED_OUT, "", "xx logout.aspx"] {
        let valid = validate_response(page).is_valid;
        assert_eq!(login_response(page, String::new()).success, valid);
        assert_eq!(page_response(page.to_string()).is_ok(), valid);
        assert_eq!(authenticated_page(page.to_string()).is_ok(), valid);
        assert_eq!(session_outcome(&login_response(page, String::new())).is_ok(), valid);
    }
}

#[test]
fn session_login_errors() {
    assert_eq!(session_outcome(&login_response(LOGGED_IN, String::new())), Ok(()));
    assert_eq!(
        session_outcome(&login_response(LOGGED_OUT, String::new())),
        Err("Login failed. Check your username and password.".to_string())
    );
    assert_eq!(authenticated_page(LOGGED_IN.to_string()), Ok(LOGGED_IN.to_string()));
}

#[test]
fn cookies_joined_after_login() {
    assert_eq!(cookie_line(&pairs(&[("ASP.NET_SessionId", "x1"), ("auth", "y2")])), "ASP.NET_SessionId=x1; auth=y2");
    assert_eq!(cookie_line(&Vec::new()), "");
}

#[test]
fn cookie_get_request() {
    let req = cookie_request("https://www.fit.ba/student/default.aspx", "a=1;b=2").ok().unwrap();
    assert_eq!(req.method, Method::Get);
    assert_eq!(req.url, "https://www.fit.ba/student/default.aspx");
    assert_eq!(
        req.headers,
        pairs(&[
            (
                "user-agent",
                "Mozilla/5.0 (Windows NT 10.0; Win64; x64; rv:133.0) Gecko/20100101 Firefox/133.0"
            ),
            ("cookie", "a=1; b=2"),
        ])
    );
    assert!(req.form.is_empty());
}

#[test]
fn cookie_request_refuses_control_characters() {
    assert_eq!(
        cookie_request("https://www.fit.ba/", "a=1\nb=2").err(),
        Some("failed to parse header value".to_string())
    );
    assert!(cookie_request("https://www.fit.ba/", "a=\u{e9}\t1").is_ok());
    assert!(cookie_request("https://www.fit.ba/", "a=\u{7f}").is_err());
}

#[test]
fn success_statuses() {
    assert!(is_success(200));
    assert!(is_success(204));
    assert!(is_success(299));
    assert!(!is_success(199));
    assert!(!is_success(300));
    assert!(!is_success(404));
}
