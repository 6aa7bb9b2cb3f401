use fit_portal::home::{event_target_for, home_news, home_page_request, parse_news};
use fit_portal::http::Method;

const HOME_PAGE: &str = "<html><body><form>\
    <input type=\"hidden\" name=\"__VIEWSTATE\" value=\"VS\">\
    <input type=\"hidden\" name=\"__EVENTVALIDATION\" value=\"EV\">\
    <input type=\"hidden\" name=\"__VIEWSTATEGENERATOR\" value=\"GEN\">\
    </form><a href=\"logout.aspx\">x</a></body></html>";

const NEWS_PAGE: &str = "<html><body><ul class=\"newslist\">\
    <li><a id=\"lnkNaslov\" href=\"obavijest.aspx?id=1\">Exam dates</a>\
    <span id=\"lblDatum\">01.02.2024</span><span id=\"lblPredmet\">Math</span>\
    <a id=\"HyperLink9\">Prof X</a>\
    <div class=\"abstract\"><p>Line one\n  and   two</p><p>three</p></div></li>\
    <li><a id=\"lnkNaslov\">No link</a></li>\
    </ul><ul><li><a id=\"lnkNaslov\" href=\"elsewhere\">Not news</a></li></ul></body></html>";

#[test]
fn postback_targets() {
    let prefix = "ctl00$ContentPlaceHolder1$dgObavijesti$ctl14$ctl";
    assert_eq!(event_target_for(1), format!("{}00", prefix));
    assert_eq!(event_target_for(2), format!("{}01", prefix));
    assert_eq!(event_target_for(10), format!("{}09", prefix));
    assert_eq!(event_target_for(11), format!("{}10", prefix));
    assert_eq!(event_target_for(101), format!("{}100", prefix));
}

#[test]
fn postback_targets_differ() {
    for p in 1..60usize {
        for q in 1..60usize {
            assert_eq!(event_target_for(p) == event_target_for(q), p == q);
        }
    }
}

#[test]
fn news_page_request() {
    let req = home_page_request(HOME_PAGE, "a=1;b=2", 3).ok().unwrap();
    assert_eq!(req.method, Method::Post);
    assert_eq!(req.url, "https://www.fit.ba/student/default.aspx");
    assert_eq!(req.headers, vec![("Cookie".to_string(), "a=1;b=2".to_string())]);
    let form: Vec<(&str, &str)> = req.form.iter().map(|(a, b)| (a.as_str(), b.as_str())).collect();
    assert_eq!(
        form,
        vec![
            ("__EVENTTARGET", "ctl00$ContentPlaceHolder1$dgObavijesti$ctl14$ctl02"),
            ("__EVENTARGUMENT", ""),
            ("__VIEWSTATE", "VS"),
            ("__EVENTVALIDATION", "EV"),
            ("__VIEWSTATEGENERATOR", "GEN"),
        ]
    );
}

#[test]
fn news_page_request_needs_hidden_fields() {
    assert_eq!(
        home_page_request("<p>nothing</p>", "a=1", 1).err(),
        Some("Failed to extract value for field: __VIEWSTATE".to_string())
    );
}

#[test]
fn news_items_are_read() {
    let news = parse_news(NEWS_PAGE).ok().unwrap();
    assert_eq!(news.len(), 2);
    assert_eq!(news[0].title, "Exam dates");
    assert_eq!(news[0].date, "01.02.2024");
    assert_eq!(news[0].subject, "Math");
    assert_eq!(news[0].author, "Prof X");
    assert_eq!(news[0].abstract_text, "Line one and two three");
    assert_eq!(news[0].link, "https://www.fit.ba/student/obavijest.aspx?id=1");
    assert_eq!(news[1].title, "No link");
    assert_eq!(news[1].date, "");
    assert_eq!(news[1].abstract_text, "");
    assert_eq!(news[1].link, "https://www.fit.ba/student/");
}

#[test]
fn news_answer_status() {
    assert_eq!(
        home_news(500, NEWS_PAGE).err(),
        Some("Failed to fetch the requested page".to_string())
    );
    assert_eq!(home_news(200, NEWS_PAGE).ok().unwrap().len(), 2);
    assert!(home_news(200, "<html></html>").ok().unwrap().is_empty());
}
