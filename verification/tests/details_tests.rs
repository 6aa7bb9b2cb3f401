use fit_portal::details::{build_news_details, parse_news_details};
use fit_portal::scrape::Element;

const DETAILS_PAGE: &str = "<html><body>\
    <span id=\"lblNaslov\">Title <b>here</b></span><span id=\"lblDatum\">D</span>\
    <span id=\"lblPredmet\">S</span><a id=\"linkNapisao\">A</a>\
    <div id=\"Panel1\"><p>Hello <b>big</b> world</p><p> second </p>\
    <img src=\"data:image/png;base64,QUJD\">\
    <table><tr><td>a <i>b</i></td><td>c</td></tr><tr><td>d</td></tr></table>\
    <table><tr><td>e</td></tr></table></div></body></html>";

#[test]
fn details_are_read() {
    let d = parse_news_details(DETAILS_PAGE).ok().unwrap();
    assert_eq!(d.title, "Title <b>here</b>");
    assert_eq!(d.date, "D");
    assert_eq!(d.subject, "S");
    assert_eq!(d.author, "A");
    assert_eq!(d.abstract_text, Some("Hello big world second".to_string()));
    assert_eq!(d.file, Some("QUJD".to_string()));
    let table = d.table.unwrap();
    assert_eq!(
        table,
        vec![
            vec!["a  b".to_string(), "c".to_string()],
            vec!["d".to_string()],
            vec!["e".to_string()],
        ]
    );
}

#[test]
fn details_of_empty_page() {
    let d = parse_news_details("<html></html>").ok().unwrap();
    assert_eq!(d.title, "");
    assert_eq!(d.abstract_text, Some(String::new()));
    assert_eq!(d.file, None);
    assert_eq!(d.table, Some(Vec::new()));
}

#[test]
fn details_built_from_elements() {
    let el = |inner: &str, attr: Option<&str>, text: &[&str]| Element {
        inner_html: inner.to_string(),
        attr: attr.map(|a| a.to_string()),
        text: text.iter().map(|t| t.to_string()).collect(),
    };
    let d = build_news_details(
        &vec![el("T1", None, &["T1"]), el("T2", None, &["T2"])],
        &vec![],
        &vec![el("S", None, &[])],
        &vec![],
        &vec![el("", None, &[" x ", "y"]), el("", None, &["z\n"])],
        &vec![el("", Some("data:image/png;base64,AB"), &[])],
        &vec![vec![vec![el("", None, &["c1", "c2"])], vec![]]],
    );
    assert_eq!(d.title, "T1");
    assert_eq!(d.date, "");
    assert_eq!(d.subject, "S");
    assert_eq!(d.author, "");
    assert_eq!(d.abstract_text, Some("x y z".to_string()));
    assert_eq!(d.file, Some("AB".to_string()));
    assert_eq!(d.table, Some(vec![vec!["c1 c2".to_string()], vec![]]));
}
