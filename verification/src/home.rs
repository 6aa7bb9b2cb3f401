//! The news list on the student home page: which page of the list to ask
//! for, and how each news item is read from the answer.
use vstd::prelude::*;
use crate::http::{home_url, is_success, pair, success_status, HttpRequest, HttpRequestView, Method};
use crate::scrape::{
    element_text, first_attr, first_attr_of, first_inner_html, first_inner_html_of, hidden_field,
    hidden_field_value, page_selector, select_within, selector_error, selector_parse_error, selected_within,
    lemma_elements_words, text_of, text_words, valid_selector, Element, ElementView,
};
use crate::text::{
    format_two_digits, is_ws, join, join_strings, lemma_words_replace_ws, normalize_whitespace,
    lemma_two_digits_injective, normalized, replace, replace_all, two_digits,
};

verus! {

/// The first parse error among `selectors`, in order, if any.
pub open spec fn first_selector_error(selectors: Seq<Seq<char>>) -> Option<Seq<char>>
    decreases selectors.len(),
{
    if selectors.len() == 0 {
        None
    } else {
        match selector_parse_error(selectors[0]) {
            Some(m) => Some(m),
            None => first_selector_error(selectors.drop_first()),
        }
    }
}

/// The message of the first selector that does not parse; `None` when all
/// of them parse. The selectors are the fixed ones the pages are read with.
pub fn check_selectors(selectors: &Vec<&str>) -> (r: Option<String>)
    requires
        forall|j: int| 0 <= j < selectors@.len() ==> page_selector(#[trigger] selectors@[j]@),
    ensures
        r.deep_view() == first_selector_error(selectors.deep_view()),
        r is None ==> forall|j: int|
            0 <= j < selectors@.len() ==> valid_selector(#[trigger] selectors@[j]@),
{
    let ghost dv = selectors.deep_view();
    let mut i: usize = 0;
    assert(dv.skip(0) =~= dv);
    while i < selectors.len()
        invariant
            i <= selectors@.len(),
            dv == selectors.deep_view(),
            first_selector_error(dv.skip(i as int)) == first_selector_error(dv),
            forall|j: int| 0 <= j < i ==> valid_selector(#[trigger] selectors@[j]@),
            forall|j: int|
                0 <= j < selectors@.len() ==> page_selector(#[trigger] selectors@[j]@),
        decreases selectors@.len() - i,
    {
        assert(dv.skip(i as int)[0] == selectors@[i as int]@);
        assert(dv.skip(i as int).drop_first() =~= dv.skip(i + 1));
        match selector_error(selectors[i]) {
            Some(m) => {
                return Some(m);
            },
            None => {},
        }
        i += 1;
    }
    assert(dv.skip(i as int) =~= Seq::<Seq<char>>::empty());
    None
}

/// One item of the news list.
pub struct News {
    pub title: String,
    pub date: String,
    pub subject: String,
    pub author: String,
    pub abstract_text: String,
    pub link: String,
}

/// The characters of a `News` item.
pub struct NewsView {
    pub title: Seq<char>,
    pub date: Seq<char>,
    pub subject: Seq<char>,
    pub author: Seq<char>,
    pub abstract_text: Seq<char>,
    pub link: Seq<char>,
}

impl DeepView for News {
    type V = NewsView;

    open spec fn deep_view(&self) -> NewsView {
        NewsView {
            title: self.title@,
            date: self.date@,
            subject: self.subject@,
            author: self.author@,
            abstract_text: self.abstract_text@,
            link: self.link@,
        }
    }
}

pub open spec fn news_selector() -> Seq<char> {
    "ul.newslist > li"@
}

pub open spec fn title_selector() -> Seq<char> {
    "a#lnkNaslov"@
}

pub open spec fn date_selector() -> Seq<char> {
    "span#lblDatum"@
}

pub open spec fn subject_selector() -> Seq<char> {
    "span#lblPredmet"@
}

pub open spec fn author_selector() -> Seq<char> {
    "a#HyperLink9"@
}

pub open spec fn abstract_selector() -> Seq<char> {
    "div.abstract"@
}

/// The selectors the news list is read with, in the order they are checked.
pub open spec fn home_selectors() -> Seq<Seq<char>> {
    seq![
        news_selector(),
        title_selector(),
        date_selector(),
        subject_selector(),
        author_selector(),
        abstract_selector(),
    ]
}

fn home_selector_list() -> (r: Vec<&'static str>)
    ensures
        r.deep_view() == home_selectors(),
        forall|j: int| 0 <= j < r@.len() ==> page_selector(#[trigger] r@[j]@),
{
    let mut v: Vec<&'static str> = Vec::new();
    v.push("ul.newslist > li");
    v.push("a#lnkNaslov");
    v.push("span#lblDatum");
    v.push("span#lblPredmet");
    v.push("a#HyperLink9");
    v.push("div.abstract");
    assert(v.deep_view() =~= home_selectors());
    assert forall|j: int| 0 <= j < v@.len() implies page_selector(#[trigger] v@[j]@) by {
        assert(v.deep_view()[j] == v@[j]@);
        assert(home_selectors()[j] == v@[j]@);
    }
    v
}

/// The postback target that asks for the list page `page_number`
/// (counted from 1): the number of the page before it, two digits at least.
pub open spec fn event_target(page_number: nat) -> Seq<char> {
    "ctl00$ContentPlaceHolder1$dgObavijesti$ctl14$ctl"@ + two_digits((page_number - 1) as nat)
}

/// Different pages of the news list are asked for with different postback
/// targets.
pub proof fn lemma_event_target_injective(p: nat, q: nat)
    requires
        p >= 1,
        q >= 1,
        event_target(p) == event_target(q),
    ensures
        p == q,
{
    let prefix = "ctl00$ContentPlaceHolder1$dgObavijesti$ctl14$ctl"@;
    assert(event_target(p).skip(prefix.len() as int) =~= two_digits((p - 1) as nat));
    assert(event_target(q).skip(prefix.len() as int) =~= two_digits((q - 1) as nat));
    lemma_two_digits_injective((p - 1) as nat, (q - 1) as nat);
}

/// The postback target for the list page `page_number`: the page within its
/// set of ten plus ten times the set.
pub fn event_target_for(page_number: usize) -> (r: String)
    requires
        page_number >= 1,
    ensures
        r@ == event_target(page_number as nat),
{
    let set_number = (page_number - 1) / 10;
    let page_within_set = (page_number - 1) % 10;
    assert(page_within_set + set_number * 10 == page_number - 1);
    let index = page_within_set + set_number * 10;
    String::from_str("ctl00$ContentPlaceHolder1$dgObavijesti$ctl14$ctl").concat(
        format_two_digits(index).as_str(),
    )
}

/// The form that asks the home page for another page of the news list.
pub open spec fn home_form(
    target: Seq<char>,
    viewstate: Seq<char>,
    eventvalidation: Seq<char>,
    viewstategenerator: Seq<char>,
) -> Seq<(Seq<char>, Seq<char>)> {
    seq![
        ("__EVENTTARGET"@, target),
        ("__EVENTARGUMENT"@, ""@),
        ("__VIEWSTATE"@, viewstate),
        ("__EVENTVALIDATION"@, eventvalidation),
        ("__VIEWSTATEGENERATOR"@, viewstategenerator),
    ]
}

/// What asking for page `page_number` of the news list gives, from the home
/// page `page` and the stored `cookies`: the request, or the error of the
/// first hidden field that is missing, or of the first selector that does
/// not parse.
pub open spec fn home_request_result(page: Seq<char>, cookies: Seq<char>, page_number: nat) -> Result<
    HttpRequestView,
    Seq<char>,
> {
    match hidden_field(page, "__VIEWSTATE"@) {
        Err(e) => Err(e),
        Ok(vs) => match hidden_field(page, "__EVENTVALIDATION"@) {
            Err(e) => Err(e),
            Ok(ev) => match hidden_field(page, "__VIEWSTATEGENERATOR"@) {
                Err(e) => Err(e),
                Ok(vg) => match first_selector_error(home_selectors()) {
                    Some(e) => Err(e),
                    None => Ok(
                        HttpRequestView {
                            method: Method::Post,
                            url: home_url(),
                            headers: seq![("Cookie"@, cookies)],
                            form: home_form(event_target(page_number), vs, ev, vg),
                        },
                    ),
                },
            },
        },
    }
}

/// The request for page `page_number` of the news list, posted back to the
/// home page with the hidden fields of `page` and the raw `cookies`.
pub fn home_page_request(page: &str, cookies: &str, page_number: usize) -> (r: Result<
    HttpRequest,
    String,
>)
    requires
        page_number >= 1,
    ensures
        match r {
            Ok(req) => home_request_result(page@, cookies@, page_number as nat) == Ok::<
                HttpRequestView,
                Seq<char>,
            >(req@),
            Err(e) => home_request_result(page@, cookies@, page_number as nat) == Err::<
                HttpRequestView,
                Seq<char>,
            >(e@),
        },
{
    let viewstate = match hidden_field_value(page, "__VIEWSTATE") {
        Ok(v) => v,
        Err(e) => return Err(e),
    };
    let eventvalidation = match hidden_field_value(page, "__EVENTVALIDATION") {
        Ok(v) => v,
        Err(e) => return Err(e),
    };
    let viewstategenerator = match hidden_field_value(page, "__VIEWSTATEGENERATOR") {
        Ok(v) => v,
        Err(e) => return Err(e),
    };
    match check_selectors(&home_selector_list()) {
        Some(e) => return Err(e),
        None => {},
    }
    let target = event_target_for(page_number);
    let mut form: Vec<(String, String)> = Vec::new();
    form.push((String::from_str("__EVENTTARGET"), target));
    form.push(pair("__EVENTARGUMENT", ""));
    form.push((String::from_str("__VIEWSTATE"), viewstate));
    form.push((String::from_str("__EVENTVALIDATION"), eventvalidation));
    form.push((String::from_str("__VIEWSTATEGENERATOR"), viewstategenerator));
    let mut headers: Vec<(String, String)> = Vec::new();
    headers.push(pair("Cookie", cookies));
    let req = HttpRequest {
        method: Method::Post,
        url: String::from_str("https://www.fit.ba/student/default.aspx"),
        headers,
        form,
    };
    assert(req@.headers =~= seq![("Cookie"@, cookies@)]);
    assert(req@.form =~= home_form(
        event_target(page_number as nat),
        viewstate@,
        eventvalidation@,
        viewstategenerator@,
    ));
    Ok(req)
}

/// The `i`-th list of `lists`, or the empty list past its end.
pub open spec fn list_at(lists: Seq<Seq<ElementView>>, i: int) -> Seq<ElementView> {
    if 0 <= i < lists.len() {
        lists[i]
    } else {
        seq![]
    }
}

/// The abstract of an item read from its matched elements: each element's
/// text nodes joined with spaces, the elements joined with line feeds,
/// line feeds turned to spaces, and then the words joined by single spaces.
pub open spec fn abstract_of(elems: Seq<ElementView>) -> Seq<char> {
    normalized(
        replace_all(
            join(elems.map_values(|e: ElementView| element_text(e)), "\n"@),
            "\n"@,
            " "@,
        ),
    )
}

/// The abstract of a news item is the words of its elements' text nodes,
/// in document order, joined by single spaces.
pub proof fn lemma_abstract_is_words(elems: Seq<ElementView>)
    ensures
        abstract_of(elems) == join(
            elems.map_values(|e: ElementView| text_words(e)).flatten(),
            seq![' '],
        ),
{
    reveal_strlit("\n");
    reveal_strlit(" ");
    assert("\n"@ =~= seq!['\n']);
    assert(" "@ =~= seq![' ']);
    assert(is_ws('\n'));
    assert(is_ws(' '));
    let j = join(elems.map_values(|e: ElementView| element_text(e)), "\n"@);
    lemma_words_replace_ws(j, '\n', ' ');
    lemma_elements_words(elems, "\n"@);
}

/// The address a news item links to: its title's `href` under the
/// student pages, or the bare prefix when there is none.
pub open spec fn news_link(title_elems: Seq<ElementView>) -> Seq<char> {
    "https://www.fit.ba/student/"@ + match first_attr(title_elems) {
        Some(h) => h,
        None => seq![],
    }
}

/// The news items read from what each field's selector matched within each
/// list item; one item for each entry of `titles`.
pub open spec fn news_items(
    titles: Seq<Seq<ElementView>>,
    dates: Seq<Seq<ElementView>>,
    subjects: Seq<Seq<ElementView>>,
    authors: Seq<Seq<ElementView>>,
    abstracts: Seq<Seq<ElementView>>,
) -> Seq<NewsView> {
    Seq::new(
        titles.len(),
        |i: int|
            NewsView {
                title: first_inner_html(titles[i]),
                date: first_inner_html(list_at(dates, i)),
                subject: first_inner_html(list_at(subjects, i)),
                author: first_inner_html(list_at(authors, i)),
                abstract_text: abstract_of(list_at(abstracts, i)),
                link: news_link(titles[i]),
            },
    )
}

/// There is one news item for each list item, and item `i` takes its
/// title, date, subject, author and link from the elements found inside
/// the `i`-th list item: the inner HTML of the first of them, or nothing.
pub proof fn lemma_news_item_fields(
    titles: Seq<Seq<ElementView>>,
    dates: Seq<Seq<ElementView>>,
    subjects: Seq<Seq<ElementView>>,
    authors: Seq<Seq<ElementView>>,
    abstracts: Seq<Seq<ElementView>>,
    i: int,
)
    requires
        0 <= i < titles.len(),
        i < dates.len(),
        i < subjects.len(),
        i < authors.len(),
    ensures
        news_items(titles, dates, subjects, authors, abstracts).len() == titles.len(),
        news_items(titles, dates, subjects, authors, abstracts)[i].title == if titles[i].len()
            > 0 {
            titles[i][0].inner_html
        } else {
            seq![]
        },
        news_items(titles, dates, subjects, authors, abstracts)[i].date == if dates[i].len() > 0 {
            dates[i][0].inner_html
        } else {
            seq![]
        },
        news_items(titles, dates, subjects, authors, abstracts)[i].subject == if subjects[i].len()
            > 0 {
            subjects[i][0].inner_html
        } else {
            seq![]
        },
        news_items(titles, dates, subjects, authors, abstracts)[i].author == if authors[i].len()
            > 0 {
            authors[i][0].inner_html
        } else {
            seq![]
        },
        news_items(titles, dates, subjects, authors, abstracts)[i].link == "https://www.fit.ba/student/"@
            + if titles[i].len() > 0 && titles[i][0].attr is Some {
            titles[i][0].attr->0
        } else {
            seq![]
        },
{
}

/// Item `i` of the news list depends only on what was found inside the
/// `i`-th list item: two readings that agree there give the same item,
/// whatever the other list items hold.
pub proof fn lemma_news_item_independent(
    t1: Seq<Seq<ElementView>>,
    d1: Seq<Seq<ElementView>>,
    s1: Seq<Seq<ElementView>>,
    a1: Seq<Seq<ElementView>>,
    b1: Seq<Seq<ElementView>>,
    t2: Seq<Seq<ElementView>>,
    d2: Seq<Seq<ElementView>>,
    s2: Seq<Seq<ElementView>>,
    a2: Seq<Seq<ElementView>>,
    b2: Seq<Seq<ElementView>>,
    i: int,
)
    requires
        0 <= i < t1.len(),
        i < t2.len(),
        i < d1.len() && i < d2.len(),
        i < s1.len() && i < s2.len(),
        i < a1.len() && i < a2.len(),
        i < b1.len() && i < b2.len(),
        t1[i] == t2[i],
        d1[i] == d2[i],
        s1[i] == s2[i],
        a1[i] == a2[i],
        b1[i] == b2[i],
    ensures
        news_items(t1, d1, s1, a1, b1)[i] == news_items(t2, d2, s2, a2, b2)[i],
{
}

/// The abstract of an item from its matched elements.
pub fn abstract_text_of(elems: &Vec<Element>) -> (r: String)
    ensures
        r@ == abstract_of(elems.deep_view()),
{
    let mut texts: Vec<String> = Vec::new();
    let mut i: usize = 0;
    while i < elems.len()
        invariant
            i <= elems@.len(),
            texts.deep_view() =~= elems.deep_view().take(i as int).map_values(
                |e: ElementView| element_text(e),
            ),
        decreases elems@.len() - i,
    {
        let t = text_of(&elems[i]);
        let ghost before = texts.deep_view();
        texts.push(t);
        assert(texts.deep_view() =~= before.push(t@));
        assert(elems.deep_view().take(i + 1) =~= elems.deep_view().take(i as int).push(
            elems.deep_view()[i as int],
        ));
        i += 1;
    }
    assert(elems.deep_view().take(i as int) =~= elems.deep_view());
    proof {
        reveal_strlit("\n");
    }
    let joined = join_strings(&texts, "\n");
    let spaced = replace(joined.as_str(), "\n", " ");
    normalize_whitespace(spaced.as_str())
}

fn first_inner_html_at(lists: &Vec<Vec<Element>>, i: usize) -> (r: String)
    ensures
        r@ == first_inner_html(list_at(lists.deep_view(), i as int)),
{
    if i < lists.len() {
        first_inner_html_of(&lists[i])
    } else {
        String::new()
    }
}

fn abstract_at(lists: &Vec<Vec<Element>>, i: usize) -> (r: String)
    ensures
        r@ == abstract_of(list_at(lists.deep_view(), i as int)),
{
    if i < lists.len() {
        abstract_text_of(&lists[i])
    } else {
        let empty: Vec<Element> = Vec::new();
        let r = abstract_text_of(&empty);
        assert(empty.deep_view() =~= Seq::<ElementView>::empty());
        r
    }
}

fn news_link_of(title_elems: &Vec<Element>) -> (r: String)
    ensures
        r@ == news_link(title_elems.deep_view()),
{
    let base = String::from_str("https://www.fit.ba/student/");
    match first_attr_of(title_elems) {
        Some(h) => base.concat(h.as_str()),
        None => {
            let r = base.concat("");
            proof {
                reveal_strlit("");
            }
            assert(r@ =~= news_link(title_elems.deep_view()));
            r
        },
    }
}

/// The news items read from what each field's selector matched within each
/// list item.
pub fn build_news(
    titles: &Vec<Vec<Element>>,
    dates: &Vec<Vec<Element>>,
    subjects: &Vec<Vec<Element>>,
    authors: &Vec<Vec<Element>>,
    abstracts: &Vec<Vec<Element>>,
) -> (r: Vec<News>)
    ensures
        r.deep_view() == news_items(
            titles.deep_view(),
            dates.deep_view(),
            subjects.deep_view(),
            authors.deep_view(),
            abstracts.deep_view(),
        ),
{
    let ghost want = news_items(
        titles.deep_view(),
        dates.deep_view(),
        subjects.deep_view(),
        authors.deep_view(),
        abstracts.deep_view(),
    );
    let mut out: Vec<News> = Vec::new();
    let mut i: usize = 0;
    while i < titles.len()
        invariant
            i <= titles@.len(),
            want == news_items(
                titles.deep_view(),
                dates.deep_view(),
                subjects.deep_view(),
                authors.deep_view(),
                abstracts.deep_view(),
            ),
            out.deep_view() =~= want.take(i as int),
        decreases titles@.len() - i,
    {
        let item = News {
            title: first_inner_html_of(&titles[i]),
            date: first_inner_html_at(dates, i),
            subject: first_inner_html_at(subjects, i),
            author: first_inner_html_at(authors, i),
            abstract_text: abstract_at(abstracts, i),
            link: news_link_of(&titles[i]),
        };
        assert(item.deep_view() == want[i as int]);
        let ghost before = out.deep_view();
        out.push(item);
        assert(out.deep_view() =~= before.push(item.deep_view()));
        assert(want.take(i + 1) =~= want.take(i as int).push(want[i as int]));
        i += 1;
    }
    assert(want.take(i as int) =~= want);
    out
}

/// What reading the news list of `html` gives: the items, or the error of
/// the first selector that does not parse.
pub open spec fn news_list(html: Seq<char>) -> Result<Seq<NewsView>, Seq<char>> {
    match first_selector_error(home_selectors()) {
        Some(e) => Err(e),
        None => Ok(
            news_items(
                selected_within(html, news_selector(), title_selector(), "href"@),
                selected_within(html, news_selector(), date_selector(), "href"@),
                selected_within(html, news_selector(), subject_selector(), "href"@),
                selected_within(html, news_selector(), author_selector(), "href"@),
                selected_within(html, news_selector(), abstract_selector(), "href"@),
            ),
        ),
    }
}

/// The news items of a page of the news list.
pub fn parse_news(html: &str) -> (r: Result<Vec<News>, String>)
    ensures
        match r {
            Ok(v) => news_list(html@) == Ok::<Seq<NewsView>, Seq<char>>(v.deep_view()),
            Err(e) => news_list(html@) == Err::<Seq<NewsView>, Seq<char>>(e@),
        },
{
    let selectors = home_selector_list();
    match check_selectors(&selectors) {
        Some(e) => return Err(e),
        None => {},
    }
    assert(valid_selector(selectors@[0]@));
    assert(valid_selector(selectors@[1]@));
    assert(valid_selector(selectors@[2]@));
    assert(valid_selector(selectors@[3]@));
    assert(valid_selector(selectors@[4]@));
    assert(valid_selector(selectors@[5]@));
    let li = "ul.newslist > li";
    let titles = select_within(html, li, "a#lnkNaslov", "href");
    let dates = select_within(html, li, "span#lblDatum", "href");
    let subjects = select_within(html, li, "span#lblPredmet", "href");
    let authors = select_within(html, li, "a#HyperLink9", "href");
    let abstracts = select_within(html, li, "div.abstract", "href");
    Ok(build_news(&titles, &dates, &subjects, &authors, &abstracts))
}

/// The message when the page of the news list could not be had.
pub open spec fn fetch_failed_message() -> Seq<char> {
    "Failed to fetch the requested page"@
}

/// What the answer to the news-list request gives: an error unless the
/// status is a success, else the items of the page.
pub open spec fn home_news_result(status: u16, html: Seq<char>) -> Result<
    Seq<NewsView>,
    Seq<char>,
> {
    if !success_status(status) {
        Err(fetch_failed_message())
    } else {
        news_list(html)
    }
}

/// The news items of the answer to the news-list request.
pub fn home_news(status: u16, html: &str) -> (r: Result<Vec<News>, String>)
    ensures
        match r {
            Ok(v) => home_news_result(status, html@) == Ok::<Seq<NewsView>, Seq<char>>(
                v.deep_view(),
            ),
            Err(e) => home_news_result(status, html@) == Err::<Seq<NewsView>, Seq<char>>(e@),
        },
{
    if !is_success(status) {
        return Err(String::from_str("Failed to fetch the requested page"));
    }
    parse_news(html)
}

} // verus!
