//! The page of one news item: its header fields, text, attached image and
//! tables.
use vstd::prelude::*;
use crate::home::{check_selectors, first_selector_error};
use crate::scrape::{
    element_text, first_attr, first_attr_of, first_inner_html, first_inner_html_of,
    lemma_elements_words, page_selector, select, select_within2, selected, selected_within2,
    text_of, text_words, valid_selector, Element, ElementView,
};
use crate::text::{
    is_ws, join, join_strings, lemma_replace_absent, normalize_whitespace, normalized, occurs_at,
    replace, replace_all,
};

verus! {

/// A news item as its own page shows it.
pub struct NewsDetails {
    pub title: String,
    pub date: String,
    pub subject: String,
    pub author: String,
    pub abstract_text: Option<String>,
    /// The attached image's base64 data.
    pub file: Option<String>,
    /// The rows of the item's tables, each a list of cell texts.
    pub table: Option<Vec<Vec<String>>>,
}

/// The characters of `NewsDetails`.
pub struct NewsDetailsView {
    pub title: Seq<char>,
    pub date: Seq<char>,
    pub subject: Seq<char>,
    pub author: Seq<char>,
    pub abstract_text: Option<Seq<char>>,
    pub file: Option<Seq<char>>,
    pub table: Option<Seq<Seq<Seq<char>>>>,
}

impl DeepView for NewsDetails {
    type V = NewsDetailsView;

    open spec fn deep_view(&self) -> NewsDetailsView {
        NewsDetailsView {
            title: self.title@,
            date: self.date@,
            subject: self.subject@,
            author: self.author@,
            abstract_text: self.abstract_text.deep_view(),
            file: self.file.deep_view(),
            table: self.table.deep_view(),
        }
    }
}

/// The selectors the page is read with, in the order they are checked:
/// title, date, subject, author, text paragraphs, image, tables, rows,
/// cells.
pub open spec fn details_selectors() -> Seq<Seq<char>> {
    seq![
        "span#lblNaslov"@,
        "span#lblDatum"@,
        "span#lblPredmet"@,
        "a#linkNapisao"@,
        "div#Panel1 > p"@,
        "div#Panel1 img"@,
        "div#Panel1 table"@,
        "tr"@,
        "td"@,
    ]
}

fn details_selector_list() -> (r: Vec<&'static str>)
    ensures
        r.deep_view() == details_selectors(),
        forall|j: int| 0 <= j < r@.len() ==> page_selector(#[trigger] r@[j]@),
{
    let mut v: Vec<&'static str> = Vec::new();
    v.push("span#lblNaslov");
    v.push("span#lblDatum");
    v.push("span#lblPredmet");
    v.push("a#linkNapisao");
    v.push("div#Panel1 > p");
    v.push("div#Panel1 img");
    v.push("div#Panel1 table");
    v.push("tr");
    v.push("td");
    assert(v.deep_view() =~= details_selectors());
    assert forall|j: int| 0 <= j < v@.len() implies page_selector(#[trigger] v@[j]@) by {
        assert(v.deep_view()[j] == v@[j]@);
        assert(details_selectors()[j] == v@[j]@);
    }
    v
}

/// The item's text: the text of each paragraph (its text nodes joined with
/// spaces), the paragraphs joined with line feeds, and then the words
/// joined by single spaces.
pub open spec fn details_text(paragraphs: Seq<ElementView>) -> Seq<char> {
    normalized(join(paragraphs.map_values(|e: ElementView| element_text(e)), "\n"@))
}

/// The item's text is the words of its paragraphs' text nodes, in
/// document order, joined by single spaces.
pub proof fn lemma_details_text_is_words(paragraphs: Seq<ElementView>)
    ensures
        details_text(paragraphs) == join(
            paragraphs.map_values(|e: ElementView| text_words(e)).flatten(),
            seq![' '],
        ),
{
    reveal_strlit("\n");
    assert("\n"@ =~= seq!['\n']);
    assert(is_ws('\n'));
    lemma_elements_words(paragraphs, "\n"@);
}

/// The attached image: the `src` of the first image, without the
/// `data:image/png;base64,` prefixes.
pub open spec fn details_file(images: Seq<ElementView>) -> Option<Seq<char>> {
    match first_attr(images) {
        Some(src) => Some(replace_all(src, "data:image/png;base64,"@, ""@)),
        None => None,
    }
}

/// The texts of the cells of a row.
pub open spec fn cell_texts(cells: Seq<ElementView>) -> Seq<Seq<char>> {
    cells.map_values(|c: ElementView| element_text(c))
}

/// The attached image is kept whenever the first image has a `src`: the
/// file is that `src` with the PNG data prefix removed (unchanged when the
/// prefix does not occur); there is no file only when there is no image
/// or the first has no `src`.
pub proof fn lemma_details_file_kept(images: Seq<ElementView>)
    ensures
        images.len() > 0 && images[0].attr is Some ==> details_file(images) == Some(
            replace_all(images[0].attr->0, "data:image/png;base64,"@, ""@),
        ),
        images.len() == 0 || images[0].attr is None ==> details_file(images) is None,
        images.len() > 0 && images[0].attr is Some && (forall|before: Seq<char>, after: Seq<char>|
            images[0].attr->0 != before + "data:image/png;base64,"@ + after)
            ==> details_file(images) == Some(images[0].attr->0),
{
    if images.len() > 0 && images[0].attr is Some {
        let src = images[0].attr->0;
        let p = "data:image/png;base64,"@;
        reveal_strlit("data:image/png;base64,");
        if forall|before: Seq<char>, after: Seq<char>| src != before + p + after {
            assert forall|i: int| !#[trigger] occurs_at(src, p, i) by {
                if occurs_at(src, p, i) {
                    assert(src =~= src.take(i) + p + src.skip(i + p.len()));
                }
            }
            lemma_replace_absent(src, p, ""@);
        }
    }
}

/// The rows of one table, each the texts of its cells.
pub open spec fn row_texts(rows: Seq<Seq<ElementView>>) -> Seq<Seq<Seq<char>>> {
    rows.map_values(|cells: Seq<ElementView>| cell_texts(cells))
}

/// The rows of all tables in order, each row the texts of its cells.
pub open spec fn table_rows(tables: Seq<Seq<Seq<ElementView>>>) -> Seq<Seq<Seq<char>>> {
    tables.map_values(|rows: Seq<Seq<ElementView>>| row_texts(rows)).flatten()
}

/// The item read from what each selector matched.
pub open spec fn details_of(
    titles: Seq<ElementView>,
    dates: Seq<ElementView>,
    subjects: Seq<ElementView>,
    authors: Seq<ElementView>,
    paragraphs: Seq<ElementView>,
    images: Seq<ElementView>,
    tables: Seq<Seq<Seq<ElementView>>>,
) -> NewsDetailsView {
    NewsDetailsView {
        title: first_inner_html(titles),
        date: first_inner_html(dates),
        subject: first_inner_html(subjects),
        author: first_inner_html(authors),
        abstract_text: Some(details_text(paragraphs)),
        file: details_file(images),
        table: Some(table_rows(tables)),
    }
}

/// What reading the news item page `html` gives: the item, or the error of
/// the first selector that does not parse.
pub open spec fn news_details_result(html: Seq<char>) -> Result<NewsDetailsView, Seq<char>> {
    match first_selector_error(details_selectors()) {
        Some(e) => Err(e),
        None => Ok(
            details_of(
                selected(html, "span#lblNaslov"@, "src"@),
                selected(html, "span#lblDatum"@, "src"@),
                selected(html, "span#lblPredmet"@, "src"@),
                selected(html, "a#linkNapisao"@, "src"@),
                selected(html, "div#Panel1 > p"@, "src"@),
                selected(html, "div#Panel1 img"@, "src"@),
                selected_within2(html, "div#Panel1 table"@, "tr"@, "td"@, "src"@),
            ),
        ),
    }
}

/// The texts of the elements, each its text nodes joined with spaces.
pub fn texts_of(elems: &Vec<Element>) -> (r: Vec<String>)
    ensures
        r.deep_view() == cell_texts(elems.deep_view()),
{
    let mut texts: Vec<String> = Vec::new();
    let mut i: usize = 0;
    while i < elems.len()
        invariant
            i <= elems@.len(),
            texts.deep_view() =~= elems.deep_view().take(i as int).map_values(
                |e: ElementView| element_text(e),
            ),
        decreases elems@.len() - i,
    {
        let t = text_of(&elems[i]);
        let ghost before = texts.deep_view();
        texts.push(t);
        assert(texts.deep_view() =~= before.push(t@));
        assert(elems.deep_view().take(i + 1) =~= elems.deep_view().take(i as int).push(
            elems.deep_view()[i as int],
        ));
        i += 1;
    }
    assert(elems.deep_view().take(i as int) =~= elems.deep_view());
    texts
}

/// The item's text from its paragraphs.
pub fn details_text_of(paragraphs: &Vec<Element>) -> (r: String)
    ensures
        r@ == details_text(paragraphs.deep_view()),
{
    let texts = texts_of(paragraphs);
    let joined = join_strings(&texts, "\n");
    normalize_whitespace(joined.as_str())
}

/// The attached image from the matched images.
pub fn details_file_of(images: &Vec<Element>) -> (r: Option<String>)
    ensures
        r.deep_view() == details_file(images.deep_view()),
{
    match first_attr_of(images) {
        Some(src) => {
            proof {
                reveal_strlit("data:image/png;base64,");
            }
            Some(replace(src.as_str(), "data:image/png;base64,", ""))
        },
        None => None,
    }
}

/// The rows of all tables, each row the texts of its cells.
pub fn table_rows_of(tables: &Vec<Vec<Vec<Element>>>) -> (r: Vec<Vec<String>>)
    ensures
        r.deep_view() == table_rows(tables.deep_view()),
{
    let ghost f = |rows: Seq<Seq<ElementView>>| row_texts(rows);
    let ghost g = |cells: Seq<ElementView>| cell_texts(cells);
    let mut out: Vec<Vec<String>> = Vec::new();
    let mut t: usize = 0;
    assert(tables.deep_view().take(0).map_values(f) =~= Seq::<Seq<Seq<Seq<char>>>>::empty());
    while t < tables.len()
        invariant
            t <= tables@.len(),
            forall|x: Seq<ElementView>| #[trigger] g(x) == cell_texts(x),
            forall|x: Seq<Seq<ElementView>>| #[trigger] f(x) == row_texts(x),
            out.deep_view() =~= tables.deep_view().take(t as int).map_values(f).flatten(),
        decreases tables@.len() - t,
    {
        let rows = &tables[t];
        let ghost start = out.deep_view();
        let mut r: usize = 0;
        while r < rows.len()
            invariant
                r <= rows@.len(),
                t < tables@.len(),
                forall|x: Seq<ElementView>| #[trigger] g(x) == cell_texts(x),
                *rows == tables@[t as int],
                out.deep_view() =~= start + rows.deep_view().take(r as int).map_values(g),
            decreases rows@.len() - r,
        {
            let cells = texts_of(&rows[r]);
            let ghost before = out.deep_view();
            out.push(cells);
            assert(out.deep_view() =~= before.push(cells.deep_view()));
            assert(rows.deep_view().take(r + 1) =~= rows.deep_view().take(r as int).push(
                rows.deep_view()[r as int],
            ));
            r += 1;
        }
        assert(rows.deep_view().take(r as int) =~= rows.deep_view());
        assert(tables.deep_view().take(t + 1) =~= tables.deep_view().take(t as int).push(
            tables.deep_view()[t as int],
        ));
        assert(tables.deep_view().take(t + 1).map_values(f) =~= tables.deep_view().take(
            t as int,
        ).map_values(f).push(f(tables.deep_view()[t as int])));
        proof {
            tables.deep_view().take(t as int).map_values(f).lemma_flatten_push(
                f(tables.deep_view()[t as int]),
            );
        }
        assert(f(tables.deep_view()[t as int]) =~= rows.deep_view().map_values(g));
        t += 1;
    }
    assert(tables.deep_view().take(t as int) =~= tables.deep_view());
    out
}

/// The news item read from what each selector matched: the first title,
/// date, subject and author, the text of the paragraphs, the first image
/// and the rows of the tables.
pub fn build_news_details(
    titles: &Vec<Element>,
    dates: &Vec<Element>,
    subjects: &Vec<Element>,
    authors: &Vec<Element>,
    paragraphs: &Vec<Element>,
    images: &Vec<Element>,
    tables: &Vec<Vec<Vec<Element>>>,
) -> (r: NewsDetails)
    ensures
        r.deep_view() == details_of(
            titles.deep_view(),
            dates.deep_view(),
            subjects.deep_view(),
            authors.deep_view(),
            paragraphs.deep_view(),
            images.deep_view(),
            tables.deep_view(),
        ),
{
    NewsDetails {
        title: first_inner_html_of(titles),
        date: first_inner_html_of(dates),
        subject: first_inner_html_of(subjects),
        author: first_inner_html_of(authors),
        abstract_text: Some(details_text_of(paragraphs)),
        file: details_file_of(images),
        table: Some(table_rows_of(tables)),
    }
}

/// The news item of its page `html`.
pub fn parse_news_details(html: &str) -> (r: Result<NewsDetails, String>)
    ensures
        match r {
            Ok(d) => news_details_result(html@) == Ok::<NewsDetailsView, Seq<char>>(
                d.deep_view(),
            ),
            Err(e) => news_details_result(html@) == Err::<NewsDetailsView, Seq<char>>(e@),
        },
{
    let selectors = details_selector_list();
    match check_selectors(&selectors) {
        Some(e) => return Err(e),
        None => {},
    }
    assert(valid_selector(selectors@[0]@));
    assert(valid_selector(selectors@[1]@));
    assert(valid_selector(selectors@[2]@));
    assert(valid_selector(selectors@[3]@));
    assert(valid_selector(selectors@[4]@));
    assert(valid_selector(selectors@[5]@));
    assert(valid_selector(selectors@[6]@));
    assert(valid_selector(selectors@[7]@));
    assert(valid_selector(selectors@[8]@));
    let titles = select(html, "span#lblNaslov", "src");
    let dates = select(html, "span#lblDatum", "src");
    let subjects = select(html, "span#lblPredmet", "src");
    let authors = select(html, "a#linkNapisao", "src");
    let paragraphs = select(html, "div#Panel1 > p", "src");
    let images = select(html, "div#Panel1 img", "src");
    let tables = select_within2(html, "div#Panel1 table", "tr", "td", "src");
    Ok(build_news_details(&titles, &dates, &subjects, &authors, &paragraphs, &images, &tables))
}

} // verus!
