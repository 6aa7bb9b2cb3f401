//! Reading HTML pages. The `scraper` crate parses pages and evaluates CSS
//! selectors; what it selects comes back as plain `Element` values, and the
//! logic that picks from them is proved here.
use vstd::prelude::*;
use crate::text::{is_ws, join, join_strings, lemma_words_join, str_result, words};

verus! {

/// What the portal's logic reads of one element that a selector matched.
pub struct Element {
    /// The element's inner HTML.
    pub inner_html: String,
    /// The value of the attribute that the query asked for, if present.
    pub attr: Option<String>,
    /// The element's descendant text nodes, in the order
    /// `ElementRef::text` walks them.
    pub text: Vec<String>,
}

/// The characters of an `Element`.
pub struct ElementView {
    pub inner_html: Seq<char>,
    pub attr: Option<Seq<char>>,
    pub text: Seq<Seq<char>>,
}

impl DeepView for Element {
    type V = ElementView;

    open spec fn deep_view(&self) -> ElementView {
        ElementView {
            inner_html: self.inner_html@,
            attr: self.attr.deep_view(),
            text: self.text.deep_view(),
        }
    }
}

/// The message of the error that `scraper::Selector::parse` gives for
/// `selector`, or `None` when it parses.
pub uninterp spec fn selector_parse_error(selector: Seq<char>) -> Option<Seq<char>>;

/// The elements of the document `html` (as `scraper::Html::parse_document`
/// builds it) that `selector` matches, in the order in which the parser
/// created their nodes (the order `Html::select` walks them), each with
/// the value of its attribute `attr`.
pub uninterp spec fn selected(html: Seq<char>, selector: Seq<char>, attr: Seq<char>) -> Seq<
    ElementView,
>;

/// For each element of the document `html` that `outer` matches, in the
/// order `Html::select` walks them, its descendants that `inner` matches,
/// in the order `ElementRef::select` walks them.
pub uninterp spec fn selected_within(
    html: Seq<char>,
    outer: Seq<char>,
    inner: Seq<char>,
    attr: Seq<char>,
) -> Seq<Seq<ElementView>>;

/// For each element of the document `html` that `outer` matches, for each
/// of its descendants that `middle` matches, their descendants that `inner`
/// matches; each level in the order scraper's `select` walks it.
pub uninterp spec fn selected_within2(
    html: Seq<char>,
    outer: Seq<char>,
    middle: Seq<char>,
    inner: Seq<char>,
    attr: Seq<char>,
) -> Seq<Seq<Seq<ElementView>>>;

/// `selector` is a CSS selector group that `scraper` accepts.
pub open spec fn valid_selector(selector: Seq<char>) -> bool {
    selector_parse_error(selector) is None
}

/// One of the fixed selectors the portal's pages are read with.
pub open spec fn page_selector(selector: Seq<char>) -> bool {
    crate::home::home_selectors().contains(selector) || crate::details::details_selectors().contains(
        selector,
    )
}

/// Calls `scraper::Selector::parse` and tells whether it succeeded.
/// Claimed: the result is whether the named `selector_parse_error` of the
/// argument is `None`. The call cannot panic.
#[verifier::external_body]
pub(crate) fn selector_is_valid(selector: &str) -> (r: bool)
    ensures
        r == valid_selector(selector@),
{
    scraper::Selector::parse(selector).is_ok()
}

/// Calls `scraper::Selector::parse`; gives the error's message (its
/// `Display`), or `None` when the selector parses. Claimed: the result is
/// the named `selector_parse_error` of the argument. Rendering some parse
/// errors panics inside scraper (a delimiter such as `!` as the unexpected
/// token), so the selector is required to be one of the fixed page
/// selectors; nothing is claimed of other selectors.
#[verifier::external_body]
pub(crate) fn selector_error(selector: &str) -> (r: Option<String>)
    requires
        page_selector(selector@),
    ensures
        r.deep_view() == selector_parse_error(selector@),
{
    match scraper::Selector::parse(selector) {
        Ok(_) => None,
        Err(e) => Some(e.to_string()),
    }
}

/// Parses `html` with `scraper::Html::parse_document` and runs
/// `Html::select` with the parsed `selector`; each match is read with
/// `ElementRef::inner_html`, `ElementRef::attr` and `ElementRef::text`.
/// Claimed: the result is the named `selected` of the arguments. The
/// selector is required to parse, since the call unwraps it.
#[verifier::external_body]
pub(crate) fn select(html: &str, selector: &str, attr: &str) -> (r: Vec<Element>)
    requires
        valid_selector(selector@),
    ensures
        r.deep_view() == selected(html@, selector@, attr@),
{
    let document = scraper::Html::parse_document(html);
    let selector = scraper::Selector::parse(selector).unwrap();
    document.select(&selector).map(|e| Element {
        inner_html: e.inner_html(),
        attr: e.attr(attr).map(str::to_string),
        text: e.text().map(str::to_string).collect(),
    }).collect()
}

/// As `select`, with `ElementRef::select` run with `inner` on each element
/// that `outer` matches. Claimed: the result is the named `selected_within`
/// of the arguments.
#[verifier::external_body]
pub(crate) fn select_within(html: &str, outer: &str, inner: &str, attr: &str) -> (r: Vec<
    Vec<Element>,
>)
    requires
        valid_selector(outer@),
        valid_selector(inner@),
    ensures
        r.deep_view() == selected_within(html@, outer@, inner@, attr@),
{
    let document = scraper::Html::parse_document(html);
    let outer = scraper::Selector::parse(outer).unwrap();
    let inner = scraper::Selector::parse(inner).unwrap();
    document.select(&outer).map(|o| o.select(&inner).map(|e| Element {
        inner_html: e.inner_html(),
        attr: e.attr(attr).map(str::to_string),
        text: e.text().map(str::to_string).collect(),
    }).collect()).collect()
}

/// As `select_within`, one level deeper. Claimed: the result is the named
/// `selected_within2` of the arguments.
#[verifier::external_body]
pub(crate) fn select_within2(
    html: &str,
    outer: &str,
    middle: &str,
    inner: &str,
    attr: &str,
) -> (r: Vec<Vec<Vec<Element>>>)
    requires
        valid_selector(outer@),
        valid_selector(middle@),
        valid_selector(inner@),
    ensures
        r.deep_view() == selected_within2(html@, outer@, middle@, inner@, attr@),
{
    let document = scraper::Html::parse_document(html);
    let (o, m, i) = (scraper::Selector::parse(outer).unwrap(), scraper::Selector::parse(middle).unwrap(), scraper::Selector::parse(inner).unwrap());
    document.select(&o).map(|x| x.select(&m).map(|y| y.select(&i).map(|e| Element {
        inner_html: e.inner_html(),
        attr: e.attr(attr).map(str::to_string),
        text: e.text().map(str::to_string).collect(),
    }).collect()).collect()).collect()
}

/// Inner HTML of the first element, or the empty string when there is none.
pub open spec fn first_inner_html(elems: Seq<ElementView>) -> Seq<char> {
    if elems.len() > 0 {
        elems[0].inner_html
    } else {
        seq![]
    }
}

/// The asked-for attribute of the first element, if there is one and it
/// has the attribute.
pub open spec fn first_attr(elems: Seq<ElementView>) -> Option<Seq<char>> {
    if elems.len() > 0 {
        elems[0].attr
    } else {
        None
    }
}

/// An element's text nodes joined with single spaces.
pub open spec fn element_text(e: ElementView) -> Seq<char> {
    join(e.text, seq![' '])
}

/// The words of an element's text nodes, in the order they are listed.
pub open spec fn text_words(e: ElementView) -> Seq<Seq<char>> {
    e.text.map_values(|t: Seq<char>| words(t)).flatten()
}

/// The words of an element's text are the words of its text nodes.
pub proof fn lemma_element_text_words(e: ElementView)
    ensures
        words(element_text(e)) == text_words(e),
{
    assert(is_ws(' '));
    lemma_words_join(e.text, seq![' ']);
}

/// The words of texts of elements joined by whitespace `sep` are the
/// words of the elements' text nodes, in order.
pub proof fn lemma_elements_words(elems: Seq<ElementView>, sep: Seq<char>)
    requires
        sep.len() > 0,
        forall|k: int| 0 <= k < sep.len() ==> is_ws(#[trigger] sep[k]),
    ensures
        words(join(elems.map_values(|e: ElementView| element_text(e)), sep)) == elems.map_values(
            |e: ElementView| text_words(e),
        ).flatten(),
{
    let texts = elems.map_values(|e: ElementView| element_text(e));
    lemma_words_join(texts, sep);
    let a = texts.map_values(|p: Seq<char>| words(p));
    let b = elems.map_values(|e: ElementView| text_words(e));
    assert forall|i: int| 0 <= i < texts.len() implies #[trigger] a[i] == b[i] by {
        lemma_element_text_words(elems[i]);
    }
    assert(a =~= b);
}

/// Inner HTML of the first element, or the empty string.
pub fn first_inner_html_of(elems: &Vec<Element>) -> (r: String)
    ensures
        r@ == first_inner_html(elems.deep_view()),
{
    if elems.len() > 0 {
        elems[0].inner_html.clone()
    } else {
        String::new()
    }
}

/// The asked-for attribute of the first element.
pub fn first_attr_of(elems: &Vec<Element>) -> (r: Option<String>)
    ensures
        r.deep_view() == first_attr(elems.deep_view()),
{
    if elems.len() > 0 {
        match &elems[0].attr {
            Some(a) => Some(a.clone()),
            None => None,
        }
    } else {
        None
    }
}

/// An element's text nodes joined with single spaces.
pub fn text_of(e: &Element) -> (r: String)
    ensures
        r@ == element_text(e.deep_view()),
{
    let r = join_strings(&e.text, " ");
    proof {
        reveal_strlit(" ");
        assert(" "@ =~= seq![' ']);
    }
    r
}

/// The selector for the form input named `field`: `input[name="field"]`.
pub open spec fn hidden_selector(field: Seq<char>) -> Seq<char> {
    "input[name=\""@ + field + "\"]"@
}

/// The value of the first form input named `field` in `page`, if it has one.
pub open spec fn hidden_value(page: Seq<char>, field: Seq<char>) -> Option<Seq<char>> {
    first_attr(selected(page, hidden_selector(field), "value"@))
}

/// The message for a form field whose value is missing.
pub open spec fn missing_field_message(field: Seq<char>) -> Seq<char> {
    "Failed to extract value for field: "@ + field
}

/// The message for a selector that does not parse.
pub open spec fn invalid_selector_message() -> Seq<char> {
    "Invalid selector"@
}

/// What reading the form field `field` of `page` gives.
pub open spec fn hidden_field(page: Seq<char>, field: Seq<char>) -> Result<Seq<char>, Seq<char>> {
    if !valid_selector(hidden_selector(field)) {
        Err(invalid_selector_message())
    } else {
        match hidden_value(page, field) {
            Some(v) => Ok(v),
            None => Err(missing_field_message(field)),
        }
    }
}

/// Reading a form field gives one answer for a document and a field name,
/// wherever it is read: the value of the first input with that name when
/// it has one; else an error naming the field; and "Invalid selector" when
/// the field's selector does not parse.
pub proof fn lemma_hidden_field_agrees(document: Seq<char>, field: Seq<char>)
    ensures
        !valid_selector(hidden_selector(field)) ==> hidden_field(document, field) == Err::<
            Seq<char>,
            Seq<char>,
        >(invalid_selector_message()),
        valid_selector(hidden_selector(field)) && first_attr(
            selected(document, hidden_selector(field), "value"@),
        ) is Some ==> hidden_field(document, field) == Ok::<Seq<char>, Seq<char>>(
            first_attr(selected(document, hidden_selector(field), "value"@))->0,
        ),
        valid_selector(hidden_selector(field)) && first_attr(
            selected(document, hidden_selector(field), "value"@),
        ) is None ==> hidden_field(document, field) == Err::<Seq<char>, Seq<char>>(
            missing_field_message(field),
        ),
{
}

/// Builds `input[name="field"]`.
pub fn hidden_field_selector(field: &str) -> (r: String)
    ensures
        r@ == hidden_selector(field@),
{
    String::from_str("input[name=\"").concat(field).concat("\"]")
}

/// The value of the first form input named `field_name` in `document`; the
/// error names the field when the input or its value is missing.
pub fn extract_hidden_value(document: &str, field_name: &str) -> (r: Result<String, String>)
    requires
        valid_selector(hidden_selector(field_name@)),
    ensures
        str_result(r) == hidden_field(document@, field_name@),
{
    let selector = hidden_field_selector(field_name);
    let found = select(document, selector.as_str(), "value");
    match first_attr_of(&found) {
        Some(v) => Ok(v),
        None => Err(String::from_str("Failed to extract value for field: ").concat(field_name)),
    }
}

/// As `extract_hidden_value`, and an error where the field's selector does
/// not parse.
pub fn hidden_field_value(document: &str, field_name: &str) -> (r: Result<String, String>)
    ensures
        str_result(r) == hidden_field(document@, field_name@),
        !valid_selector(hidden_selector(field_name@)) ==> (r matches Err(e) && e@
            == invalid_selector_message()),
        valid_selector(hidden_selector(field_name@)) ==> match hidden_value(
            document@,
            field_name@,
        ) {
            Some(v) => (r matches Ok(x) && x@ == v),
            None => (r matches Err(e) && e@ == missing_field_message(field_name@)),
        },
{
    let selector = hidden_field_selector(field_name);
    if !selector_is_valid(selector.as_str()) {
        return Err(String::from_str("Invalid selector"));
    }
    extract_hidden_value(document, field_name)
}

} // verus!
