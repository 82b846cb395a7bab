//! Extraction of table cells from an HTML document, through `scraper`.
use vstd::prelude::*;

use crate::export::ROW_CELLS;

verus! {

/// The inner HTML of each element that the CSS selector `selector` matches in
/// the HTML document `document`, in the order in which the parser created the
/// elements; `None` where the selector text is not a valid selector. With
/// scraper's `deterministic` feature each element keeps its attributes in
/// source order, so this depends on the two texts alone.
pub uninterp spec fn selected_cells(document: Seq<char>, selector: Seq<char>) -> Option<
    Seq<Seq<char>>,
>;

/// The character sequences of a sequence of strings.
pub open spec fn texts(v: Seq<String>) -> Seq<Seq<char>> {
    v.map_values(|s: String| s@)
}

/// Relies on scraper's `Selector::parse` (fails only on selector text it does
/// not accept; it accepts the row-cell selector), `Html::parse_document`,
/// `Html::select` (walks the parsed nodes in creation order) and
/// `ElementRef::inner_html` (writes attributes in source order under the
/// `deterministic` feature).
#[verifier::external_body]
pub(crate) fn select_cells(document: &str, selector: &str) -> (r: Option<Vec<String>>)
    ensures
        match selected_cells(document@, selector@) {
            Some(c) => r is Some && texts(r->0@) == c,
            None => r is None,
        },
        selector@ == ROW_CELLS@ ==> r is Some,
{
    let selector = scraper::Selector::parse(selector).ok()?;
    let html = scraper::Html::parse_document(document);
    Some(html.select(&selector).map(|e| e.inner_html()).collect())
}

} // verus!
