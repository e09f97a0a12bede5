//! Reading attributes out of HTML. The parsing and the CSS selection are
//! `scraper`'s; this module hands their result over as plain text.

use scraper::{Html, Selector};
use vstd::prelude::*;
use vstd::utf8::encode_utf8;

verus! {

/// What `scraper` finds in `html` for `selector`: `None` where it refuses the
/// selector, else one row for each element that the selector matches, in
/// the order in which `scraper` hands them out. A row holds, for each of
/// `names` in turn, the value of the element's attribute of that name, or
/// `None` where it has none.
pub uninterp spec fn selected_attrs(
    html: Seq<char>,
    selector: Seq<char>,
    names: Seq<Seq<char>>,
) -> Option<Seq<Seq<Option<Seq<char>>>>>;

/// The most bytes of markup that are handed to `scraper`. Its parser keeps
/// text in buffers whose lengths are `u32`, grown to powers of two, and a
/// character of the markup becomes at most three times its bytes in them;
/// markup within this limit stays well within those buffers.
pub const MAX_MARKUP_BYTES: usize = 0x1000_0000;

/// Whether `html` is short enough to be handed to `scraper`: in UTF-8 it
/// has no more than `MAX_MARKUP_BYTES` bytes.
pub open spec fn is_readable(html: Seq<char>) -> bool {
    encode_utf8(html).len() <= MAX_MARKUP_BYTES
}

/// Tells markup that is short enough to be handed to `scraper`.
pub fn readable(html: &str) -> (b: bool)
    ensures
        b == is_readable(html@),
{
    html.as_bytes().len() <= MAX_MARKUP_BYTES
}

/// The characters of each of `names`.
pub open spec fn names_chars(names: Seq<&str>) -> Seq<Seq<char>> {
    names.map_values(|n: &str| n@)
}

/// The characters of each entry of `row`.
pub open spec fn row_chars(row: Vec<Option<String>>) -> Seq<Option<Seq<char>>> {
    row@.map_values(
        |v: Option<String>|
            match v {
                Some(s) => Some(s@),
                None => None,
            },
    )
}

/// The characters of each entry of each of `rows`.
pub open spec fn rows_chars(rows: Vec<Vec<Option<String>>>) -> Seq<Seq<Option<Seq<char>>>> {
    rows@.map_values(|row: Vec<Option<String>>| row_chars(row))
}

/// Calls `scraper`: `Selector::parse` on `selector`, `Html::parse_document`
/// on `html`, `Html::select`, and `Element::attr` for each of `names` on each
/// element selected. Nothing is proved of it. The contract says that the
/// result is `selected_attrs` of the arguments, and that each row has one
/// entry for each name. It leaves out markup that is not readable, on which
/// the parser's buffers may overflow and panic.
#[verifier::external_body]
pub(crate) fn select_attrs(html: &str, selector: &str, names: &Vec<&str>) -> (r: Option<
    Vec<Vec<Option<String>>>,
>)
    requires
        is_readable(html@),
    ensures
        match selected_attrs(html@, selector@, names_chars(names@)) {
            Some(rows) => r matches Some(v) && rows_chars(v) == rows,
            None => r is None,
        },
        r matches Some(v) ==> forall|i: int| 0 <= i < v.len() ==> (#[trigger] v[i]).len() == names.len(),
{
    match Selector::parse(selector) {
        Ok(selector) => Some(
            Html::parse_document(html).select(&selector).map(
                |e| names.iter().map(|n| e.value().attr(n).map(String::from)).collect(),
            ).collect(),
        ),
        Err(_) => None,
    }
}

} // verus!
