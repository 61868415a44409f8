//! Trusted access to the select crate's HTML parsing, used to locate the
//! metadata script that TSML WordPress pages embed. Parsing a page is a
//! deterministic function of its text, which is what naming the result
//! claims.

use vstd::prelude::*;

verus! {

/// The text of the first element of the page whose `id` attribute equals
/// `id`, if the page has one.
pub uninterp spec fn element_text_of(html: Seq<char>, id: Seq<char>) -> Option<Seq<char>>;

/// Relies on `select::document::Document::from`, `Document::find` with an
/// `Attr` predicate, and `Node::text`: the text of the first element whose
/// `id` attribute equals `id`, if the page has one.
#[verifier::external_body]
pub fn element_text_by_id(html: &str, id: &str) -> (r: Option<String>)
    ensures
        r matches Some(t) ==> element_text_of(html@, id@) == Some(t@),
        r is None ==> element_text_of(html@, id@) is None,
{
    let document = select::document::Document::from(html);
    let node = document.find(select::predicate::Attr("id", id)).next()?;
    Some(node.text())
}

} // verus!
