//! CSS queries on a parsed page or on one of its elements.
use vstd::prelude::*;

use crate::deps::{
    css_selector_parses, html_ancestor_ids, html_element_id, html_match_count, select_in_document, select_in_node, step, Document, Node,
    Path,
};

verus! {

/// First and all matches of a CSS selector under a document or an element.
pub trait Query {
    /// The page text and the place queries start from (the empty path for
    /// the document itself).
    spec fn place(&self) -> (Seq<char>, Path);

    /// The first match of `selector`; `None` when the selector does not parse
    /// or nothing matches.
    fn query_selector(&self, selector: &str) -> (r: Option<Node<'_>>)
        ensures
            r is Some <==> css_selector_parses(selector@) && html_match_count(
                self.place().0,
                self.place().1,
                selector@,
            ) > 0,
            r matches Some(n) ==> n@ == (self.place().0, step(self.place().1, selector@, 0)),
    ;

    /// Every match of `selector`, in order; `None` when the selector does not
    /// parse.
    fn query_selector_all(&self, selector: &str) -> (r: Option<Vec<Node<'_>>>)
        ensures
            r is Some <==> css_selector_parses(selector@),
            r matches Some(v) ==> v@.len() == html_match_count(
                self.place().0,
                self.place().1,
                selector@,
            ) && forall|i: int|
                0 <= i < v@.len() ==> #[trigger] v@[i]@ == (
                    self.place().0,
                    step(self.place().1, selector@, i),
                ),
    ;
}

impl Query for Document {
    open spec fn place(&self) -> (Seq<char>, Path) {
        (self@, Seq::empty())
    }

    fn query_selector(&self, selector: &str) -> (r: Option<Node<'_>>) {
        match self.query_selector_all(selector) {
            Some(all) => first_of(all),
            None => None,
        }
    }

    fn query_selector_all(&self, selector: &str) -> (r: Option<Vec<Node<'_>>>) {
        select_in_document(self, selector)
    }
}

impl<'a> Query for Node<'a> {
    open spec fn place(&self) -> (Seq<char>, Path) {
        self@
    }

    /// Under an element the first match is a proper descendant, never the
    /// element itself.
    fn query_selector(&self, selector: &str) -> (r: Option<Node<'_>>)
        ensures
            r matches Some(n) ==> html_ancestor_ids(self@.0, n@.1).contains(
                html_element_id(self@.0, self@.1),
            ) && html_element_id(self@.0, n@.1) != html_element_id(self@.0, self@.1),
    {
        match self.query_selector_all(selector) {
            Some(all) => first_of(all),
            None => None,
        }
    }

    /// Under an element every match is a proper descendant.
    fn query_selector_all(&self, selector: &str) -> (r: Option<Vec<Node<'_>>>)
        ensures
            r matches Some(v) ==> forall|i: int|
                0 <= i < v@.len() ==> html_ancestor_ids(self@.0, (#[trigger] v@[i])@.1).contains(
                    html_element_id(self@.0, self@.1),
                ) && html_element_id(self@.0, v@[i]@.1) != html_element_id(self@.0, self@.1),
    {
        select_in_node(self, selector)
    }
}

/// The first item of a list, if any.
pub fn first_of<T>(v: Vec<T>) -> (r: Option<T>)
    ensures
        r == (if v@.len() > 0 {
            Some(v@[0])
        } else {
            None
        }),
{
    let mut v = v;
    if v.len() == 0 {
        None
    } else {
        Some(v.swap_remove(0))
    }
}

} // verus!
