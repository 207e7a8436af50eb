//! What the web routes decide: the listing entries they return, how an
//! article id in a path or query is handled, and where `/<id>` redirects.
use vstd::prelude::*;

use crate::text::{i32_to_decimal, parse_i32, parse_i32_spec, push_str, signed_decimal};

verus! {

/// One entry of a listing page: the headline and the article id.
#[derive(Debug)]
pub struct Today {
    pub title: String,
    pub id: String,
}

impl View for Today {
    type V = (Seq<char>, Seq<char>);

    open spec fn view(&self) -> (Seq<char>, Seq<char>) {
        (self.title@, self.id@)
    }
}

/// A row of an article as the front end draws it: a tag name and its content.
pub type Row = [String; 2];

/// The tag name and content of a row.
pub open spec fn row_view(row: Row) -> (Seq<char>, Seq<char>) {
    (row@[0]@, row@[1]@)
}

pub open spec fn rows_view(rows: Seq<Row>) -> Seq<(Seq<char>, Seq<char>)> {
    rows.map_values(|r: Row| row_view(r))
}

/// A row made of two texts.
pub fn make_row(tag: &str, content: &str) -> (r: Row)
    ensures
        row_view(r) == (tag@, content@),
{
    let mut a = String::new();
    push_str(&mut a, tag);
    let mut b = String::new();
    push_str(&mut b, content);
    [a, b]
}

/// The message shown when the `id` query parameter is not a number.
pub const BAD_ID_MESSAGE: &'static str = "<em>The query param \"id\" is wrong.</em>";

/// What `/api/desc?id=..` does with its parameter.
pub enum DescPlan {
    /// Read the article with this id.
    Fetch(i32),
    /// Answer at once with these rows.
    Reply(Vec<Row>),
}

/// `/api/desc` reads the article when `id` is an `i32` numeral, and otherwise
/// answers with a single paragraph saying that the parameter is wrong.
pub fn plan_desc(id: &str) -> (r: DescPlan)
    ensures
        match parse_i32_spec(id@) {
            Some(n) => r == DescPlan::Fetch(n),
            None => r matches DescPlan::Reply(rows) && rows_view(rows@) == seq![
                ("p"@, BAD_ID_MESSAGE@),
            ],
        },
{
    match parse_i32(id) {
        Some(n) => DescPlan::Fetch(n),
        None => {
            let mut rows: Vec<Row> = Vec::new();
            rows.push(make_row("p", BAD_ID_MESSAGE));
            assert(rows_view(rows@) == seq![("p"@, BAD_ID_MESSAGE@)]);
            DescPlan::Reply(rows)
        },
    }
}

/// Where `/<id>` sends the browser: the front end's article view.
pub fn desc_redirect(id: i32) -> (r: String)
    ensures
        r@ == "/#/desc?id="@ + signed_decimal(id as int),
{
    let mut s = String::new();
    push_str(&mut s, "/#/desc?id=");
    let n = i32_to_decimal(id);
    push_str(&mut s, n.as_str());
    s
}

} // verus!
