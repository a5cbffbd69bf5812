//! Queries on HTML documents, made through visdom. Each query parses the
//! document and hands back plain values.
use vstd::prelude::*;

verus! {

/// One element that a selector matched: its text and one of its attributes.
pub struct SelectedNode {
    pub text: String,
    pub attr: Option<String>,
}

/// One row of a table: how many season-header elements it holds, and the raw
/// title text of each episode cell in it.
pub struct RowGroup {
    pub heads: usize,
    pub titles: Vec<String>,
}

pub open spec fn node_view(n: SelectedNode) -> (Seq<char>, Option<Seq<char>>) {
    (
        n.text@,
        match n.attr {
            Some(a) => Some(a@),
            None => None,
        },
    )
}

pub open spec fn node_views(v: Seq<SelectedNode>) -> Seq<(Seq<char>, Option<Seq<char>>)> {
    Seq::new(v.len(), |i: int| node_view(v[i]))
}

pub open spec fn string_views(v: Seq<String>) -> Seq<Seq<char>> {
    Seq::new(v.len(), |i: int| v[i]@)
}

pub open spec fn row_view(g: RowGroup) -> (nat, Seq<Seq<char>>) {
    (g.heads as nat, string_views(g.titles@))
}

pub open spec fn row_views(v: Seq<RowGroup>) -> Seq<(nat, Seq<Seq<char>>)> {
    Seq::new(v.len(), |i: int| row_view(v[i]))
}

/// The elements of `html` that `selector` matches, in document order, with
/// their text and the value of the attribute `attr`; `None` where the
/// document cannot be loaded.
pub uninterp spec fn selected_nodes(html: Seq<char>, selector: Seq<char>, attr: Seq<char>) -> Option<
    Seq<(Seq<char>, Option<Seq<char>>)>,
>;

/// How many elements of `html` the selector matches.
pub uninterp spec fn match_count(html: Seq<char>, selector: Seq<char>) -> Option<nat>;

/// For each element that `row` matches: how many elements inside it `head`
/// matches, and the text of what `title` matches inside each match of `item`.
pub uninterp spec fn row_groups(
    html: Seq<char>,
    row: Seq<char>,
    head: Seq<char>,
    item: Seq<char>,
    title: Seq<char>,
) -> Option<Seq<(nat, Seq<Seq<char>>)>>;

/// Relies on `visdom::Vis::load`, `Elements::find`, `text` and `attr`.
#[verifier::external_body]
pub(crate) fn select_nodes(html: &str, selector: &str, attr: &str) -> (r: Option<Vec<SelectedNode>>)
    ensures
        match r {
            Some(v) => selected_nodes(html@, selector@, attr@) == Some(node_views(v@)),
            None => selected_nodes(html@, selector@, attr@) is None,
        },
{
    let root = visdom::Vis::load(html).ok()?;
    Some(root.find(selector).into_iter().map(|e| {
        let node = visdom::Vis::dom(&e);
        SelectedNode { text: node.text(), attr: node.attr(attr).map(|a| a.to_string()) }
    }).collect())
}

/// Relies on `visdom::Vis::load`, `Elements::find` and `length`.
#[verifier::external_body]
pub(crate) fn count_matches(html: &str, selector: &str) -> (r: Option<usize>)
    ensures
        match r {
            Some(n) => match_count(html@, selector@) == Some(n as nat),
            None => match_count(html@, selector@) is None,
        },
{
    let root = visdom::Vis::load(html).ok()?;
    Some(root.find(selector).length())
}

/// Relies on `visdom::Vis::load`, `Vis::dom`, `Elements::find`, `length` and `text`.
#[verifier::external_body]
pub(crate) fn select_row_groups(html: &str, row: &str, head: &str, item: &str, title: &str) -> (r: Option<Vec<RowGroup>>)
    ensures
        match r {
            Some(v) => row_groups(html@, row@, head@, item@, title@) == Some(row_views(v@)),
            None => row_groups(html@, row@, head@, item@, title@) is None,
        },
{
    let root = visdom::Vis::load(html).ok()?;
    Some(root.find(row).into_iter().map(|tr| {
        let cells = visdom::Vis::dom(&tr);
        let titles = cells.find(item).into_iter().map(|ep| visdom::Vis::dom(&ep).find(title).text()).collect();
        RowGroup { heads: cells.find(head).length(), titles }
    }).collect())
}

} // verus!
