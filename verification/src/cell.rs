//! The cells of a result set, before they become text.

use vstd::prelude::*;
use crate::prefix_map::{compacted, Entries, PrefixMap};

verus! {

/// One value of a result row.
#[derive(Debug, Clone, PartialEq, Eq)]
pub enum Cell {
    /// A literal, shown by its value.
    Literal(String),
    /// An IRI, shown in compact form.
    Iri(String),
    /// A blank node, or no value at all: shown as nothing.
    Blank,
}

/// A cell as a mathematical value.
pub enum CellView {
    Literal(Seq<char>),
    Iri(Seq<char>),
    Blank,
}

impl View for Cell {
    type V = CellView;

    open spec fn view(&self) -> CellView {
        match self {
            Cell::Literal(value) => CellView::Literal(value@),
            Cell::Iri(iri) => CellView::Iri(iri@),
            Cell::Blank => CellView::Blank,
        }
    }
}

impl DeepView for Cell {
    type V = CellView;

    open spec fn deep_view(&self) -> CellView {
        self@
    }
}

/// The text that stands for `cell` in a table: a literal's value unchanged,
/// an IRI compacted against `entries`, nothing for a blank.
pub open spec fn shown(entries: Entries, cell: CellView) -> Seq<char> {
    match cell {
        CellView::Literal(value) => value,
        CellView::Iri(iri) => compacted(entries, iri),
        CellView::Blank => Seq::empty(),
    }
}

/// A whole row of cells as text.
pub open spec fn shown_row(entries: Entries, row: Seq<CellView>) -> Seq<Seq<char>> {
    Seq::new(row.len(), |c: int| shown(entries, row[c]))
}

impl Cell {
    /// The text that stands for this cell.
    pub fn text(&self, prefixes: &PrefixMap) -> (out: String)
        ensures
            out@ == shown(prefixes@, self@),
    {
        match self {
            Cell::Literal(value) => value.clone(),
            Cell::Iri(iri) => prefixes.replace_with_prefix(iri.as_str()),
            Cell::Blank => String::new(),
        }
    }
}

/// Turns every cell of every row into text, keeping rows and columns as
/// they are.
pub fn texts_of(prefixes: &PrefixMap, rows: &Vec<Vec<Cell>>) -> (out: Vec<Vec<String>>)
    ensures
        out.deep_view() == Seq::new(
            rows.len() as nat,
            |r: int| shown_row(prefixes@, rows.deep_view()[r]),
        ),
{
    let ghost entries = prefixes@;
    let ghost cells = rows.deep_view();
    let mut out: Vec<Vec<String>> = Vec::new();
    let mut r: usize = 0;
    while r < rows.len()
        invariant
            r <= rows.len(),
            cells == rows.deep_view(),
            entries == prefixes@,
            out.deep_view() == Seq::new(r as nat, |q: int| shown_row(entries, cells[q])),
        decreases rows.len() - r,
    {
        let row = &rows[r];
        let mut texts: Vec<String> = Vec::new();
        let mut c: usize = 0;
        while c < row.len()
            invariant
                c <= row.len(),
                entries == prefixes@,
                texts.deep_view() == Seq::new(
                    c as nat,
                    |k: int| shown(entries, row.deep_view()[k]),
                ),
            decreases row.len() - c,
        {
            let ghost before = texts.deep_view();
            let text = row[c].text(prefixes);
            texts.push(text);
            assert(texts.deep_view() =~= before.push(shown(entries, row.deep_view()[c as int])));
            c += 1;
        }
        let ghost before = out.deep_view();
        out.push(texts);
        assert(out.deep_view() =~= before.push(shown_row(entries, cells[r as int])));
        r += 1;
    }
    out
}

} // verus!
