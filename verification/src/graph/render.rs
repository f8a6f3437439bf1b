//! Text rendering of graph rows.

use vstd::prelude::*;
use crate::graph::types::{Connector, GraphRow, RowModel};
use crate::strings::push_char;

verus! {

/// Semantic class of a single glyph in a rendered graph prefix.
#[derive(Clone, Copy, PartialEq, Eq, Structural, Debug)]
pub enum GlyphKind {
    /// The commit marker `●`.
    Node,
    /// A connector line (`│`, box-drawing, curves).
    Line,
    /// Anything else (spaces, padding).
    Other,
}

/// The box-drawing characters that draw graph lines.
pub open spec fn is_line_glyph(ch: char) -> bool {
    ch == '│' || ch == '├' || ch == '┤' || ch == '┬' || ch == '┴' || ch == '┼' || ch == '╮'
        || ch == '╭' || ch == '╯' || ch == '╰' || ch == '─'
}

/// Classifies a glyph of a rendered graph prefix.
pub fn classify_glyph(ch: char) -> (k: GlyphKind)
    ensures
        k == (if ch == '●' {
            GlyphKind::Node
        } else if is_line_glyph(ch) {
            GlyphKind::Line
        } else {
            GlyphKind::Other
        }),
{
    match ch {
        '●' => GlyphKind::Node,
        '│' | '├' | '┤' | '┬' | '┴' | '┼' | '╮' | '╭' | '╯' | '╰' | '─' => GlyphKind::Line,
        _ => GlyphKind::Other,
    }
}

/// Number of columns a row's prefix spans: its active lanes, and at least
/// up to its own lane.
pub open spec fn prefix_width(row: RowModel) -> nat {
    if row.num_cols > row.col + 1 { row.num_cols } else { row.col + 1 }
}

/// The glyph drawn in column `i` of a row: the commit marker in its own
/// lane, a line where a vertical connector runs, blank otherwise.
pub open spec fn prefix_glyph(row: RowModel, i: int) -> char {
    if i == row.col {
        '●'
    } else if 0 <= i < row.connectors.len() && row.connectors[i] == Connector::Vertical {
        '│'
    } else {
        ' '
    }
}

/// The first `n` columns of a row's prefix, each glyph followed by a space.
pub open spec fn prefix_columns(row: RowModel, n: nat) -> Seq<char>
    decreases n,
{
    if n == 0 {
        Seq::empty()
    } else {
        prefix_columns(row, (n - 1) as nat) + seq![prefix_glyph(row, n - 1), ' ']
    }
}

/// The full graph prefix of a row, e.g. `"● │ │ "`.
pub open spec fn prefix_text(row: RowModel) -> Seq<char> {
    prefix_columns(row, prefix_width(row))
}

/// Renders the graph prefix of a row.
pub fn render_graph_prefix(row: &GraphRow) -> (s: String)
    requires
        row.col < usize::MAX,
    ensures
        s@ == prefix_text(row@),
{
    let width = if row.num_cols > row.col + 1 { row.num_cols } else { row.col + 1 };
    let mut s = String::new();
    let mut i: usize = 0;
    while i < width
        invariant
            i <= width,
            width == prefix_width(row@),
            s@ == prefix_columns(row@, i as nat),
        decreases width - i,
    {
        let glyph = if i == row.col {
            '●'
        } else if i < row.connectors.len() && row.connectors[i] == Connector::Vertical {
            '│'
        } else {
            ' '
        };
        push_char(&mut s, glyph);
        push_char(&mut s, ' ');
        proof {
            assert(s@ =~= prefix_columns(row@, (i + 1) as nat));
        }
        i += 1;
    }
    s
}


/// The glyph drawn in column `i` below a row: a line where a vertical
/// connector runs, blank otherwise.
pub open spec fn connector_glyph(row: RowModel, i: int) -> char {
    if 0 <= i < row.connectors.len() && row.connectors[i] == Connector::Vertical {
        '│'
    } else {
        ' '
    }
}

/// The first `n` columns of the connector line below a row, each glyph
/// followed by a space.
pub open spec fn connector_columns(row: RowModel, n: nat) -> Seq<char>
    decreases n,
{
    if n == 0 {
        Seq::empty()
    } else {
        connector_columns(row, (n - 1) as nat) + seq![connector_glyph(row, n - 1), ' ']
    }
}

/// Renders the connector line drawn below a row, as wide as its prefix.
pub fn render_connector_prefix(row: &GraphRow) -> (s: String)
    requires
        row.col < usize::MAX,
    ensures
        s@ == connector_columns(row@, prefix_width(row@)),
{
    let width = if row.num_cols > row.col + 1 { row.num_cols } else { row.col + 1 };
    let mut s = String::new();
    let mut i: usize = 0;
    while i < width
        invariant
            i <= width,
            width == prefix_width(row@),
            s@ == connector_columns(row@, i as nat),
        decreases width - i,
    {
        let glyph = if i < row.connectors.len() && row.connectors[i] == Connector::Vertical {
            '│'
        } else {
            ' '
        };
        push_char(&mut s, glyph);
        push_char(&mut s, ' ');
        proof {
            assert(s@ =~= connector_columns(row@, (i + 1) as nat));
        }
        i += 1;
    }
    s
}

/// A rendered prefix has two characters per column.
pub proof fn law_prefix_has_two_chars_per_column(row: RowModel, n: nat)
    ensures
        prefix_columns(row, n).len() == 2 * n,
        connector_columns(row, n).len() == 2 * n,
    decreases n,
{
    if n > 0 {
        law_prefix_has_two_chars_per_column(row, (n - 1) as nat);
    }
}

} // verus!
