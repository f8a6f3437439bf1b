//! Rows of the rendered commit graph.

use vstd::prelude::*;
use crate::git::types::CommitId;

verus! {

/// What is drawn in one column below a commit row.
#[derive(Clone, Copy, PartialEq, Eq, Structural, Debug)]
pub enum Connector {
    Vertical,
    Empty,
}

/// One row of the commit graph: the commit, the lane it sits in, how many
/// lanes are active, and the connector of every lane.
#[derive(Clone, Debug)]
pub struct GraphRow {
    pub oid: CommitId,
    /// Column this commit sits in
    pub col: usize,
    /// Total active columns in this row
    pub num_cols: usize,
    /// Connector lines below this row (indexed by column)
    pub connectors: Vec<Connector>,
}

/// The mathematical content of a row.
pub struct RowModel {
    pub oid: CommitId,
    pub col: nat,
    pub num_cols: nat,
    pub connectors: Seq<Connector>,
}

impl View for GraphRow {
    type V = RowModel;

    open spec fn view(&self) -> RowModel {
        RowModel {
            oid: self.oid,
            col: self.col as nat,
            num_cols: self.num_cols as nat,
            connectors: self.connectors@,
        }
    }
}

} // verus!
