//! Dimension levels of the reporting hierarchy and the carrier type of a
//! templated report query.
use vstd::prelude::*;
use crate::models::Column;

verus! {

/// A level of the reporting hierarchy.  Each level subsumes the ones below
/// it, which the bit masks express: line item, insertion order above it,
/// campaign above both.
#[derive(Clone, Copy, PartialEq, Eq, Structural)]
pub enum Dim {
    LI,
    IO,
    CA,
}

impl Dim {
    /// The bit mask of this level: each level's mask contains the masks of
    /// the levels it subsumes.
    pub open spec fn spec_mask(self) -> u64 {
        match self {
            Dim::LI => 0x1,
            Dim::IO => 0x3,
            Dim::CA => 0x7,
        }
    }

    /// The bit mask of this level.
    pub fn mask(&self) -> (r: u64)
        ensures
            r == self.spec_mask(),
    {
        match self {
            Dim::LI => 0x1,
            Dim::IO => 0x3,
            Dim::CA => 0x7,
        }
    }

    /// Whether this level is contained in the given join mask.
    pub fn isin(&self, to_check: &u64) -> (r: bool)
        ensures
            r == (self.spec_mask() & *to_check == self.spec_mask()),
    {
        let mask = self.mask();
        mask & *to_check == mask
    }
}

/// The data rendered into a templated report query: the selected columns
/// and the mask of hierarchy joins to include.
pub struct ReportQuery {
    columns: Vec<Column>,
    joins: u64,
}

impl View for ReportQuery {
    type V = (Seq<crate::models::ColumnV>, u64);

    closed spec fn view(&self) -> (Seq<crate::models::ColumnV>, u64) {
        (Seq::new(self.columns@.len(), |i: int| self.columns@[i]@), self.joins)
    }
}

impl ReportQuery {
    /// A report query over the given columns and join mask.
    pub fn new(columns: Vec<Column>, joins: u64) -> (r: Self)
        ensures
            r@.0 == Seq::new(columns@.len(), |i: int| columns@[i]@),
            r@.1 == joins,
    {
        Self { columns, joins }
    }
}

} // verus!
