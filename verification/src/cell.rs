//! A grid cell: a resolved value and an optional source formula.

use vstd::prelude::*;

use crate::floatops::FloatOps;
use crate::text::int_text;
use crate::text::i64_to_string;

verus! {

/// A scalar cell value: text, a 64-bit signed integer, a boolean, or a
/// binary64 floating-point value carried as its bit pattern.
#[derive(Clone, Debug)]
pub enum CellValue {
    String(String),
    Int(i64),
    Bool(bool),
    Float(u64),
}

/// The mathematical value of a [`CellValue`]: text is a sequence of
/// characters, the scalars are themselves.
pub enum CellValueV {
    String(Seq<char>),
    Int(i64),
    Bool(bool),
    Float(u64),
}

impl DeepView for CellValue {
    type V = CellValueV;

    open spec fn deep_view(&self) -> CellValueV {
        match self {
            CellValue::String(s) => CellValueV::String(s@),
            CellValue::Int(i) => CellValueV::Int(*i),
            CellValue::Bool(b) => CellValueV::Bool(*b),
            CellValue::Float(f) => CellValueV::Float(*f),
        }
    }
}

impl Default for CellValue {
    /// An empty cell holds the integer zero.
    fn default() -> (r: Self)
        ensures
            r.deep_view() == CellValueV::Int(0),
    {
        CellValue::Int(0)
    }
}

/// The text a cell renders as; see [`Cell::evaluate`].  The text of a
/// float value is not pinned down: it comes from the embedder.
pub open spec fn cell_value_text(v: CellValueV) -> Option<Seq<char>> {
    match v {
        CellValueV::String(s) => Some(s),
        CellValueV::Int(i) => Some(int_text(i as int)),
        CellValueV::Bool(b) => Some(
            if b {
                "true"@
            } else {
                "false"@
            },
        ),
        CellValueV::Float(_) => None,
    }
}

/// One slot of the grid: the resolved value, and the formula it was
/// resolved from, if any.  The value is not re-derived from the formula
/// here; keeping the two in step is the caller's responsibility.
#[derive(Clone, Debug)]
pub struct Cell {
    value: CellValue,
    formula: Option<String>,
}

/// The mathematical value of a [`Cell`].
pub struct CellV {
    pub value: CellValueV,
    pub formula: Option<Seq<char>>,
}

impl DeepView for Cell {
    type V = CellV;

    closed spec fn deep_view(&self) -> CellV {
        CellV {
            value: self.value.deep_view(),
            formula: match &self.formula {
                Some(f) => Some(f@),
                None => None,
            },
        }
    }
}

impl Cell {
    /// A fresh cell: integer zero, no formula.
    pub fn new_empty() -> (r: Self)
        ensures
            r.deep_view().value == CellValueV::Int(0),
            r.deep_view().formula is None,
    {
        Cell { value: CellValue::Int(0), formula: None }
    }

    /// A cell holding the given value, with no formula.
    pub fn new(value: CellValue) -> (r: Self)
        ensures
            r.deep_view().value == value.deep_view(),
            r.deep_view().formula is None,
    {
        Cell { value, formula: None }
    }

    /// Replaces the stored value; the formula is kept.
    pub fn set_value(&mut self, value: CellValue)
        ensures
            final(self).deep_view().value == value.deep_view(),
            final(self).deep_view().formula == old(self).deep_view().formula,
    {
        self.value = value;
    }

    /// Replaces the stored formula; the value is kept.
    pub fn set_formula(&mut self, formula: String)
        ensures
            final(self).deep_view().formula == Some(formula@),
            final(self).deep_view().value == old(self).deep_view().value,
    {
        self.formula = Some(formula);
    }

    /// The stored value.
    pub fn get_value(&self) -> (r: &CellValue)
        ensures
            r.deep_view() == self.deep_view().value,
    {
        &self.value
    }

    /// The stored formula, if one was set.
    pub fn get_formula(&self) -> (r: Option<&String>)
        ensures
            match r {
                Some(f) => self.deep_view().formula == Some(f@),
                None => self.deep_view().formula is None,
            },
    {
        self.formula.as_ref()
    }

    /// The text the cell renders as: the stored text itself, the decimal
    /// digits of an integer, `true`/`false` for a boolean, and for a float
    /// the embedder's printing of the value.
    pub fn evaluate<F: FloatOps>(&self, fl: &F) -> (r: String)
        ensures
            match cell_value_text(self.deep_view().value) {
                Some(t) => r@ == t,
                None => true,
            },
    {
        proof {
            reveal_strlit("true");
            reveal_strlit("false");
        }
        match &self.value {
            CellValue::String(s) => s.as_str().to_owned(),
            CellValue::Int(i) => i64_to_string(*i),
            CellValue::Bool(b) => if *b {
                "true".to_owned()
            } else {
                "false".to_owned()
            },
            CellValue::Float(f) => fl.to_text(*f),
        }
    }
}

} // verus!
