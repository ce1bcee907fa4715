//! Typed columns of equal-length data, the payload of an owned table.

use vstd::prelude::*;
use crate::scalar::Scalar;

verus! {

/// The granularity of a timestamp column.
#[derive(Clone, Copy, Debug, PartialEq, Eq, Structural)]
pub enum PoSQLTimeUnit {
    Second,
    Millisecond,
    Microsecond,
    Nanosecond,
}

/// A fixed offset from UTC, in seconds.
#[derive(Clone, Copy, Debug, PartialEq, Eq, Structural)]
pub struct PoSQLTimeZone {
    pub offset: i32,
}

impl PoSQLTimeZone {
    /// The zero offset.
    pub fn utc() -> (r: PoSQLTimeZone)
        ensures
            r.offset == 0,
    {
        PoSQLTimeZone { offset: 0 }
    }
}

/// The mathematical content of a column: its type tag and the sequence of
/// values it holds.
pub enum ColumnData {
    Boolean(Seq<bool>),
    BigInt(Seq<i64>),
    Int128(Seq<i128>),
    VarChar(Seq<Seq<char>>),
    Scalar(Seq<Scalar>),
    TimestampTZ(PoSQLTimeUnit, PoSQLTimeZone, Seq<i64>),
}

impl ColumnData {
    /// The number of rows the column holds.
    pub open spec fn len(&self) -> nat {
        match self {
            ColumnData::Boolean(v) => v.len(),
            ColumnData::BigInt(v) => v.len(),
            ColumnData::Int128(v) => v.len(),
            ColumnData::VarChar(v) => v.len(),
            ColumnData::Scalar(v) => v.len(),
            ColumnData::TimestampTZ(_, _, v) => v.len(),
        }
    }
}

/// A column of an owned table.
#[derive(Debug)]
pub enum OwnedColumn {
    Boolean(Vec<bool>),
    BigInt(Vec<i64>),
    Int128(Vec<i128>),
    VarChar(Vec<String>),
    Scalar(Vec<Scalar>),
    TimestampTZ(PoSQLTimeUnit, PoSQLTimeZone, Vec<i64>),
}

impl View for OwnedColumn {
    type V = ColumnData;

    open spec fn view(&self) -> ColumnData {
        match self {
            OwnedColumn::Boolean(v) => ColumnData::Boolean(v@),
            OwnedColumn::BigInt(v) => ColumnData::BigInt(v@),
            OwnedColumn::Int128(v) => ColumnData::Int128(v@),
            OwnedColumn::VarChar(v) => ColumnData::VarChar(v.deep_view()),
            OwnedColumn::Scalar(v) => ColumnData::Scalar(v@),
            OwnedColumn::TimestampTZ(u, z, v) => ColumnData::TimestampTZ(*u, *z, v@),
        }
    }
}

impl OwnedColumn {
    /// The number of rows the column holds.
    pub fn len(&self) -> (r: usize)
        ensures
            r == self@.len(),
    {
        match self {
            OwnedColumn::Boolean(v) => v.len(),
            OwnedColumn::BigInt(v) => v.len(),
            OwnedColumn::Int128(v) => v.len(),
            OwnedColumn::VarChar(v) => v.len(),
            OwnedColumn::Scalar(v) => v.len(),
            OwnedColumn::TimestampTZ(_, _, v) => v.len(),
        }
    }
}

impl PartialEq for OwnedColumn {
    /// Columns are equal when they have the same type tag and the same data.
    fn eq(&self, other: &OwnedColumn) -> (r: bool) {
        match (self, other) {
            (OwnedColumn::Boolean(a), OwnedColumn::Boolean(b)) => eq_vec_bool(a, b),
            (OwnedColumn::BigInt(a), OwnedColumn::BigInt(b)) => eq_vec_i64(a, b),
            (OwnedColumn::Int128(a), OwnedColumn::Int128(b)) => eq_vec_i128(a, b),
            (OwnedColumn::VarChar(a), OwnedColumn::VarChar(b)) => eq_vec_string(a, b),
            (OwnedColumn::Scalar(a), OwnedColumn::Scalar(b)) => eq_vec_scalar(a, b),
            (
                OwnedColumn::TimestampTZ(u1, z1, a),
                OwnedColumn::TimestampTZ(u2, z2, b),
            ) => *u1 == *u2 && *z1 == *z2 && eq_vec_i64(a, b),
            _ => false,
        }
    }
}

impl vstd::std_specs::cmp::PartialEqSpecImpl for OwnedColumn {
    open spec fn obeys_eq_spec() -> bool {
        true
    }

    open spec fn eq_spec(&self, other: &OwnedColumn) -> bool {
        self@ == other@
    }
}

/// Elementwise comparison of boolean columns.
fn eq_vec_bool(a: &Vec<bool>, b: &Vec<bool>) -> (r: bool)
    ensures
        r == (a@ == b@),
{
    let r = a == b;
    proof {
        if r {
            assert(a@ =~= b@);
        } else if a@.len() == b@.len() {
            let i = choose|i: int| !(0 <= i < a@.len() ==> a@[i] == b@[i]);
            assert(a@[i] != b@[i]);
        }
    }
    r
}

/// Elementwise comparison of 64-bit integer columns.
fn eq_vec_i64(a: &Vec<i64>, b: &Vec<i64>) -> (r: bool)
    ensures
        r == (a@ == b@),
{
    let r = a == b;
    proof {
        if r {
            assert(a@ =~= b@);
        } else if a@.len() == b@.len() {
            let i = choose|i: int| !(0 <= i < a@.len() ==> a@[i] == b@[i]);
            assert(a@[i] != b@[i]);
        }
    }
    r
}

/// Elementwise comparison of 128-bit integer columns.
fn eq_vec_i128(a: &Vec<i128>, b: &Vec<i128>) -> (r: bool)
    ensures
        r == (a@ == b@),
{
    let r = a == b;
    proof {
        if r {
            assert(a@ =~= b@);
        } else if a@.len() == b@.len() {
            let i = choose|i: int| !(0 <= i < a@.len() ==> a@[i] == b@[i]);
            assert(a@[i] != b@[i]);
        }
    }
    r
}

/// Elementwise comparison of string columns, by character content.
fn eq_vec_string(a: &Vec<String>, b: &Vec<String>) -> (r: bool)
    ensures
        r == (a.deep_view() == b.deep_view()),
{
    proof {
        assert(a.deep_view().len() == a@.len());
        assert(b.deep_view().len() == b@.len());
    }
    if a.len() != b.len() {
        return false;
    }
    let n = a.len();
    let mut i: usize = 0;
    while i < n
        invariant
            n == a@.len(),
            a@.len() == b@.len(),
            i <= n,
            forall|j: int| 0 <= j < i ==> a.deep_view()[j] == b.deep_view()[j],
        decreases n - i,
    {
        if a[i] != b[i] {
            proof {
                assert(a.deep_view()[i as int] != b.deep_view()[i as int]);
            }
            return false;
        }
        i += 1;
    }
    proof {
        assert(a.deep_view() =~= b.deep_view());
    }
    true
}

/// Elementwise comparison of scalar columns.
fn eq_vec_scalar(a: &Vec<Scalar>, b: &Vec<Scalar>) -> (r: bool)
    ensures
        r == (a@ == b@),
{
    if a.len() != b.len() {
        return false;
    }
    let n = a.len();
    let mut i: usize = 0;
    while i < n
        invariant
            n == a@.len(),
            a@.len() == b@.len(),
            i <= n,
            forall|j: int| 0 <= j < i ==> a@[j] == b@[j],
        decreases n - i,
    {
        if a[i] != b[i] {
            return false;
        }
        i += 1;
    }
    proof {
        assert(a@ =~= b@);
    }
    true
}

} // verus!
