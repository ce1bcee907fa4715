//! An insertion-ordered table of named, equal-length columns.

use vstd::prelude::*;
use crate::column::{ColumnData, OwnedColumn, PoSQLTimeUnit, PoSQLTimeZone};
use crate::scalar::Scalar;

verus! {

/// A column name.
#[derive(Debug)]
pub struct Ident {
    pub value: String,
}

impl View for Ident {
    type V = Seq<char>;

    open spec fn view(&self) -> Seq<char> {
        self.value@
    }
}

impl Ident {
    /// Names a column.
    pub fn new(value: &str) -> (r: Ident)
        ensures
            r@ == value@,
    {
        Ident { value: value.to_owned() }
    }
}

impl PartialEq for Ident {
    /// Names are equal when they hold the same characters.
    fn eq(&self, other: &Ident) -> (r: bool) {
        self.value == other.value
    }
}

impl vstd::std_specs::cmp::PartialEqSpecImpl for Ident {
    open spec fn obeys_eq_spec() -> bool {
        true
    }

    open spec fn eq_spec(&self, other: &Ident) -> bool {
        self@ == other@
    }
}

/// The first value stored under `key`, scanning the entries front to back.
pub open spec fn lookup(entries: Seq<(Seq<char>, ColumnData)>, key: Seq<char>) -> Option<
    ColumnData,
>
    decreases entries.len(),
{
    if entries.len() == 0 {
        None
    } else if entries[0].0 == key {
        Some(entries[0].1)
    } else {
        lookup(entries.drop_first(), key)
    }
}

/// Whether some entry stores a value under `key`.
pub open spec fn contains_key(entries: Seq<(Seq<char>, ColumnData)>, key: Seq<char>) -> bool {
    lookup(entries, key) is Some
}

/// The position of the first entry stored under `key`.
pub open spec fn first_index(entries: Seq<(Seq<char>, ColumnData)>, key: Seq<char>) -> int
    decreases entries.len(),
{
    if entries.len() == 0 {
        0
    } else if entries[0].0 == key {
        0
    } else {
        1 + first_index(entries.drop_first(), key)
    }
}

/// What inserting under `key` does: an existing entry keeps its place and
/// takes the new value; a fresh key goes to the back.
pub open spec fn spec_insert(
    entries: Seq<(Seq<char>, ColumnData)>,
    key: Seq<char>,
    value: ColumnData,
) -> Seq<(Seq<char>, ColumnData)> {
    if contains_key(entries, key) {
        entries.update(first_index(entries, key), (key, value))
    } else {
        entries.push((key, value))
    }
}

/// Scanning past `i` entries that do not hold `key` leaves the outcome of a
/// front-to-back search unchanged.
proof fn lemma_lookup_scan(entries: Seq<(Seq<char>, ColumnData)>, key: Seq<char>, i: int)
    requires
        0 <= i <= entries.len(),
        forall|j: int| 0 <= j < i ==> (#[trigger] entries[j]).0 != key,
    ensures
        lookup(entries, key) == lookup(entries.skip(i), key),
        contains_key(entries, key) ==> first_index(entries, key) == i + first_index(
            entries.skip(i),
            key,
        ),
    decreases i,
{
    if i == 0 {
        assert(entries.skip(0) =~= entries);
    } else {
        lemma_lookup_scan(entries, key, i - 1);
        let s = entries.skip(i - 1);
        assert(s[0] == entries[i - 1]);
        assert(s.drop_first() =~= entries.skip(i));
    }
}

/// The key-to-value reading of the entries as a whole: same length and, for
/// each entry of `a`, the same first value under its key in `b`.
pub open spec fn map_eq(
    a: Seq<(Seq<char>, ColumnData)>,
    b: Seq<(Seq<char>, ColumnData)>,
) -> bool {
    &&& a.len() == b.len()
    &&& forall|i: int| 0 <= i < a.len() ==> #[trigger] lookup(b, a[i].0) == Some(a[i].1)
}

/// The named-pair reading of a sequence of owned entries.
pub open spec fn entries_view(entries: Seq<(Ident, OwnedColumn)>) -> Seq<
    (Seq<char>, ColumnData),
> {
    entries.map_values(|e: (Ident, OwnedColumn)| (e.0@, e.1@))
}

/// An insertion-ordered association of column names to columns.
#[derive(Debug)]
pub struct IndexMap {
    pub entries: Vec<(Ident, OwnedColumn)>,
}

impl View for IndexMap {
    type V = Seq<(Seq<char>, ColumnData)>;

    open spec fn view(&self) -> Seq<(Seq<char>, ColumnData)> {
        entries_view(self.entries@)
    }
}

impl Default for IndexMap {
    /// The empty association.
    fn default() -> (r: IndexMap)
        ensures
            r@ == Seq::<(Seq<char>, ColumnData)>::empty(),
    {
        let r = IndexMap { entries: Vec::new() };
        proof {
            assert(r@ =~= Seq::<(Seq<char>, ColumnData)>::empty());
        }
        r
    }
}

impl IndexMap {
    /// The number of entries.
    pub fn len(&self) -> (r: usize)
        ensures
            r == self@.len(),
    {
        self.entries.len()
    }

    /// The first column stored under `key`, if any.
    pub fn get(&self, key: &Ident) -> (r: Option<&OwnedColumn>)
        ensures
            match r {
                Some(c) => lookup(self@, key@) == Some(c@),
                None => lookup(self@, key@) is None,
            },
    {
        let n = self.entries.len();
        let mut i: usize = 0;
        while i < n
            invariant
                n == self.entries@.len(),
                i <= n,
                forall|j: int| 0 <= j < i ==> (#[trigger] self@[j]).0 != key@,
            decreases n - i,
        {
            let entry = &self.entries[i];
            if entry.0 == *key {
                proof {
                    lemma_lookup_scan(self@, key@, i as int);
                    assert(self@.skip(i as int)[0] == self@[i as int]);
                }
                return Some(&entry.1);
            }
            i += 1;
        }
        proof {
            lemma_lookup_scan(self@, key@, n as int);
            assert(self@.skip(n as int) =~= Seq::<(Seq<char>, ColumnData)>::empty());
        }
        None
    }

    /// Stores `value` under `key`: an existing entry keeps its place and
    /// takes the new value; a fresh key goes to the back.
    pub fn insert(&mut self, key: Ident, value: OwnedColumn)
        ensures
            final(self)@ == spec_insert(old(self)@, key@, value@),
    {
        let n = self.entries.len();
        let mut i: usize = 0;
        while i < n
            invariant
                *self == *old(self),
                n == self.entries@.len(),
                i <= n,
                forall|j: int| 0 <= j < i ==> (#[trigger] self@[j]).0 != key@,
            decreases n - i,
        {
            if self.entries[i].0 == key {
                proof {
                    lemma_lookup_scan(self@, key@, i as int);
                    assert(self@.skip(i as int)[0] == self@[i as int]);
                    let entries = self.entries@;
                    assert(self@[i as int] == (entries[i as int].0@, entries[i as int].1@));
                }
                self.entries[i] = (key, value);
                proof {
                    assert(self.entries@ == old(self).entries@.update(i as int, (key, value)));
                    assert(self@ =~= spec_insert(old(self)@, key@, value@));
                }
                return ;
            }
            i += 1;
        }
        proof {
            lemma_lookup_scan(self@, key@, n as int);
            assert(self@.skip(n as int) =~= Seq::<(Seq<char>, ColumnData)>::empty());
        }
        self.entries.push((key, value));
        proof {
            assert(self@ =~= spec_insert(old(self)@, key@, value@));
        }
    }
}

impl PartialEq for IndexMap {
    /// Associations are equal when they store the same values under the same
    /// keys, regardless of entry order.
    fn eq(&self, other: &IndexMap) -> (r: bool) {
        if self.entries.len() != other.entries.len() {
            return false;
        }
        let n = self.entries.len();
        let mut i: usize = 0;
        while i < n
            invariant
                n == self.entries@.len(),
                self@.len() == other@.len(),
                i <= n,
                forall|j: int| 0 <= j < i ==> #[trigger] lookup(other@, self@[j].0) == Some(
                    self@[j].1,
                ),
            decreases n - i,
        {
            let entry = &self.entries[i];
            proof {
                assert(self@[i as int] == (entry.0@, entry.1@));
            }
            match other.get(&entry.0) {
                Some(c) => {
                    if !(entry.1 == *c) {
                        proof {
                            assert(lookup(other@, self@[i as int].0) == Some(c@));
                            assert(!map_eq(self@, other@));
                        }
                        return false;
                    }
                },
                None => {
                    proof {
                        assert(!map_eq(self@, other@));
                    }
                    return false;
                },
            }
            i += 1;
        }
        true
    }
}

impl vstd::std_specs::cmp::PartialEqSpecImpl for IndexMap {
    open spec fn obeys_eq_spec() -> bool {
        true
    }

    open spec fn eq_spec(&self, other: &IndexMap) -> bool {
        map_eq(self@, other@)
    }
}

/// All columns of the entries hold the same number of rows.
pub open spec fn column_lengths_equal(entries: Seq<(Seq<char>, ColumnData)>) -> bool {
    forall|i: int, j: int|
        0 <= i < entries.len() && 0 <= j < entries.len() ==> #[trigger] entries[i].1.len()
            == #[trigger] entries[j].1.len()
}

/// Folding the entries front to back through `spec_insert`.
pub open spec fn spec_collect(entries: Seq<(Seq<char>, ColumnData)>) -> Seq<
    (Seq<char>, ColumnData),
>
    decreases entries.len(),
{
    if entries.len() == 0 {
        Seq::empty()
    } else {
        spec_insert(spec_collect(entries.drop_last()), entries.last().0, entries.last().1)
    }
}

/// The single way building a table can fail.
#[derive(Clone, Copy, Debug, PartialEq, Eq, Structural)]
pub enum OwnedTableError {
    ColumnLengthMismatch,
}

/// A table of named columns, all of the same length, in insertion order.
/// Unlike the key-to-value reading of its inner association, table equality
/// observes the column order.
#[derive(Debug)]
pub struct OwnedTable {
    pub table: IndexMap,
}

impl View for OwnedTable {
    type V = Seq<(Seq<char>, ColumnData)>;

    open spec fn view(&self) -> Seq<(Seq<char>, ColumnData)> {
        self.table@
    }
}

impl OwnedTable {
    /// Accepts an association whose columns all hold the same number of rows,
    /// and rejects any other.
    pub fn try_new(table: IndexMap) -> (r: Result<OwnedTable, OwnedTableError>)
        ensures
            match r {
                Ok(t) => t@ == table@ && column_lengths_equal(table@),
                Err(e) => e == OwnedTableError::ColumnLengthMismatch && !column_lengths_equal(
                    table@,
                ),
            },
    {
        let n = table.entries.len();
        if n == 0 {
            return Ok(OwnedTable { table });
        }
        let expected = table.entries[0].1.len();
        proof {
            assert(table@[0] == (table.entries@[0].0@, table.entries@[0].1@));
        }
        let mut i: usize = 1;
        while i < n
            invariant
                n == table.entries@.len(),
                n > 0,
                expected == table@[0].1.len(),
                1 <= i <= n,
                forall|j: int| 0 <= j < i ==> (#[trigger] table@[j]).1.len() == expected,
            decreases n - i,
        {
            proof {
                let entries = table.entries@;
                assert(table@[i as int] == (entries[i as int].0@, entries[i as int].1@));
            }
            if table.entries[i].1.len() != expected {
                proof {
                    assert(table@[i as int].1.len() != table@[0].1.len());
                }
                return Err(OwnedTableError::ColumnLengthMismatch);
            }
            i += 1;
        }
        Ok(OwnedTable { table })
    }

    /// Builds the association by inserting the entries front to back, then
    /// checks the column lengths as `try_new` does.
    pub fn try_from_iter(entries: Vec<(Ident, OwnedColumn)>) -> (r: Result<
        OwnedTable,
        OwnedTableError,
    >)
        ensures
            match r {
                Ok(t) => t@ == spec_collect(entries_view(entries@)) && column_lengths_equal(
                    spec_collect(entries_view(entries@)),
                ),
                Err(e) => e == OwnedTableError::ColumnLengthMismatch && !column_lengths_equal(
                    spec_collect(entries_view(entries@)),
                ),
            },
    {
        let ghost orig = entries@;
        let mut rest = entries;
        let mut map = IndexMap { entries: Vec::new() };
        proof {
            assert(map@ =~= Seq::<(Seq<char>, ColumnData)>::empty());
            assert(entries_view(orig).take(0) =~= Seq::<(Seq<char>, ColumnData)>::empty());
            assert(rest@ =~= orig.skip(0));
        }
        while rest.len() > 0
            invariant
                rest@.len() <= orig.len(),
                rest@ == orig.skip(orig.len() - rest@.len()),
                map@ == spec_collect(entries_view(orig).take(orig.len() - rest@.len())),
            decreases rest.len(),
        {
            let ghost k = orig.len() - rest@.len();
            let entry = rest.remove(0);
            proof {
                assert(orig.skip(k).drop_first() =~= orig.skip(k + 1));
                assert(entry == orig[k]);
            }
            let (name, column) = entry;
            map.insert(name, column);
            proof {
                let v = entries_view(orig);
                assert(v.take(k + 1).drop_last() =~= v.take(k));
                assert(v.take(k + 1).last() == v[k]);
                assert(v[k] == (orig[k].0@, orig[k].1@));
            }
        }
        proof {
            assert(entries_view(orig).take(orig.len() as int) =~= entries_view(orig));
        }
        Self::try_new(map)
    }

    /// The number of columns.
    pub fn num_columns(&self) -> (r: usize)
        ensures
            r == self@.len(),
    {
        self.table.len()
    }

    /// Hands the inner association back.
    pub fn into_inner(self) -> (r: IndexMap)
        ensures
            r == self.table,
    {
        self.table
    }
}

impl PartialEq for OwnedTable {
    /// Tables are equal when they hold equal entries in the same order.
    fn eq(&self, other: &OwnedTable) -> (r: bool) {
        if self.table.entries.len() != other.table.entries.len() {
            return false;
        }
        let n = self.table.entries.len();
        let mut i: usize = 0;
        while i < n
            invariant
                n == self.table.entries@.len(),
                self@.len() == other@.len(),
                i <= n,
                forall|j: int| 0 <= j < i ==> self@[j] == other@[j],
            decreases n - i,
        {
            let a = &self.table.entries[i];
            let b = &other.table.entries[i];
            proof {
                assert(self@[i as int] == (a.0@, a.1@));
                assert(other@[i as int] == (b.0@, b.1@));
            }
            if !(a.0 == b.0) {
                proof {
                    assert(self@[i as int] != other@[i as int]);
                }
                return false;
            }
            if !(a.1 == b.1) {
                proof {
                    assert(self@[i as int] != other@[i as int]);
                }
                return false;
            }
            i += 1;
        }
        proof {
            assert(self@ =~= other@);
        }
        true
    }
}

impl vstd::std_specs::cmp::PartialEqSpecImpl for OwnedTable {
    open spec fn obeys_eq_spec() -> bool {
        true
    }

    open spec fn eq_spec(&self, other: &OwnedTable) -> bool {
        self@ == other@
    }
}

/// Builds a table from entries whose columns hold equally many rows.
pub fn owned_table(columns: Vec<(Ident, OwnedColumn)>) -> (r: OwnedTable)
    requires
        column_lengths_equal(spec_collect(entries_view(columns@))),
    ensures
        r@ == spec_collect(entries_view(columns@)),
{
    match OwnedTable::try_from_iter(columns) {
        Ok(t) => t,
        Err(_) => vstd::pervasive::unreached(),
    }
}

/// A named column of 64-bit integers.
pub fn bigint(name: &str, data: Vec<i64>) -> (r: (Ident, OwnedColumn))
    ensures
        r.0@ == name@,
        r.1@ == ColumnData::BigInt(data@),
{
    (Ident::new(name), OwnedColumn::BigInt(data))
}

/// A named column of 128-bit integers.
pub fn int128(name: &str, data: Vec<i128>) -> (r: (Ident, OwnedColumn))
    ensures
        r.0@ == name@,
        r.1@ == ColumnData::Int128(data@),
{
    (Ident::new(name), OwnedColumn::Int128(data))
}

/// A named column of strings.
pub fn varchar(name: &str, data: Vec<String>) -> (r: (Ident, OwnedColumn))
    ensures
        r.0@ == name@,
        r.1@ == ColumnData::VarChar(data.deep_view()),
{
    (Ident::new(name), OwnedColumn::VarChar(data))
}

/// A named column of booleans.
pub fn boolean(name: &str, data: Vec<bool>) -> (r: (Ident, OwnedColumn))
    ensures
        r.0@ == name@,
        r.1@ == ColumnData::Boolean(data@),
{
    (Ident::new(name), OwnedColumn::Boolean(data))
}

/// A named column of scalars, each read from a 64-bit integer.
pub fn scalar(name: &str, data: Vec<i64>) -> (r: (Ident, OwnedColumn))
    ensures
        r.0@ == name@,
        r.1@ matches ColumnData::Scalar(s) && s.len() == data@.len() && (forall|i: int|
            0 <= i < data@.len() ==> (#[trigger] s[i]).wf() && s[i].signed_value() == data@[i]),
{
    let mut values: Vec<Scalar> = Vec::new();
    let n = data.len();
    let mut i: usize = 0;
    while i < n
        invariant
            n == data@.len(),
            i <= n,
            values@.len() == i,
            forall|j: int|
                0 <= j < i ==> (#[trigger] values@[j]).wf() && values@[j].signed_value()
                    == data@[j],
        decreases n - i,
    {
        values.push(Scalar::from_i64(data[i]));
        i += 1;
    }
    (Ident::new(name), OwnedColumn::Scalar(values))
}

/// A named column of timestamps with a unit and a time zone.
pub fn timestamptz(
    name: &str,
    time_unit: PoSQLTimeUnit,
    timezone: PoSQLTimeZone,
    data: Vec<i64>,
) -> (r: (Ident, OwnedColumn))
    ensures
        r.0@ == name@,
        r.1@ == ColumnData::TimestampTZ(time_unit, timezone, data@),
{
    (Ident::new(name), OwnedColumn::TimestampTZ(time_unit, timezone, data))
}

} // verus!
