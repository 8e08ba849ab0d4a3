//! Per-type leaf statistics for one audit run.
//!
//! Each visited leaf contributes its record's byte length to the cell of its
//! `(key category, value category)` pair.  Counts are not stored separately:
//! a category's count is the summed cell population of its row or column, so
//! every leaf visit raises exactly one key-tag count, one value-tag count
//! and the total by one.  The accumulator is append-only for the run.

use vstd::prelude::*;
use crate::tags::{KeyTag, ValueTag, key_tag_index, value_tag_index};

verus! {

/// Number of `(key category, value category)` cells.
pub const NUM_CELLS: usize = 165;

/// Cells per row: one row per key category, one column per value category.
pub const ROW_WIDTH: usize = 11;

/// Number of rows.
pub const NUM_ROWS: usize = 15;

/// The cell holding the recorded lengths of one `(key, value)` pair.
pub open spec fn cell_of(k: KeyTag, v: ValueTag) -> int {
    key_tag_index(k) * 11 + value_tag_index(v)
}

/// Statistics accumulator: one list of recorded byte lengths per cell, in
/// the order the leaves were visited.
pub struct Stats {
    cells: Vec<Vec<u64>>,
}

impl View for Stats {
    type V = Seq<Seq<u64>>;

    closed spec fn view(&self) -> Seq<Seq<u64>> {
        self.cells@.map_values(|c: Vec<u64>| c@)
    }
}

/// The statistics of a run that has visited no leaf yet.
pub open spec fn empty_stats() -> Seq<Seq<u64>> {
    Seq::new(165, |i: int| Seq::<u64>::empty())
}

/// The statistics after recording one leaf of pair `(k, v)` and record
/// length `len`.
pub open spec fn stats_record(s: Seq<Seq<u64>>, k: KeyTag, v: ValueTag, len: u64) -> Seq<
    Seq<u64>,
> {
    s.update(cell_of(k, v), s[cell_of(k, v)].push(len))
}

impl Stats {
    /// The accumulator has exactly one cell per pair.
    pub open spec fn wf(&self) -> bool {
        self@.len() == 165
    }

    /// A fresh accumulator with every cell empty.
    pub fn new() -> (s: Stats)
        ensures
            s.wf(),
            s@ == empty_stats(),
    {
        let mut cells: Vec<Vec<u64>> = Vec::new();
        let mut i: usize = 0;
        while i < NUM_CELLS
            invariant
                0 <= i <= 165,
                cells@.len() == i,
                forall|j: int| 0 <= j < i ==> (#[trigger] cells@[j])@ == Seq::<u64>::empty(),
            decreases NUM_CELLS - i,
        {
            cells.push(Vec::new());
            i = i + 1;
        }
        let s = Stats { cells };
        assert(s@ =~= empty_stats());
        s
    }

    /// Records one visited leaf: appends the record's byte length to the
    /// cell of its `(key category, value category)` pair.
    pub fn record_leaf(&mut self, k: KeyTag, v: ValueTag, byte_len: u64)
        requires
            old(self).wf(),
        ensures
            final(self).wf(),
            final(self)@ == stats_record(old(self)@, k, v, byte_len),
    {
        let idx: usize = key_tag_pos(k) * ROW_WIDTH + value_tag_pos(v);
        assert(idx == cell_of(k, v));
        let mut cell = self.cells.remove(idx);
        cell.push(byte_len);
        self.cells.insert(idx, cell);
        assert(self@ =~= stats_record(old(self)@, k, v, byte_len));
    }

    /// The recorded byte lengths of one pair's cell, in visit order.
    pub fn cell_lengths(&self, k: KeyTag, v: ValueTag) -> (r: &Vec<u64>)
        requires
            self.wf(),
        ensures
            r@ == self@[cell_of(k, v)],
    {
        let idx: usize = key_tag_pos(k) * ROW_WIDTH + value_tag_pos(v);
        assert(idx == cell_of(k, v));
        &self.cells[idx]
    }

    /// How many leaves of one key category were visited.
    pub fn key_count(&self, k: KeyTag) -> (r: u128)
        requires
            self.wf(),
        ensures
            r == key_tag_count(self@, key_tag_index(k)),
    {
        let row = key_tag_pos(k);
        let mut acc: u128 = 0;
        let mut v: usize = 0;
        while v < ROW_WIDTH
            invariant
                0 <= v <= 11,
                self.wf(),
                row == key_tag_index(k),
                acc == sum_range(self@, 11 * row, 11 * row + v),
                acc <= v * (u64::MAX as int + 1),
            decreases ROW_WIDTH - v,
        {
            proof {
                lemma_sum_range_snoc(self@, 11 * row as int, 11 * row + v);
            }
            acc = acc + (self.cells[11 * row + v].len() as u128);
            v = v + 1;
        }
        acc
    }

    /// How many leaves of one value category were visited.
    pub fn value_count(&self, v: ValueTag) -> (r: u128)
        requires
            self.wf(),
        ensures
            r == value_tag_count(self@, value_tag_index(v)),
    {
        let col = value_tag_pos(v);
        let mut acc: u128 = 0;
        let mut k: usize = 0;
        while k < NUM_ROWS
            invariant
                0 <= k <= 15,
                self.wf(),
                col == value_tag_index(v),
                acc == col_sum_below(self@, col as int, k as int),
                acc <= k * (u64::MAX as int + 1),
            decreases NUM_ROWS - k,
        {
            proof {
                lemma_col_sum_snoc(self@, col as int, k as int);
            }
            acc = acc + (self.cells[11 * k + col].len() as u128);
            k = k + 1;
        }
        proof {
            lemma_col_sum_full(self@, col as int);
        }
        acc
    }

    /// Total number of leaf visits recorded.
    pub fn total_count(&self) -> (r: u128)
        requires
            self.wf(),
        ensures
            r == total_visits(self@),
    {
        let mut acc: u128 = 0;
        let mut i: usize = 0;
        while i < NUM_CELLS
            invariant
                0 <= i <= 165,
                self.wf(),
                acc == sum_range(self@, 0, i as int),
                acc <= i * (u64::MAX as int + 1),
            decreases NUM_CELLS - i,
        {
            proof {
                lemma_sum_range_snoc(self@, 0, i as int);
            }
            acc = acc + (self.cells[i].len() as u128);
            i = i + 1;
        }
        acc
    }
}

/// Position of a key category's row.
pub fn key_tag_pos(t: KeyTag) -> (r: usize)
    ensures
        r == key_tag_index(t),
{
    match t {
        KeyTag::Account => 0,
        KeyTag::Hash => 1,
        KeyTag::URef => 2,
        KeyTag::Transfer => 3,
        KeyTag::DeployInfo => 4,
        KeyTag::EraInfo => 5,
        KeyTag::Balance => 6,
        KeyTag::Bid => 7,
        KeyTag::Withdraw => 8,
        KeyTag::Dictionary => 9,
        KeyTag::SystemContractRegistry => 10,
        KeyTag::EraSummary => 11,
        KeyTag::Unbond => 12,
        KeyTag::ChainspecRegistry => 13,
        KeyTag::ChecksumRegistry => 14,
    }
}

/// Position of a value category's column.
pub fn value_tag_pos(t: ValueTag) -> (r: usize)
    ensures
        r == value_tag_index(t),
{
    match t {
        ValueTag::CLValue => 0,
        ValueTag::Account => 1,
        ValueTag::ContractWasm => 2,
        ValueTag::Contract => 3,
        ValueTag::ContractPackage => 4,
        ValueTag::Transfer => 5,
        ValueTag::DeployInfo => 6,
        ValueTag::EraInfo => 7,
        ValueTag::Bid => 8,
        ValueTag::Withdraw => 9,
        ValueTag::Unbonding => 10,
    }
}

/// Summed population of the cells in `[a, b)`.
pub open spec fn sum_range(cells: Seq<Seq<u64>>, a: int, b: int) -> int
    decreases b - a,
{
    if a >= b {
        0
    } else {
        cells[a].len() + sum_range(cells, a + 1, b)
    }
}

/// Total number of recorded leaf visits.
pub open spec fn total_visits(cells: Seq<Seq<u64>>) -> int {
    sum_range(cells, 0, 165)
}

/// Count of one key category: the population of its row.
pub open spec fn key_tag_count(cells: Seq<Seq<u64>>, k: int) -> int {
    sum_range(cells, 11 * k, 11 * k + 11)
}

/// Population of column `v` over the rows `[k, 15)`.
pub open spec fn col_sum(cells: Seq<Seq<u64>>, v: int, k: int) -> int
    decreases 15 - k,
{
    if k >= 15 {
        0
    } else {
        cells[11 * k + v].len() + col_sum(cells, v, k + 1)
    }
}

/// Count of one value category: the population of its column.
pub open spec fn value_tag_count(cells: Seq<Seq<u64>>, v: int) -> int {
    col_sum(cells, v, 0)
}

/// Population of column `v` over the rows `[0, k)`.
pub open spec fn col_sum_below(cells: Seq<Seq<u64>>, v: int, k: int) -> int
    decreases k,
{
    if k <= 0 {
        0
    } else {
        col_sum_below(cells, v, k - 1) + cells[11 * (k - 1) + v].len()
    }
}

/// Sum of all key-category counts.
pub open spec fn sum_key_counts(cells: Seq<Seq<u64>>, k: int) -> int
    decreases 15 - k,
{
    if k >= 15 {
        0
    } else {
        key_tag_count(cells, k) + sum_key_counts(cells, k + 1)
    }
}

/// Sum of the value-category counts from column `v` on, rows `[k, 15)`.
pub open spec fn sum_value_counts_from(cells: Seq<Seq<u64>>, v: int, k: int) -> int
    decreases 11 - v,
{
    if v >= 11 {
        0
    } else {
        col_sum(cells, v, k) + sum_value_counts_from(cells, v + 1, k)
    }
}

/// Sum of all value-category counts.
pub open spec fn sum_value_counts(cells: Seq<Seq<u64>>) -> int {
    sum_value_counts_from(cells, 0, 0)
}

/// A sum over `[a, b)` splits at any midpoint.
pub proof fn lemma_sum_split(cells: Seq<Seq<u64>>, a: int, b: int, c: int)
    requires
        a <= b <= c,
    ensures
        sum_range(cells, a, c) == sum_range(cells, a, b) + sum_range(cells, b, c),
    decreases b - a,
{
    if a < b {
        lemma_sum_split(cells, a + 1, b, c);
    }
}

/// Extending a sum by one cell on the right adds that cell's population.
pub proof fn lemma_sum_range_snoc(cells: Seq<Seq<u64>>, a: int, b: int)
    requires
        a <= b,
    ensures
        sum_range(cells, a, b + 1) == sum_range(cells, a, b) + cells[b].len(),
    decreases b - a,
{
    if a < b {
        lemma_sum_range_snoc(cells, a + 1, b);
    } else {
        assert(sum_range(cells, b + 1, b + 1) == 0);
        assert(sum_range(cells, a, b) == 0);
    }
}

/// A partial column sum from the top meets the tail sum from the bottom.
proof fn lemma_col_sum_snoc(cells: Seq<Seq<u64>>, v: int, k: int)
    requires
        0 <= k < 15,
    ensures
        col_sum_below(cells, v, k + 1) == col_sum_below(cells, v, k) + cells[11 * k + v].len(),
{
}

/// The two directions of summing a column agree.
proof fn lemma_col_sum_full(cells: Seq<Seq<u64>>, v: int)
    ensures
        col_sum_below(cells, v, 15) == col_sum(cells, v, 0),
{
    lemma_col_sum_meet(cells, v, 0);
}

/// Splitting a full column at row `k`: prefix plus suffix is the whole.
proof fn lemma_col_sum_meet(cells: Seq<Seq<u64>>, v: int, k: int)
    requires
        0 <= k <= 15,
    ensures
        col_sum_below(cells, v, 15) == col_sum_below(cells, v, k) + col_sum(cells, v, k),
    decreases 15 - k,
{
    if k < 15 {
        lemma_col_sum_meet(cells, v, k + 1);
    }
}

/// The key-count section sums to the whole grid from row `k` on.
proof fn lemma_rows_cover(cells: Seq<Seq<u64>>, k: int)
    requires
        0 <= k <= 15,
    ensures
        sum_key_counts(cells, k) == sum_range(cells, 11 * k, 165),
    decreases 15 - k,
{
    if k < 15 {
        lemma_rows_cover(cells, k + 1);
        lemma_sum_split(cells, 11 * k, 11 * k + 11, 165);
    }
}

/// Peeling row `k` off every column from `v` on.
proof fn lemma_cols_peel_row(cells: Seq<Seq<u64>>, v: int, k: int)
    requires
        0 <= v <= 11,
        0 <= k < 15,
    ensures
        sum_value_counts_from(cells, v, k) == sum_range(cells, 11 * k + v, 11 * k + 11)
            + sum_value_counts_from(cells, v, k + 1),
    decreases 11 - v,
{
    if v < 11 {
        lemma_cols_peel_row(cells, v + 1, k);
        lemma_sum_range_snoc(cells, 11 * k + v, 11 * k + v);
        assert(sum_range(cells, 11 * k + v, 11 * k + 11) == cells[11 * k + v].len() + sum_range(
            cells,
            11 * k + v + 1,
            11 * k + 11,
        ));
    }
}

/// The value-count section sums to the whole grid from row `k` on.
proof fn lemma_cols_cover(cells: Seq<Seq<u64>>, k: int)
    requires
        0 <= k <= 15,
    ensures
        sum_value_counts_from(cells, 0, k) == sum_range(cells, 11 * k, 165),
    decreases 15 - k,
{
    if k >= 15 {
        lemma_cols_zero(cells, 0);
    } else {
        lemma_cols_peel_row(cells, 0, k);
        lemma_cols_cover(cells, k + 1);
        lemma_sum_split(cells, 11 * k, 11 * k + 11, 165);
    }
}

/// Every column's tail below the last row is empty.
proof fn lemma_cols_zero(cells: Seq<Seq<u64>>, v: int)
    requires
        0 <= v <= 11,
    ensures
        sum_value_counts_from(cells, v, 15) == 0,
    decreases 11 - v,
{
    if v < 11 {
        lemma_cols_zero(cells, v + 1);
    }
}

/// Appending to the cell at `i` raises a sum over `[a, b)` by one exactly
/// when the cell lies in the range.
pub proof fn lemma_sum_range_update(s: Seq<Seq<u64>>, a: int, b: int, i: int, x: u64)
    requires
        0 <= a <= b <= s.len(),
        0 <= i < s.len(),
    ensures
        sum_range(s.update(i, s[i].push(x)), a, b) == sum_range(s, a, b) + if a <= i < b {
            1int
        } else {
            0int
        },
    decreases b - a,
{
    if a < b {
        lemma_sum_range_update(s, a + 1, b, i, x);
        assert(sum_range(s.update(i, s[i].push(x)), a, b) == s.update(i, s[i].push(x))[a].len()
            + sum_range(s.update(i, s[i].push(x)), a + 1, b));
    } else {
        assert(sum_range(s.update(i, s[i].push(x)), a, b) == 0);
        assert(sum_range(s, a, b) == 0);
    }
}

/// Recording one leaf raises the total visit count by one.
pub proof fn lemma_total_visits_record(s: Seq<Seq<u64>>, k: KeyTag, v: ValueTag, len: u64)
    requires
        s.len() == 165,
    ensures
        total_visits(stats_record(s, k, v, len)) == total_visits(s) + 1,
{
    assert(0 <= cell_of(k, v) < 165);
    lemma_sum_range_update(s, 0, 165, cell_of(k, v), len);
}

/// A fresh accumulator has recorded nothing.
pub proof fn lemma_total_visits_empty(a: int, b: int)
    requires
        a <= b,
        0 <= a,
        b <= 165,
    ensures
        sum_range(empty_stats(), a, b) == 0,
    decreases b - a,
{
    if a < b {
        lemma_total_visits_empty(a + 1, b);
    }
}

/// Sum of the byte lengths recorded in one cell.
pub open spec fn seq_sum(s: Seq<u64>) -> int
    decreases s.len(),
{
    if s.len() == 0 {
        0
    } else {
        s[0] + seq_sum(s.drop_first())
    }
}

/// Largest byte length recorded in one cell (zero for an empty cell).
pub open spec fn seq_max(s: Seq<u64>) -> int
    decreases s.len(),
{
    if s.len() == 0 {
        0
    } else {
        let m = seq_max(s.drop_first());
        if s[0] >= m {
            s[0] as int
        } else {
            m
        }
    }
}

/// Extending a cell's prefix by one entry adds it to the sum.
pub proof fn lemma_seq_sum_snoc(s: Seq<u64>, i: int)
    requires
        0 <= i < s.len(),
    ensures
        seq_sum(s.take(i + 1)) == seq_sum(s.take(i)) + s[i],
    decreases i,
{
    if i == 0 {
        assert(s.take(1).drop_first() =~= Seq::<u64>::empty());
        assert(s.take(0) =~= Seq::<u64>::empty());
    } else {
        lemma_seq_sum_snoc(s.drop_first(), i - 1);
        assert(s.take(i + 1).drop_first() =~= s.drop_first().take(i));
        assert(s.take(i).drop_first() =~= s.drop_first().take(i - 1));
        assert(s.take(i + 1)[0] == s[0]);
        assert(s.take(i)[0] == s[0]);
        assert(s.drop_first()[i - 1] == s[i]);
    }
}

/// Extending a cell's prefix by one entry takes the larger maximum.
pub proof fn lemma_seq_max_snoc(s: Seq<u64>, i: int)
    requires
        0 <= i < s.len(),
    ensures
        seq_max(s.take(i + 1)) == if s[i] >= seq_max(s.take(i)) {
            s[i] as int
        } else {
            seq_max(s.take(i))
        },
    decreases i,
{
    if i == 0 {
        assert(s.take(1).drop_first() =~= Seq::<u64>::empty());
        assert(s.take(0) =~= Seq::<u64>::empty());
    } else {
        lemma_seq_max_snoc(s.drop_first(), i - 1);
        assert(s.take(i + 1).drop_first() =~= s.drop_first().take(i));
        assert(s.take(i).drop_first() =~= s.drop_first().take(i - 1));
        assert(s.take(i + 1)[0] == s[0]);
        assert(s.take(i)[0] == s[0]);
        assert(s.drop_first()[i - 1] == s[i]);
    }
}

/// A cell's sum is at most its population times its maximum.
pub proof fn lemma_sum_le_count_max(s: Seq<u64>)
    ensures
        seq_sum(s) <= s.len() * seq_max(s),
        seq_sum(s) >= 0,
        seq_max(s) >= 0,
    decreases s.len(),
{
    if s.len() == 0 {
    } else {
        lemma_sum_le_count_max(s.drop_first());
        let rest = s.drop_first();
        assert(seq_max(s) >= seq_max(rest) && seq_max(s) >= s[0]);
        assert(rest.len() * seq_max(rest) <= rest.len() * seq_max(s)) by (nonlinear_arith)
            requires
                seq_max(rest) <= seq_max(s),
                rest.len() >= 0,
        ;
        assert(s.len() * seq_max(s) == rest.len() * seq_max(s) + seq_max(s)) by (nonlinear_arith)
            requires
                s.len() == rest.len() + 1,
        ;
    }
}

/// The sum of the byte lengths recorded in one cell.
pub fn cell_total(s: &Vec<u64>) -> (r: u128)
    ensures
        r == seq_sum(s@),
{
    let mut acc: u128 = 0;
    let mut i: usize = 0;
    while i < s.len()
        invariant
            0 <= i <= s@.len(),
            acc == seq_sum(s@.take(i as int)),
            acc <= i * (u64::MAX as int),
        decreases s@.len() - i,
    {
        proof {
            lemma_seq_sum_snoc(s@, i as int);
        }
        acc = acc + (s[i] as u128);
        i = i + 1;
    }
    assert(s@.take(s@.len() as int) =~= s@);
    acc
}

/// The largest byte length recorded in one cell.
pub fn cell_max(s: &Vec<u64>) -> (r: u64)
    requires
        s@.len() > 0,
    ensures
        r == seq_max(s@),
{
    let mut acc: u64 = 0;
    let mut i: usize = 0;
    assert(seq_max(s@.take(0)) == 0) by {
        assert(s@.take(0) =~= Seq::<u64>::empty());
    }
    while i < s.len()
        invariant
            0 <= i <= s@.len(),
            acc == seq_max(s@.take(i as int)),
        decreases s@.len() - i,
    {
        proof {
            lemma_seq_max_snoc(s@, i as int);
        }
        if s[i] >= acc {
            acc = s[i];
        }
        i = i + 1;
    }
    assert(s@.take(s@.len() as int) =~= s@);
    acc
}

/// Law: for every non-empty cell, the truncating average satisfies
/// `average * count <= total <= average * count + count`, and the maximum
/// recorded length is at least the average.
pub proof fn lemma_group_bounds(lengths: Seq<u64>)
    requires
        lengths.len() > 0,
    ensures
        ({
            let total = seq_sum(lengths);
            let count = lengths.len() as int;
            let average = total / count;
            &&& average * count <= total
            &&& total <= average * count + count
            &&& seq_max(lengths) >= average
        }),
{
    let total = seq_sum(lengths);
    let count = lengths.len() as int;
    let average = total / count;
    lemma_sum_le_count_max(lengths);
    vstd::arithmetic::div_mod::lemma_fundamental_div_mod(total, count);
    vstd::arithmetic::div_mod::lemma_mod_bound(total, count);
    assert(total == count * average + total % count && 0 <= total % count < count);
    assert(average * count <= total && total <= average * count + count) by (nonlinear_arith)
        requires
            total == count * average + total % count,
            0 <= total % count < count,
    ;
    assert(seq_max(lengths) >= average) by (nonlinear_arith)
        requires
            average * count <= total,
            total <= count * seq_max(lengths),
            count > 0,
            seq_max(lengths) >= 0,
            average >= 0,
    ;
}

/// Law: each leaf visit raises exactly one key-tag count and one value-tag
/// count, so the key-tag counts, the value-tag counts and the total leaf
/// visits all sum to the same number.
pub proof fn lemma_counts_balance(cells: Seq<Seq<u64>>)
    ensures
        sum_key_counts(cells, 0) == total_visits(cells),
        sum_value_counts(cells) == total_visits(cells),
{
    lemma_rows_cover(cells, 0);
    lemma_cols_cover(cells, 0);
}

} // verus!
