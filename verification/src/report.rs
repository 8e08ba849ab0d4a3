//! Rendering the final report.
//!
//! Three sections — key-tag counts, value-tag counts, and per-pair length
//! statistics — each with a header row, then a trailing summary line with
//! the deletion count.  A section lists only categories with at least one
//! visit; a pair with no recorded lengths is omitted entirely.  Rows are
//! ordered by tag value (and pairs lexicographically by tag pair): a
//! deliberate deviation from first-seen insertion order, so that the same
//! snapshot always renders the same text.

use vstd::prelude::*;
use crate::digest::{Digest, spec_hex};
use crate::stats::{
    Stats, key_tag_count, value_tag_count, seq_sum, seq_max,
};
use crate::tags::{
    spec_key_tag_at, spec_value_tag_at, spec_key_tag_name, spec_value_tag_name, key_tag_at,
    value_tag_at, key_tag_name, value_tag_name,
};

verus! {

/// The character of one decimal digit value.
pub open spec fn spec_digit(d: int) -> char {
    if d == 0 { '0' } else if d == 1 { '1' } else if d == 2 { '2' } else if d == 3 { '3' }
    else if d == 4 { '4' } else if d == 5 { '5' } else if d == 6 { '6' } else if d == 7 { '7' }
    else if d == 8 { '8' } else { '9' }
}

/// The decimal digits of a non-negative value; empty for zero.
pub open spec fn spec_dec_digits(n: int) -> Seq<char>
    decreases n,
{
    if n <= 0 {
        Seq::empty()
    } else {
        spec_dec_digits(n / 10).push(spec_digit(n % 10))
    }
}

/// Decimal rendering of a non-negative value.
pub open spec fn spec_dec(n: int) -> Seq<char> {
    if n == 0 {
        seq!['0']
    } else {
        spec_dec_digits(n)
    }
}

/// The characters of a digit-value list, highest-order (last) digit first.
pub open spec fn rev_chars(ds: Seq<u8>) -> Seq<char>
    decreases ds.len(),
{
    if ds.len() == 0 {
        Seq::empty()
    } else {
        seq![spec_digit(ds.last() as int)] + rev_chars(ds.drop_last())
    }
}

/// Peeling the first (lowest-order) digit off appends its character.
proof fn lemma_rev_chars_first(u: Seq<u8>)
    requires
        u.len() > 0,
    ensures
        rev_chars(u) == rev_chars(u.drop_first()).push(spec_digit(u.first() as int)),
    decreases u.len(),
{
    if u.len() == 1 {
        assert(u.drop_last() =~= Seq::<u8>::empty());
        assert(u.drop_first() =~= Seq::<u8>::empty());
        assert(rev_chars(u) =~= rev_chars(u.drop_first()).push(spec_digit(u.first() as int)));
    } else {
        lemma_rev_chars_first(u.drop_last());
        assert(u.drop_last().drop_first() =~= u.drop_first().drop_last());
        assert(u.drop_last().first() == u.first());
        assert(u.drop_first().last() == u.last());
        assert(rev_chars(u) =~= rev_chars(u.drop_first()).push(spec_digit(u.first() as int)));
    }
}

/// Appends the character of one decimal digit value.
fn push_dec_char(s: &mut String, d: u128)
    requires
        d < 10,
    ensures
        final(s)@ == old(s)@.push(spec_digit(d as int)),
{
    let c: &str = if d == 0 { "0" } else if d == 1 { "1" } else if d == 2 { "2" }
        else if d == 3 { "3" } else if d == 4 { "4" } else if d == 5 { "5" }
        else if d == 6 { "6" } else if d == 7 { "7" } else if d == 8 { "8" } else { "9" };
    proof {
        reveal_strlit("0");
        reveal_strlit("1");
        reveal_strlit("2");
        reveal_strlit("3");
        reveal_strlit("4");
        reveal_strlit("5");
        reveal_strlit("6");
        reveal_strlit("7");
        reveal_strlit("8");
        reveal_strlit("9");
    }
    s.append(c);
    assert(final(s)@ =~= old(s)@.push(spec_digit(d as int)));
}

/// Appends the decimal rendering of a value.
pub fn append_dec(s: &mut String, n: u128)
    ensures
        final(s)@ == old(s)@ + spec_dec(n as int),
{
    if n == 0 {
        push_dec_char(s, 0);
        assert(final(s)@ =~= old(s)@ + spec_dec(0));
        return;
    }
    let mut digits: Vec<u8> = Vec::new();
    let mut m: u128 = n;
    while m > 0
        invariant
            spec_dec_digits(n as int) == spec_dec_digits(m as int) + rev_chars(digits@),
            forall|j: int| 0 <= j < digits@.len() ==> digits@[j] < 10,
            m == 0 ==> digits@.len() > 0,
            n > 0,
            m == n ==> digits@.len() == 0,
        decreases m,
    {
        let ghost dpre = digits@;
        digits.push((m % 10) as u8);
        proof {
            assert(digits@.drop_last() =~= dpre);
            assert(digits@.last() as int == m as int % 10);
            assert(rev_chars(digits@) =~= seq![spec_digit(m as int % 10)] + rev_chars(dpre));
            assert(spec_dec_digits(m as int) == spec_dec_digits(m as int / 10).push(
                spec_digit(m as int % 10),
            ));
            assert(spec_dec_digits(m as int / 10) + rev_chars(digits@) =~= spec_dec_digits(
                m as int,
            ) + rev_chars(dpre));
        }
        m = m / 10;
    }
    assert(spec_dec_digits(n as int) == rev_chars(digits@));
    let mut i: usize = digits.len();
    assert(digits@.skip(i as int) =~= Seq::<u8>::empty());
    while i > 0
        invariant
            0 <= i <= digits@.len(),
            forall|j: int| 0 <= j < digits@.len() ==> digits@[j] < 10,
            s@ == old(s)@ + rev_chars(digits@.skip(i as int)),
            spec_dec_digits(n as int) == rev_chars(digits@),
        decreases i,
    {
        i = i - 1;
        push_dec_char(s, digits[i] as u128);
        proof {
            lemma_rev_chars_first(digits@.skip(i as int));
            assert(digits@.skip(i as int).drop_first() =~= digits@.skip(i + 1));
            assert(digits@.skip(i as int).first() == digits@[i as int]);
            assert(s@ =~= old(s)@ + rev_chars(digits@.skip(i as int)));
        }
    }
    assert(digits@.skip(0) =~= digits@);
}

/// One key-count row.
pub open spec fn key_row(k: int, count: int) -> Seq<char> {
    "\""@ + spec_key_tag_name(spec_key_tag_at(k)) + "\", "@ + spec_dec(count) + "\n"@
}

/// One value-count row.
pub open spec fn value_row(v: int, count: int) -> Seq<char> {
    "\""@ + spec_value_tag_name(spec_value_tag_at(v)) + "\", "@ + spec_dec(count) + "\n"@
}

/// One pair row: average (truncating), maximum and total recorded length.
pub open spec fn pair_row(i: int, lens: Seq<u64>) -> Seq<char> {
    let total = seq_sum(lens);
    let count = lens.len() as int;
    "\""@ + spec_key_tag_name(spec_key_tag_at(i / 11)) + "\", \""@ + spec_value_tag_name(
        spec_value_tag_at(i % 11),
    ) + "\", "@ + spec_dec(total / count) + ", "@ + spec_dec(seq_max(lens)) + ", "@ + spec_dec(
        total,
    ) + "\n"@
}

/// The key-count rows for categories `[a, b)`, visited ones only.
pub open spec fn key_rows(stats: Seq<Seq<u64>>, a: int, b: int) -> Seq<char>
    decreases b - a,
{
    if a >= b {
        Seq::empty()
    } else {
        (if key_tag_count(stats, a) > 0 {
            key_row(a, key_tag_count(stats, a))
        } else {
            Seq::empty()
        }) + key_rows(stats, a + 1, b)
    }
}

/// The value-count rows for categories `[a, b)`, visited ones only.
pub open spec fn value_rows(stats: Seq<Seq<u64>>, a: int, b: int) -> Seq<char>
    decreases b - a,
{
    if a >= b {
        Seq::empty()
    } else {
        (if value_tag_count(stats, a) > 0 {
            value_row(a, value_tag_count(stats, a))
        } else {
            Seq::empty()
        }) + value_rows(stats, a + 1, b)
    }
}

/// The pair rows for cells `[a, b)`, populated ones only.
pub open spec fn pair_rows(stats: Seq<Seq<u64>>, a: int, b: int) -> Seq<char>
    decreases b - a,
{
    if a >= b {
        Seq::empty()
    } else {
        (if stats[a].len() > 0 {
            pair_row(a, stats[a])
        } else {
            Seq::empty()
        }) + pair_rows(stats, a + 1, b)
    }
}

/// Extending a key section by one category appends its row (or nothing).
proof fn lemma_key_rows_snoc(stats: Seq<Seq<u64>>, a: int, b: int)
    requires
        a <= b,
    ensures
        key_rows(stats, a, b + 1) == key_rows(stats, a, b) + (if key_tag_count(stats, b) > 0 {
            key_row(b, key_tag_count(stats, b))
        } else {
            Seq::<char>::empty()
        }),
    decreases b - a,
{
    if a < b {
        lemma_key_rows_snoc(stats, a + 1, b);
        assert(key_rows(stats, a, b + 1) =~= key_rows(stats, a, b) + (if key_tag_count(
            stats,
            b,
        ) > 0 {
            key_row(b, key_tag_count(stats, b))
        } else {
            Seq::<char>::empty()
        }));
    } else {
        assert(key_rows(stats, b + 1, b + 1) == Seq::<char>::empty());
        assert(key_rows(stats, a, b) == Seq::<char>::empty());
        assert(key_rows(stats, a, b + 1) =~= key_rows(stats, a, b) + (if key_tag_count(
            stats,
            b,
        ) > 0 {
            key_row(b, key_tag_count(stats, b))
        } else {
            Seq::<char>::empty()
        }));
    }
}

/// Extending a value section by one category appends its row (or nothing).
proof fn lemma_value_rows_snoc(stats: Seq<Seq<u64>>, a: int, b: int)
    requires
        a <= b,
    ensures
        value_rows(stats, a, b + 1) == value_rows(stats, a, b) + (if value_tag_count(stats, b)
            > 0 {
            value_row(b, value_tag_count(stats, b))
        } else {
            Seq::<char>::empty()
        }),
    decreases b - a,
{
    if a < b {
        lemma_value_rows_snoc(stats, a + 1, b);
        assert(value_rows(stats, a, b + 1) =~= value_rows(stats, a, b) + (if value_tag_count(
            stats,
            b,
        ) > 0 {
            value_row(b, value_tag_count(stats, b))
        } else {
            Seq::<char>::empty()
        }));
    } else {
        assert(value_rows(stats, b + 1, b + 1) == Seq::<char>::empty());
        assert(value_rows(stats, a, b) == Seq::<char>::empty());
        assert(value_rows(stats, a, b + 1) =~= value_rows(stats, a, b) + (if value_tag_count(
            stats,
            b,
        ) > 0 {
            value_row(b, value_tag_count(stats, b))
        } else {
            Seq::<char>::empty()
        }));
    }
}

/// Extending a pair section by one cell appends its row (or nothing).
proof fn lemma_pair_rows_snoc(stats: Seq<Seq<u64>>, a: int, b: int)
    requires
        a <= b,
    ensures
        pair_rows(stats, a, b + 1) == pair_rows(stats, a, b) + (if stats[b].len() > 0 {
            pair_row(b, stats[b])
        } else {
            Seq::<char>::empty()
        }),
    decreases b - a,
{
    if a < b {
        lemma_pair_rows_snoc(stats, a + 1, b);
        assert(pair_rows(stats, a, b + 1) =~= pair_rows(stats, a, b) + (if stats[b].len()
            > 0 {
            pair_row(b, stats[b])
        } else {
            Seq::<char>::empty()
        }));
    } else {
        assert(pair_rows(stats, b + 1, b + 1) == Seq::<char>::empty());
        assert(pair_rows(stats, a, b) == Seq::<char>::empty());
        assert(pair_rows(stats, a, b + 1) =~= pair_rows(stats, a, b) + (if stats[b].len()
            > 0 {
            pair_row(b, stats[b])
        } else {
            Seq::<char>::empty()
        }));
    }
}

/// The whole report's text.
pub open spec fn report_chars(stats: Seq<Seq<u64>>, deleted: u64) -> Seq<char> {
    "key_tag, count\n"@ + key_rows(stats, 0, 15) + "stored_value_tag, count\n"@ + value_rows(
        stats,
        0,
        11,
    ) + "key_tag, stored_value_tag, average_len, max_len, total_len\n"@ + pair_rows(
        stats,
        0,
        165,
    ) + "deleted "@ + spec_dec(deleted as int) + " entries.\n"@
}

/// Appends the key-count section's rows.
fn append_key_rows(s: &mut String, stats: &Stats)
    requires
        stats.wf(),
    ensures
        final(s)@ == old(s)@ + key_rows(stats@, 0, 15),
{
    let mut k: usize = 0;
    assert(key_rows(stats@, 0, 0) == Seq::<char>::empty());
    assert(s@ =~= old(s)@ + key_rows(stats@, 0, 0));
    while k < 15
        invariant
            0 <= k <= 15,
            stats.wf(),
            s@ == old(s)@ + key_rows(stats@, 0, k as int),
        decreases 15 - k,
    {
        let ghost pre = s@;
        let count = stats.key_count(key_tag_at(k));
        if count > 0 {
            let name = key_tag_name(key_tag_at(k));
            s.append("\"");
            s.append(name.as_str());
            s.append("\", ");
            append_dec(s, count);
            s.append("\n");
            assert(s@ =~= pre + key_row(k as int, key_tag_count(stats@, k as int)));
        }
        proof {
            lemma_key_rows_snoc(stats@, 0, k as int);
            assert(s@ =~= old(s)@ + key_rows(stats@, 0, k + 1));
        }
        k = k + 1;
    }
}

/// Appends the value-count section's rows.
fn append_value_rows(s: &mut String, stats: &Stats)
    requires
        stats.wf(),
    ensures
        final(s)@ == old(s)@ + value_rows(stats@, 0, 11),
{
    let mut v: usize = 0;
    assert(value_rows(stats@, 0, 0) == Seq::<char>::empty());
    assert(s@ =~= old(s)@ + value_rows(stats@, 0, 0));
    while v < 11
        invariant
            0 <= v <= 11,
            stats.wf(),
            s@ == old(s)@ + value_rows(stats@, 0, v as int),
        decreases 11 - v,
    {
        let ghost pre = s@;
        let count = stats.value_count(value_tag_at(v));
        if count > 0 {
            let name = value_tag_name(value_tag_at(v));
            s.append("\"");
            s.append(name.as_str());
            s.append("\", ");
            append_dec(s, count);
            s.append("\n");
            assert(s@ =~= pre + value_row(v as int, value_tag_count(stats@, v as int)));
        }
        proof {
            lemma_value_rows_snoc(stats@, 0, v as int);
            assert(s@ =~= old(s)@ + value_rows(stats@, 0, v + 1));
        }
        v = v + 1;
    }
}

/// Appends the pair section's rows.
#[verifier::rlimit(80)]
fn append_pair_rows(s: &mut String, stats: &Stats)
    requires
        stats.wf(),
    ensures
        final(s)@ == old(s)@ + pair_rows(stats@, 0, 165),
{
    let mut i: usize = 0;
    assert(pair_rows(stats@, 0, 0) == Seq::<char>::empty());
    assert(s@ =~= old(s)@ + pair_rows(stats@, 0, 0));
    while i < 165
        invariant
            0 <= i <= 165,
            stats.wf(),
            s@ == old(s)@ + pair_rows(stats@, 0, i as int),
        decreases 165 - i,
    {
        let ghost pre = s@;
        let kt = key_tag_at(i / 11);
        let vt = value_tag_at(i % 11);
        assert(crate::stats::cell_of(kt, vt) == i);
        let lens = stats.cell_lengths(kt, vt);
        let count = lens.len();
        if count > 0 {
            let total = crate::stats::cell_total(lens);
            let largest = crate::stats::cell_max(lens);
            let average = total / (count as u128);
            let kname = key_tag_name(kt);
            let vname = value_tag_name(vt);
            s.append("\"");
            s.append(kname.as_str());
            s.append("\", \"");
            s.append(vname.as_str());
            s.append("\", ");
            append_dec(s, average);
            s.append(", ");
            append_dec(s, largest as u128);
            s.append(", ");
            append_dec(s, total);
            s.append("\n");
            assert(s@ =~= pre + pair_row(i as int, stats@[i as int]));
        }
        proof {
            lemma_pair_rows_snoc(stats@, 0, i as int);
            assert(s@ =~= old(s)@ + pair_rows(stats@, 0, i + 1));
        }
        i = i + 1;
    }
}

/// Renders the whole report: three header-and-body sections, then the
/// summary line with the deletion count.
pub fn render_report(stats: &Stats, deleted: u64) -> (s: String)
    requires
        stats.wf(),
    ensures
        s@ == report_chars(stats@, deleted),
{
    let mut s = String::new();
    s.append("key_tag, count\n");
    append_key_rows(&mut s, stats);
    s.append("stored_value_tag, count\n");
    append_value_rows(&mut s, stats);
    s.append("key_tag, stored_value_tag, average_len, max_len, total_len\n");
    append_pair_rows(&mut s, stats);
    s.append("deleted ");
    append_dec(&mut s, deleted as u128);
    s.append(" entries.\n");
    assert(s@ =~= report_chars(stats@, deleted));
    s
}

/// The report file's name: the starting root's hexadecimal form.
pub fn report_filename(root: &Digest) -> (s: String)
    ensures
        s@ == "trie_report-"@ + spec_hex(root@) + ".csv"@,
{
    let mut s = String::new();
    s.append("trie_report-");
    let hex = root.to_hex();
    s.append(hex.as_str());
    s.append(".csv");
    assert(s@ =~= "trie_report-"@ + spec_hex(root@) + ".csv"@);
    s
}

} // verus!
