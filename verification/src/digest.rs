//! Content digests: the fixed-length hashes that name stored trie nodes.
//!
//! A digest is both a node reference inside Extension and Branch nodes and
//! the record key under which the store holds the node's bytes.

use vstd::prelude::*;

verus! {

/// Length in bytes of a content digest.
pub const DIGEST_LEN: usize = 32;

/// A fixed-length content hash naming one stored trie node.
pub struct Digest {
    bytes: Vec<u8>,
}

impl View for Digest {
    type V = Seq<u8>;

    closed spec fn view(&self) -> Seq<u8> {
        self.bytes@
    }
}

impl Digest {
    /// A digest is exactly `DIGEST_LEN` bytes.
    pub open spec fn is_valid(&self) -> bool {
        self@.len() == DIGEST_LEN
    }

    /// Wraps raw bytes as a digest; refuses any other length.
    pub fn new(bytes: Vec<u8>) -> (r: Option<Digest>)
        ensures
            match r {
                Some(d) => d@ == bytes@ && d.is_valid(),
                None => bytes@.len() != DIGEST_LEN,
            },
    {
        if bytes.len() == DIGEST_LEN {
            Some(Digest { bytes })
        } else {
            None
        }
    }

    /// Wraps exactly `DIGEST_LEN` raw bytes as a digest.
    pub fn from_exact(bytes: Vec<u8>) -> (d: Digest)
        requires
            bytes@.len() == DIGEST_LEN,
        ensures
            d@ == bytes@,
            d.is_valid(),
    {
        Digest { bytes }
    }

    /// The digest's raw bytes.
    pub fn as_bytes(&self) -> (r: &Vec<u8>)
        ensures
            r@ == self@,
    {
        &self.bytes
    }

    /// An owned copy of this digest.
    pub fn dup(&self) -> (r: Digest)
        ensures
            r@ == self@,
            self.is_valid() ==> r.is_valid(),
    {
        Digest { bytes: copy_bytes(&self.bytes) }
    }

    /// Renders the digest as lowercase hexadecimal text.
    pub fn to_hex(&self) -> (s: String)
        ensures
            s@ == spec_hex(self@),
    {
        bytes_to_hex(&self.bytes)
    }

    /// Parses hexadecimal text (as bytes) into a digest: exactly
    /// `2 * DIGEST_LEN` hex digits, upper or lower case.
    pub fn from_hex(h: &Vec<u8>) -> (r: Option<Digest>)
        ensures
            match r {
                Some(d) => {
                    &&& h@.len() == 2 * DIGEST_LEN
                    &&& forall|i: int| 0 <= i < h@.len() ==> spec_hex_val(h@[i]) is Some
                    &&& d.is_valid()
                    &&& forall|i: int|
                        0 <= i < DIGEST_LEN ==> d@[i] == 16 * spec_hex_val(h@[2 * i]).unwrap()
                            + spec_hex_val(h@[2 * i + 1]).unwrap()
                },
                None => h@.len() != 2 * DIGEST_LEN || exists|i: int|
                    0 <= i < h@.len() && spec_hex_val(h@[i]) is None,
            },
    {
        if h.len() != 2 * DIGEST_LEN {
            return None;
        }
        let mut out: Vec<u8> = Vec::new();
        let mut i: usize = 0;
        while i < DIGEST_LEN
            invariant
                0 <= i <= DIGEST_LEN,
                h@.len() == 2 * DIGEST_LEN,
                out@.len() == i,
                forall|j: int| 0 <= j < 2 * i ==> spec_hex_val(h@[j]) is Some,
                forall|j: int|
                    0 <= j < i ==> out@[j] == 16 * spec_hex_val(h@[2 * j]).unwrap()
                        + spec_hex_val(h@[2 * j + 1]).unwrap(),
            decreases DIGEST_LEN - i,
        {
            let hi = match hex_val(h[2 * i]) {
                Some(v) => v,
                None => {
                    return None;
                },
            };
            let lo = match hex_val(h[2 * i + 1]) {
                Some(v) => v,
                None => {
                    return None;
                },
            };
            out.push(16 * hi + lo);
            i = i + 1;
        }
        Some(Digest { bytes: out })
    }
}

/// An owned copy of a byte vector.
pub fn copy_bytes(v: &Vec<u8>) -> (r: Vec<u8>)
    ensures
        r@ == v@,
{
    let mut r: Vec<u8> = Vec::new();
    let mut i: usize = 0;
    while i < v.len()
        invariant
            0 <= i <= v@.len(),
            r@ == v@.subrange(0, i as int),
        decreases v@.len() - i,
    {
        r.push(v[i]);
        i = i + 1;
    }
    assert(r@ =~= v@);
    r
}

/// An owned copy of the byte range `[start, end)` of a vector.
pub fn copy_range(v: &Vec<u8>, start: usize, end: usize) -> (r: Vec<u8>)
    requires
        start <= end <= v@.len(),
    ensures
        r@ == v@.subrange(start as int, end as int),
{
    let mut r: Vec<u8> = Vec::new();
    let mut i: usize = start;
    while i < end
        invariant
            start <= i <= end <= v@.len(),
            r@ == v@.subrange(start as int, i as int),
        decreases end - i,
    {
        r.push(v[i]);
        assert(r@ =~= v@.subrange(start as int, i + 1));
        i = i + 1;
    }
    r
}

/// Whether two byte vectors hold the same bytes.
pub fn bytes_eq(a: &Vec<u8>, b: &Vec<u8>) -> (r: bool)
    ensures
        r == (a@ == b@),
{
    if a.len() != b.len() {
        assert(a@ != b@);
        return false;
    }
    let mut i: usize = 0;
    while i < a.len()
        invariant
            0 <= i <= a@.len(),
            a@.len() == b@.len(),
            forall|j: int| 0 <= j < i ==> a@[j] == b@[j],
        decreases a@.len() - i,
    {
        if a[i] != b[i] {
            return false;
        }
        i = i + 1;
    }
    assert(a@ =~= b@);
    true
}

/// The numeric value of one hexadecimal digit byte, if it is one.
pub open spec fn spec_hex_val(b: u8) -> Option<u8> {
    if 48 <= b <= 57 {
        Some((b - 48) as u8)
    } else if 97 <= b <= 102 {
        Some((b - 87) as u8)
    } else if 65 <= b <= 70 {
        Some((b - 55) as u8)
    } else {
        None
    }
}

/// The numeric value of one hexadecimal digit byte, if it is one.
pub fn hex_val(b: u8) -> (r: Option<u8>)
    ensures
        r == spec_hex_val(b),
        r is Some ==> r.unwrap() < 16,
{
    if 48 <= b && b <= 57 {
        Some(b - 48)
    } else if 97 <= b && b <= 102 {
        Some(b - 87)
    } else if 65 <= b && b <= 70 {
        Some(b - 55)
    } else {
        None
    }
}

/// The lowercase hexadecimal character for a value below sixteen.
pub open spec fn spec_hex_char(v: int) -> char {
    if v == 0 { '0' } else if v == 1 { '1' } else if v == 2 { '2' } else if v == 3 { '3' }
    else if v == 4 { '4' } else if v == 5 { '5' } else if v == 6 { '6' } else if v == 7 { '7' }
    else if v == 8 { '8' } else if v == 9 { '9' } else if v == 10 { 'a' } else if v == 11 { 'b' }
    else if v == 12 { 'c' } else if v == 13 { 'd' } else if v == 14 { 'e' } else { 'f' }
}

/// Lowercase hexadecimal rendering of a byte sequence, two characters a byte.
pub open spec fn spec_hex(bs: Seq<u8>) -> Seq<char>
    decreases bs.len(),
{
    if bs.len() == 0 {
        Seq::empty()
    } else {
        seq![
            spec_hex_char(bs.first() as int / 16),
            spec_hex_char(bs.first() as int % 16),
        ] + spec_hex(bs.drop_first())
    }
}

/// Appends the single lowercase hex character for a value below sixteen.
fn push_hex_char(s: &mut String, v: u8)
    requires
        v < 16,
    ensures
        final(s)@ == old(s)@.push(spec_hex_char(v as int)),
{
    let d: &str = if v == 0 { "0" } else if v == 1 { "1" } else if v == 2 { "2" }
        else if v == 3 { "3" } else if v == 4 { "4" } else if v == 5 { "5" }
        else if v == 6 { "6" } else if v == 7 { "7" } else if v == 8 { "8" }
        else if v == 9 { "9" } else if v == 10 { "a" } else if v == 11 { "b" }
        else if v == 12 { "c" } else if v == 13 { "d" } else if v == 14 { "e" } else { "f" };
    proof {
        reveal_strlit("0");
        reveal_strlit("1");
        reveal_strlit("2");
        reveal_strlit("3");
        reveal_strlit("4");
        reveal_strlit("5");
        reveal_strlit("6");
        reveal_strlit("7");
        reveal_strlit("8");
        reveal_strlit("9");
        reveal_strlit("a");
        reveal_strlit("b");
        reveal_strlit("c");
        reveal_strlit("d");
        reveal_strlit("e");
        reveal_strlit("f");
    }
    s.append(d);
    assert(final(s)@ =~= old(s)@.push(spec_hex_char(v as int)));
}

/// Lowercase hexadecimal rendering of a byte vector.
pub fn bytes_to_hex(bs: &Vec<u8>) -> (s: String)
    ensures
        s@ == spec_hex(bs@),
{
    let mut s = String::new();
    let mut i: usize = 0;
    while i < bs.len()
        invariant
            0 <= i <= bs@.len(),
            s@ == spec_hex(bs@.subrange(0, i as int)),
        decreases bs@.len() - i,
    {
        let b = bs[i];
        push_hex_char(&mut s, b / 16);
        push_hex_char(&mut s, b % 16);
        proof {
            lemma_spec_hex_snoc(bs@, i as int);
        }
        i = i + 1;
    }
    assert(bs@.subrange(0, bs@.len() as int) =~= bs@);
    s
}

/// Extending the rendered prefix by one byte appends that byte's two digits.
proof fn lemma_spec_hex_snoc(bs: Seq<u8>, i: int)
    requires
        0 <= i < bs.len(),
    ensures
        spec_hex(bs.subrange(0, i + 1)) == spec_hex(bs.subrange(0, i)).push(
            spec_hex_char(bs[i] as int / 16),
        ).push(spec_hex_char(bs[i] as int % 16)),
    decreases i,
{
    if i == 0 {
        assert(bs.subrange(0, 1).drop_first() =~= Seq::<u8>::empty());
        assert(bs.subrange(0, 0) =~= Seq::<u8>::empty());
        assert(spec_hex(Seq::<u8>::empty()) =~= Seq::<char>::empty());
        assert(bs.subrange(0, 1).first() == bs[0]);
        assert(spec_hex(bs.subrange(0, 1)) =~= spec_hex(bs.subrange(0, 0)).push(
            spec_hex_char(bs[0] as int / 16),
        ).push(spec_hex_char(bs[0] as int % 16)));
    } else {
        lemma_spec_hex_snoc(bs.drop_first(), i - 1);
        assert(bs.subrange(0, i + 1).drop_first() =~= bs.drop_first().subrange(0, i));
        assert(bs.subrange(0, i).drop_first() =~= bs.drop_first().subrange(0, i - 1));
        assert(bs.drop_first()[i - 1] == bs[i]);
        assert(spec_hex(bs.subrange(0, i + 1)) =~= spec_hex(bs.subrange(0, i)).push(
            spec_hex_char(bs[i] as int / 16),
        ).push(spec_hex_char(bs[i] as int % 16)));
    }
}

} // verus!
