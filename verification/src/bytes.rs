use vstd::prelude::*;

verus! {

/// Compares two byte strings for equality.
pub fn bytes_eq(a: &[u8], b: &[u8]) -> (r: bool)
    ensures
        r == (a@ == b@),
{
    if a.len() != b.len() {
        return false;
    }
    let mut i: usize = 0;
    while i < a.len()
        invariant
            a@.len() == b@.len(),
            i <= a@.len(),
            forall|j: int| 0 <= j < i ==> a@[j] == b@[j],
        decreases a@.len() - i,
    {
        if a[i] != b[i] {
            return false;
        }
        i = i + 1;
    }
    assert(a@ =~= b@);
    true
}

/// Copies `len` bytes of `data` starting at `start` into a new vector.
pub fn copy_range(data: &[u8], start: usize, len: usize) -> (r: Vec<u8>)
    requires
        start + len <= data@.len(),
    ensures
        r@ == data@.subrange(start as int, start + len),
{
    let mut out: Vec<u8> = Vec::new();
    let n = data.len();
    let mut i: usize = 0;
    while i < len
        invariant
            n == data@.len(),
            start + len <= data@.len(),
            i <= len,
            out@ == data@.subrange(start as int, start + i),
        decreases len - i,
    {
        out.push(data[start + i]);
        i = i + 1;
        assert(out@ =~= data@.subrange(start as int, start + i));
    }
    out
}

/// The number that the eight bytes `s[0..8]` encode, read little-endian.
pub open spec fn le_u64(s: Seq<u8>) -> int
    recommends
        s.len() >= 8,
{
    s[0] + 256 * (s[1] + 256 * (s[2] + 256 * (s[3] + 256 * (s[4] + 256 * (s[5] + 256 * (s[6] + 256
        * s[7]))))))
}

/// Reads the first eight bytes of `s` as a little-endian `u64`.
pub fn read_u64_le(s: &[u8]) -> (r: u64)
    requires
        s@.len() >= 8,
    ensures
        r == le_u64(s@),
{
    let mut acc: u64 = s[7] as u64;
    acc = acc * 256 + s[6] as u64;
    acc = acc * 256 + s[5] as u64;
    acc = acc * 256 + s[4] as u64;
    acc = acc * 256 + s[3] as u64;
    acc = acc * 256 + s[2] as u64;
    acc = acc * 256 + s[1] as u64;
    acc = acc * 256 + s[0] as u64;
    acc
}

/// Whether byte string `a` comes before or equals `b` in lexicographic order.
pub open spec fn lex_le(a: Seq<u8>, b: Seq<u8>) -> bool
    decreases a.len(),
{
    if a.len() == 0 {
        true
    } else if b.len() == 0 {
        false
    } else if a[0] < b[0] {
        true
    } else if a[0] > b[0] {
        false
    } else {
        lex_le(a.drop_first(), b.drop_first())
    }
}

/// Any two byte strings are ordered one way or the other.
pub proof fn lemma_lex_total(a: Seq<u8>, b: Seq<u8>)
    ensures
        lex_le(a, b) || lex_le(b, a),
    decreases a.len(),
{
    if a.len() > 0 && b.len() > 0 && a[0] == b[0] {
        lemma_lex_total(a.drop_first(), b.drop_first());
    }
}

/// Byte strings ordered both ways are equal.
pub proof fn lemma_lex_antisymmetric(a: Seq<u8>, b: Seq<u8>)
    requires
        lex_le(a, b),
        lex_le(b, a),
    ensures
        a == b,
    decreases a.len(),
{
    if a.len() > 0 && b.len() > 0 {
        lemma_lex_antisymmetric(a.drop_first(), b.drop_first());
        assert(a =~= seq![a[0]] + a.drop_first());
        assert(b =~= seq![b[0]] + b.drop_first());
    } else {
        assert(a =~= b);
    }
}

/// The lexicographic order is transitive.
pub proof fn lemma_lex_transitive(a: Seq<u8>, b: Seq<u8>, c: Seq<u8>)
    requires
        lex_le(a, b),
        lex_le(b, c),
    ensures
        lex_le(a, c),
    decreases a.len(),
{
    if a.len() > 0 && b.len() > 0 && c.len() > 0 && a[0] == b[0] && b[0] == c[0] {
        lemma_lex_transitive(a.drop_first(), b.drop_first(), c.drop_first());
    }
}

/// Whether byte string `a` comes before or equals `b` in lexicographic order.
pub fn bytes_le(a: &[u8], b: &[u8]) -> (r: bool)
    ensures
        r == lex_le(a@, b@),
{
    let mut i: usize = 0;
    let na = a.len();
    let nb = b.len();
    assert(a@.skip(0) =~= a@);
    assert(b@.skip(0) =~= b@);
    while i < na
        invariant
            na == a@.len(),
            nb == b@.len(),
            i <= na,
            i <= nb,
            lex_le(a@, b@) == lex_le(a@.skip(i as int), b@.skip(i as int)),
        decreases na - i,
    {
        if i == nb {
            assert(b@.skip(i as int).len() == 0);
            return false;
        }
        assert(a@.skip(i as int)[0] == a@[i as int]);
        assert(b@.skip(i as int)[0] == b@[i as int]);
        if a[i] < b[i] {
            return true;
        }
        if a[i] > b[i] {
            return false;
        }
        assert(a@.skip(i as int).drop_first() =~= a@.skip(i + 1));
        assert(b@.skip(i as int).drop_first() =~= b@.skip(i + 1));
        i = i + 1;
    }
    assert(a@.skip(i as int).len() == 0);
    true
}

/// Whether some element of `list` equals `x`.
pub fn contains_bytes(list: &Vec<Vec<u8>>, x: &[u8]) -> (r: bool)
    ensures
        r == exists|i: int| 0 <= i < list@.len() && #[trigger] list@[i]@ == x@,
{
    let mut i: usize = 0;
    while i < list.len()
        invariant
            i <= list@.len(),
            forall|j: int| 0 <= j < i ==> #[trigger] list@[j]@ != x@,
        decreases list@.len() - i,
    {
        if bytes_eq(list[i].as_slice(), x) {
            return true;
        }
        i = i + 1;
    }
    false
}

/// The byte strings that `list` holds.
pub open spec fn bytes_list_view(list: Seq<Vec<u8>>) -> Seq<Seq<u8>> {
    list.map_values(|v: Vec<u8>| v@)
}

/// A copy of a byte vector.
pub fn clone_bytes(v: &Vec<u8>) -> (r: Vec<u8>)
    ensures
        r@ == v@,
{
    let r = v.clone();
    assert(r@ =~= v@);
    r
}

} // verus!
