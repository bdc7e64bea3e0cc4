//! Byte-level helpers shared by the account model: 32-byte addresses,
//! lexicographic comparison of fixed-size keys and little-endian fields.
use vstd::prelude::*;

verus! {

/// A Solana address, held as its 32 raw bytes.
pub type Pubkey = [u8; 32];

/// The all-zero address (`Pubkey::default()`).
pub open spec fn zero_bytes(n: nat) -> Seq<u8> {
    Seq::new(n, |i: int| 0u8)
}

/// Byte-wise equality of two byte strings.
pub fn bytes_eq(a: &[u8], b: &[u8]) -> (r: bool)
    ensures
        r == (a@ == b@),
{
    if a.len() != b.len() {
        return false;
    }
    let mut i: usize = 0;
    while i < a.len()
        invariant
            a@.len() == b@.len(),
            i <= a@.len(),
            forall|j: int| 0 <= j < i ==> a@[j] == b@[j],
        decreases a@.len() - i,
    {
        if a[i] != b[i] {
            return false;
        }
        i = i + 1;
    }
    assert(a@ =~= b@);
    true
}

/// Equality of two addresses.
pub fn pubkey_eq(a: &Pubkey, b: &Pubkey) -> (r: bool)
    ensures
        r == (a@ == b@),
{
    bytes_eq(a.as_slice(), b.as_slice())
}

/// Whether every byte is zero.
pub fn is_all_zero(a: &[u8]) -> (r: bool)
    ensures
        r == (a@ == zero_bytes(a@.len())),
{
    let mut i: usize = 0;
    while i < a.len()
        invariant
            i <= a@.len(),
            forall|j: int| 0 <= j < i ==> a@[j] == 0u8,
        decreases a@.len() - i,
    {
        if a[i] != 0 {
            assert(a@[i as int] != zero_bytes(a@.len())[i as int]);
            return false;
        }
        i = i + 1;
    }
    assert(a@ =~= zero_bytes(a@.len()));
    true
}

/// `a` and `b` agree on their first `n` bytes.
pub open spec fn agree_upto(a: Seq<u8>, b: Seq<u8>, n: int) -> bool {
    forall|j: int| 0 <= j < n ==> a[j] == b[j]
}

/// Strict lexicographic order on byte strings of equal length: at the first
/// position where they differ, `a` holds the smaller byte.
pub open spec fn lex_lt(a: Seq<u8>, b: Seq<u8>) -> bool {
    exists|i: int| 0 <= i < a.len() && i < b.len() && agree_upto(a, b, i) && #[trigger] a[i] < b[i]
}

/// Lexicographic `a <= b` on byte strings of equal length.
pub open spec fn lex_le(a: Seq<u8>, b: Seq<u8>) -> bool {
    a == b || lex_lt(a, b)
}

/// Lexicographic `a <= b` on two byte strings of equal length, as Rust's
/// `Ord` for arrays compares them.
pub fn bytes_lex_le(a: &[u8], b: &[u8]) -> (r: bool)
    requires
        a@.len() == b@.len(),
    ensures
        r == lex_le(a@, b@),
{
    let mut i: usize = 0;
    while i < a.len()
        invariant
            a@.len() == b@.len(),
            i <= a@.len(),
            agree_upto(a@, b@, i as int),
        decreases a@.len() - i,
    {
        if a[i] != b[i] {
            if a[i] < b[i] {
                assert(lex_lt(a@, b@));
                return true;
            } else {
                assert(a@ != b@);
                assert(!lex_lt(a@, b@)) by {
                    if lex_lt(a@, b@) {
                        let k = choose|k: int|
                            0 <= k < a@.len() && k < b@.len() && agree_upto(a@, b@, k) && #[trigger] a@[k]
                                < b@[k];
                        if k < i {
                        } else if k > i {
                            assert(a@[i as int] == b@[i as int]);
                        }
                    }
                }
                return false;
            }
        }
        i = i + 1;
    }
    assert(a@ =~= b@);
    true
}

/// Where two byte strings first differ within their first `n` bytes.
pub proof fn lemma_first_difference(a: Seq<u8>, b: Seq<u8>, n: int)
    requires
        0 <= n <= a.len(),
        n <= b.len(),
        !agree_upto(a, b, n),
    ensures
        exists|i: int| 0 <= i < n && agree_upto(a, b, i) && #[trigger] a[i] != b[i],
    decreases n,
{
    if agree_upto(a, b, n - 1) {
        assert(a[n - 1] != b[n - 1]);
    } else {
        lemma_first_difference(a, b, n - 1);
        let i = choose|i: int| 0 <= i < n - 1 && agree_upto(a, b, i) && #[trigger] a[i] != b[i];
        assert(a[i] != b[i]);
    }
}

/// Lexicographic order is total on byte strings of equal length.
pub proof fn lemma_lex_total(a: Seq<u8>, b: Seq<u8>)
    requires
        a.len() == b.len(),
    ensures
        lex_le(a, b) || lex_le(b, a),
{
    if a != b {
        if agree_upto(a, b, a.len() as int) {
            assert(a =~= b);
        }
        lemma_first_difference(a, b, a.len() as int);
        let i = choose|i: int| 0 <= i < a.len() && agree_upto(a, b, i) && #[trigger] a[i] != b[i];
        if a[i] < b[i] {
            assert(lex_lt(a, b));
        } else {
            assert(agree_upto(b, a, i));
            assert(lex_lt(b, a));
        }
    }
}

/// Lexicographic order is transitive.
pub proof fn lemma_lex_trans(a: Seq<u8>, b: Seq<u8>, c: Seq<u8>)
    requires
        a.len() == b.len(),
        b.len() == c.len(),
        lex_le(a, b),
        lex_le(b, c),
    ensures
        lex_le(a, c),
{
    if a != b && b != c {
        let i = choose|i: int| 0 <= i < a.len() && i < b.len() && agree_upto(a, b, i) && #[trigger] a[i] < b[i];
        let j = choose|j: int| 0 <= j < b.len() && j < c.len() && agree_upto(b, c, j) && #[trigger] b[j] < c[j];
        let k = if i < j { i } else { j };
        assert(agree_upto(a, c, k));
        assert(a[k] < c[k]);
        assert(lex_lt(a, c));
    }
}

/// Whether every element is lexicographically at most every later one.
pub open spec fn sorted_by_bytes(s: Seq<[u8; 32]>) -> bool {
    forall|i: int, j: int| 0 <= i < j < s.len() ==> lex_le(s[i]@, s[j]@)
}

/// Sorts addresses by their bytes (the order of `Pubkey::to_bytes`).
pub fn sort_by_bytes(items: Vec<Pubkey>) -> (sorted: Vec<Pubkey>)
    ensures
        sorted_by_bytes(sorted@),
        sorted@.to_multiset() == items@.to_multiset(),
        sorted@.len() == items@.len(),
{
    let mut sorted: Vec<Pubkey> = Vec::new();
    assert(items@.subrange(0, 0) =~= sorted@);
    let mut i: usize = 0;
    while i < items.len()
        invariant
            i <= items@.len(),
            sorted_by_bytes(sorted@),
            sorted@.to_multiset() == items@.subrange(0, i as int).to_multiset(),
            sorted@.len() == i,
        decreases items@.len() - i,
    {
        let item = items[i];
        let mut pos: usize = 0;
        while pos < sorted.len() && bytes_lex_le(sorted[pos].as_slice(), item.as_slice())
            invariant
                pos <= sorted@.len(),
                forall|k: int| 0 <= k < pos ==> lex_le(#[trigger] sorted@[k]@, item@),
            decreases sorted@.len() - pos,
        {
            pos = pos + 1;
        }
        let ghost before = sorted@;
        proof {
            if pos < before.len() {
                lemma_lex_total(before[pos as int]@, item@);
            }
        }
        sorted.insert(pos, item);
        proof {
            let after = sorted@;
            assert forall|a: int, b: int| 0 <= a < b < after.len() implies lex_le(
                after[a]@,
                after[b]@,
            ) by {
                if b < pos {
                    assert(after[a] == before[a] && after[b] == before[b]);
                } else if b == pos {
                    assert(after[a] == before[a]);
                } else if a < pos {
                    assert(after[a] == before[a] && after[b] == before[b - 1]);
                    lemma_lex_trans(before[a]@, item@, before[pos as int]@);
                    if b - 1 > pos {
                        lemma_lex_trans(before[a]@, before[pos as int]@, before[b - 1]@);
                    }
                } else if a == pos {
                    assert(after[b] == before[b - 1]);
                    if b - 1 > pos {
                        lemma_lex_trans(item@, before[pos as int]@, before[b - 1]@);
                    }
                } else {
                    assert(after[a] == before[a - 1] && after[b] == before[b - 1]);
                }
            }
            vstd::seq_lib::to_multiset_insert(before, pos as int, item);
            assert(items@.subrange(0, i + 1) =~= items@.subrange(0, i as int).push(item));
            vstd::seq_lib::to_multiset_build(items@.subrange(0, i as int), item);
        }
        i = i + 1;
    }
    assert(items@.subrange(0, items@.len() as int) =~= items@);
    sorted
}

/// Copies a byte string into a new vector.
pub fn slice_to_vec_bytes(src: &[u8]) -> (out: Vec<u8>)
    ensures
        out@ == src@,
{
    let mut out: Vec<u8> = Vec::new();
    append_bytes(&mut out, src);
    out
}

/// Appends `tail` to `buf`.
pub fn append_bytes(buf: &mut Vec<u8>, tail: &[u8])
    ensures
        final(buf)@ == old(buf)@ + tail@,
{
    let ghost start = buf@;
    let mut i: usize = 0;
    while i < tail.len()
        invariant
            i <= tail@.len(),
            buf@ == start + tail@.subrange(0, i as int),
        decreases tail@.len() - i,
    {
        buf.push(tail[i]);
        assert(tail@.subrange(0, i + 1) =~= tail@.subrange(0, i as int).push(tail@[i as int]));
        i = i + 1;
    }
    assert(tail@.subrange(0, tail@.len() as int) =~= tail@);
}

/// Copies a 32-byte array out of a byte string of exactly that length.
pub fn to_array32(src: &[u8]) -> (out: [u8; 32])
    requires
        src@.len() == 32,
    ensures
        out@ == src@,
{
    let mut out = [0u8; 32];
    let mut i: usize = 0;
    while i < 32
        invariant
            src@.len() == 32,
            i <= 32,
            out@.len() == 32,
            forall|j: int| 0 <= j < i ==> out@[j] == src@[j],
        decreases 32 - i,
    {
        out[i] = src[i];
        i = i + 1;
    }
    assert(out@ =~= src@);
    out
}

/// Little-endian value of a 2-byte string.
pub open spec fn le16(s: Seq<u8>) -> int {
    s[0] as int + 256 * (s[1] as int)
}

/// Little-endian value of a 4-byte string.
pub open spec fn le32(s: Seq<u8>) -> int {
    le16(s) + 65536 * le16(s.subrange(2, 4))
}

/// Little-endian value of an 8-byte string.
pub open spec fn le64(s: Seq<u8>) -> int {
    le32(s) + 4294967296 * le32(s.subrange(4, 8))
}

/// Reads a little-endian `u16` from 2 bytes.
pub fn read_le_u16(s: &[u8]) -> (v: u16)
    requires
        s@.len() == 2,
    ensures
        v == le16(s@),
{
    (s[0] as u16) + (s[1] as u16) * 256
}

/// Reads a little-endian `u32` from 4 bytes.
pub fn read_le_u32(s: &[u8]) -> (v: u32)
    requires
        s@.len() == 4,
    ensures
        v == le32(s@),
{
    let low = read_le_u16(vstd::slice::slice_subrange(s, 0, 2));
    let high = read_le_u16(vstd::slice::slice_subrange(s, 2, 4));
    assert(s@.subrange(0, 2)[0] == s@[0] && s@.subrange(0, 2)[1] == s@[1]);
    (low as u32) + (high as u32) * 65536
}

/// Reads a little-endian `u64` from 8 bytes.
pub fn read_le_u64(s: &[u8]) -> (v: u64)
    requires
        s@.len() == 8,
    ensures
        v == le64(s@),
{
    let low = read_le_u32(vstd::slice::slice_subrange(s, 0, 4));
    let high = read_le_u32(vstd::slice::slice_subrange(s, 4, 8));
    assert(s@.subrange(0, 4).subrange(2, 4) =~= s@.subrange(2, 4));
    assert(s@.subrange(0, 4)[0] == s@[0] && s@.subrange(0, 4)[1] == s@[1]);
    (low as u64) + (high as u64) * 4294967296
}

/// The 2 little-endian bytes of `v`.
pub fn write_le_u16(v: u16) -> (s: Vec<u8>)
    ensures
        s@.len() == 2,
        le16(s@) == v,
{
    let lo = (v % 256) as u8;
    let hi = (v / 256) as u8;
    vec![lo, hi]
}

/// The 4 little-endian bytes of `v`.
pub fn write_le_u32(v: u32) -> (s: Vec<u8>)
    ensures
        s@.len() == 4,
        le32(s@) == v,
{
    let mut s = write_le_u16((v % 65536) as u16);
    let high = write_le_u16((v / 65536) as u16);
    let ghost low_view = s@;
    append_bytes(&mut s, high.as_slice());
    assert(s@.subrange(2, 4) =~= high@);
    assert(s@[0] == low_view[0] && s@[1] == low_view[1]);
    s
}

/// The 8 little-endian bytes of `v`.
pub fn write_le_u64(v: u64) -> (s: Vec<u8>)
    ensures
        s@.len() == 8,
        le64(s@) == v,
{
    let mut s = write_le_u32((v % 4294967296) as u32);
    let high = write_le_u32((v / 4294967296) as u32);
    let ghost low_view = s@;
    append_bytes(&mut s, high.as_slice());
    assert(s@.subrange(4, 8) =~= high@);
    assert(s@.subrange(0, 4) =~= low_view);
    assert(s@.subrange(2, 4) =~= low_view.subrange(2, 4));
    assert(s@[0] == low_view[0] && s@[1] == low_view[1]);
    s
}

} // verus!
