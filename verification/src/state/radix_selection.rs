//! What the radix passes of the finalization ledger compute: each pass keeps
//! the rank of the sought key among the candidates, and the resolved key is
//! the `target`-th smallest, so exactly `target` keys are at or below it.
use vstd::prelude::*;
use crate::bytes::{agree_upto, lex_le, lex_lt};
use crate::state::finalization_ledger::{
    empty_histogram, hist_sum, is_rank_bucket, radix_pass_step, spec_radix_histogram_after,
    FinalizationLedger,
};

verus! {

/// Number of keys satisfying `pred`.
pub open spec fn count_keys(keys: Seq<Seq<u8>>, pred: spec_fn(Seq<u8>) -> bool) -> nat
    decreases keys.len(),
{
    if keys.len() == 0 {
        0
    } else {
        count_keys(keys.drop_last(), pred) + if pred(keys.last()) {
            1nat
        } else {
            0nat
        }
    }
}

/// The key starts with the first `len` bytes of `prefix`.
pub open spec fn extends_pred(prefix: Seq<u8>, len: int) -> spec_fn(Seq<u8>) -> bool {
    |k: Seq<u8>| agree_upto(k, prefix, len)
}

/// The key's first `len` bytes are lexicographically below those of `prefix`.
pub open spec fn key_precedes(k: Seq<u8>, prefix: Seq<u8>, len: int) -> bool {
    exists|i: int| 0 <= i < len && agree_upto(k, prefix, i) && #[trigger] k[i] < prefix[i]
}

/// Predicate form of `key_precedes`.
pub open spec fn precedes_pred(prefix: Seq<u8>, len: int) -> spec_fn(Seq<u8>) -> bool {
    |k: Seq<u8>| key_precedes(k, prefix, len)
}

/// The key extends the prefix and has byte `b` right after it.
pub open spec fn bucket_pred(prefix: Seq<u8>, len: int, b: int) -> spec_fn(Seq<u8>) -> bool {
    |k: Seq<u8>| agree_upto(k, prefix, len) && k[len] == b
}

/// The key extends the prefix and its next byte is below `b`.
pub open spec fn below_bucket_pred(prefix: Seq<u8>, len: int, b: int) -> spec_fn(Seq<u8>) -> bool {
    |k: Seq<u8>| agree_upto(k, prefix, len) && k[len] < b
}

/// Every candidate key is 64 bytes long.
pub open spec fn keys_well_sized(keys: Seq<Seq<u8>>) -> bool {
    forall|i: int| 0 <= i < keys.len() ==> (#[trigger] keys[i]).len() == 64
}

/// The histogram counts, per next byte, the keys that extend the prefix.
pub open spec fn histogram_matches(
    h: Seq<u64>,
    keys: Seq<Seq<u8>>,
    prefix: Seq<u8>,
    len: int,
) -> bool {
    &&& h.len() == 256
    &&& forall|b: int| 0 <= b < 256 ==> #[trigger] h[b] == count_keys(keys, bucket_pred(prefix, len, b))
}

/// The sought key is the `remaining_rank`-th key extending the prefix, and
/// `target` keys precede or equal it.
pub open spec fn radix_rank_invariant(
    keys: Seq<Seq<u8>>,
    prefix: Seq<u8>,
    len: int,
    remaining_rank: int,
    target: int,
) -> bool {
    &&& count_keys(keys, precedes_pred(prefix, len)) + remaining_rank == target
    &&& 1 <= remaining_rank <= count_keys(keys, extends_pred(prefix, len))
}

/// The histogram after recording every key of `keys`, in order.
pub open spec fn spec_record_keys(h: Seq<u64>, prefix: Seq<u8>, len: u8, keys: Seq<Seq<u8>>) -> Seq<
    u64,
>
    decreases keys.len(),
{
    if keys.len() == 0 {
        h
    } else {
        spec_radix_histogram_after(spec_record_keys(h, prefix, len, keys.drop_last()), prefix, len, keys.last())
    }
}

proof fn lemma_count_bound(keys: Seq<Seq<u8>>, pred: spec_fn(Seq<u8>) -> bool)
    ensures
        count_keys(keys, pred) <= keys.len(),
    decreases keys.len(),
{
    if keys.len() > 0 {
        lemma_count_bound(keys.drop_last(), pred);
    }
}

proof fn lemma_count_ext(
    keys: Seq<Seq<u8>>,
    p1: spec_fn(Seq<u8>) -> bool,
    p2: spec_fn(Seq<u8>) -> bool,
)
    requires
        forall|i: int| 0 <= i < keys.len() ==> p1(#[trigger] keys[i]) == p2(keys[i]),
    ensures
        count_keys(keys, p1) == count_keys(keys, p2),
    decreases keys.len(),
{
    if keys.len() > 0 {
        let rest = keys.drop_last();
        assert forall|i: int| 0 <= i < rest.len() implies p1(#[trigger] rest[i]) == p2(rest[i]) by {
            assert(rest[i] == keys[i]);
        }
        lemma_count_ext(rest, p1, p2);
        assert(keys.last() == keys[keys.len() - 1]);
    }
}

proof fn lemma_count_disjoint_union(
    keys: Seq<Seq<u8>>,
    p1: spec_fn(Seq<u8>) -> bool,
    p2: spec_fn(Seq<u8>) -> bool,
    both: spec_fn(Seq<u8>) -> bool,
)
    requires
        forall|i: int| 0 <= i < keys.len() ==> !(p1(#[trigger] keys[i]) && p2(keys[i])),
        forall|i: int| 0 <= i < keys.len() ==> both(#[trigger] keys[i]) == (p1(keys[i]) || p2(keys[i])),
    ensures
        count_keys(keys, both) == count_keys(keys, p1) + count_keys(keys, p2),
    decreases keys.len(),
{
    if keys.len() > 0 {
        let rest = keys.drop_last();
        assert forall|i: int| 0 <= i < rest.len() implies !(p1(#[trigger] rest[i]) && p2(rest[i])) by {
            assert(rest[i] == keys[i]);
        }
        assert forall|i: int| 0 <= i < rest.len() implies both(#[trigger] rest[i]) == (p1(rest[i])
            || p2(rest[i])) by {
            assert(rest[i] == keys[i]);
        }
        lemma_count_disjoint_union(rest, p1, p2, both);
        assert(keys.last() == keys[keys.len() - 1]);
    }
}

proof fn lemma_count_none(keys: Seq<Seq<u8>>, pred: spec_fn(Seq<u8>) -> bool)
    requires
        forall|i: int| 0 <= i < keys.len() ==> !pred(#[trigger] keys[i]),
    ensures
        count_keys(keys, pred) == 0,
    decreases keys.len(),
{
    if keys.len() > 0 {
        let rest = keys.drop_last();
        assert forall|i: int| 0 <= i < rest.len() implies !pred(#[trigger] rest[i]) by {
            assert(rest[i] == keys[i]);
        }
        lemma_count_none(rest, pred);
        assert(keys.last() == keys[keys.len() - 1]);
    }
}

proof fn lemma_count_two(keys: Seq<Seq<u8>>, pred: spec_fn(Seq<u8>) -> bool, i: int, j: int)
    requires
        0 <= i < j < keys.len(),
        pred(keys[i]),
        pred(keys[j]),
    ensures
        count_keys(keys, pred) >= 2,
    decreases keys.len(),
{
    let rest = keys.drop_last();
    if j < keys.len() - 1 {
        assert(rest[i] == keys[i] && rest[j] == keys[j]);
        lemma_count_two(rest, pred, i, j);
    } else {
        assert(rest[i] == keys[i]);
        lemma_count_one_at(rest, pred, i);
        assert(keys.last() == keys[j]);
    }
}

proof fn lemma_count_one_at(keys: Seq<Seq<u8>>, pred: spec_fn(Seq<u8>) -> bool, i: int)
    requires
        0 <= i < keys.len(),
        pred(keys[i]),
    ensures
        count_keys(keys, pred) >= 1,
    decreases keys.len(),
{
    let rest = keys.drop_last();
    if i < keys.len() - 1 {
        assert(rest[i] == keys[i]);
        lemma_count_one_at(rest, pred, i);
    } else {
        assert(keys.last() == keys[i]);
    }
}

/// With distinct keys, exactly one key equals a member.
proof fn lemma_count_equal_member(keys: Seq<Seq<u8>>, t: Seq<u8>)
    requires
        keys.no_duplicates(),
        keys.contains(t),
    ensures
        count_keys(keys, |k: Seq<u8>| k == t) == 1,
    decreases keys.len(),
{
    let rest = keys.drop_last();
    let eq_t = |k: Seq<u8>| k == t;
    assert(rest.no_duplicates()) by {
        assert forall|a: int, b: int| 0 <= a < rest.len() && 0 <= b < rest.len() && a != b implies rest[a]
            != rest[b] by {
            assert(rest[a] == keys[a] && rest[b] == keys[b]);
        }
    }
    if keys.last() == t {
        assert forall|i: int| 0 <= i < rest.len() implies !eq_t(#[trigger] rest[i]) by {
            assert(rest[i] == keys[i]);
            assert(keys.last() == keys[keys.len() - 1]);
        }
        lemma_count_none(rest, eq_t);
    } else {
        let idx = choose|idx: int| 0 <= idx < keys.len() && keys[idx] == t;
        assert(idx != keys.len() - 1);
        assert(rest[idx] == t);
        lemma_count_equal_member(rest, t);
    }
}

/// Recording every key of a pass into an empty histogram counts, per next
/// byte, exactly the keys that extend the prefix.
pub proof fn lemma_radix_histogram_counts(prefix: Seq<u8>, len: u8, keys: Seq<Seq<u8>>)
    requires
        len < 64,
        keys_well_sized(keys),
        keys.len() < u64::MAX,
    ensures
        histogram_matches(spec_record_keys(empty_histogram(), prefix, len, keys), keys, prefix, len as int),
    decreases keys.len(),
{
    let h = spec_record_keys(empty_histogram(), prefix, len, keys);
    if keys.len() == 0 {
        assert forall|b: int| 0 <= b < 256 implies #[trigger] h[b] == count_keys(
            keys,
            bucket_pred(prefix, len as int, b),
        ) by {}
    } else {
        let rest = keys.drop_last();
        assert(keys_well_sized(rest)) by {
            assert forall|i: int| 0 <= i < rest.len() implies (#[trigger] rest[i]).len() == 64 by {
                assert(rest[i] == keys[i]);
            }
        }
        lemma_radix_histogram_counts(prefix, len, rest);
        let h0 = spec_record_keys(empty_histogram(), prefix, len, rest);
        let k = keys.last();
        assert(k == keys[keys.len() - 1]);
        assert forall|b: int| 0 <= b < 256 implies #[trigger] h[b] == count_keys(
            keys,
            bucket_pred(prefix, len as int, b),
        ) by {
            lemma_count_bound(rest, bucket_pred(prefix, len as int, b));
            if agree_upto(k, prefix, len as int) {
                let kb = k[len as int] as int;
                lemma_count_bound(rest, bucket_pred(prefix, len as int, kb));
            }
        }
    }
}

/// Before the first pass the sought key is the `target`-th of all keys.
pub proof fn lemma_radix_rank_initial(keys: Seq<Seq<u8>>, prefix: Seq<u8>, target: int)
    requires
        1 <= target <= keys.len(),
    ensures
        radix_rank_invariant(keys, prefix, 0, target, target),
{
    lemma_count_none(keys, precedes_pred(prefix, 0));
    lemma_count_all(keys, extends_pred(prefix, 0));
}

proof fn lemma_count_all(keys: Seq<Seq<u8>>, pred: spec_fn(Seq<u8>) -> bool)
    requires
        forall|i: int| 0 <= i < keys.len() ==> pred(#[trigger] keys[i]),
    ensures
        count_keys(keys, pred) == keys.len(),
    decreases keys.len(),
{
    if keys.len() > 0 {
        let rest = keys.drop_last();
        assert forall|i: int| 0 <= i < rest.len() implies pred(#[trigger] rest[i]) by {
            assert(rest[i] == keys[i]);
        }
        lemma_count_all(rest, pred);
        assert(keys.last() == keys[keys.len() - 1]);
    }
}

proof fn lemma_below_bucket_sum(keys: Seq<Seq<u8>>, h: Seq<u64>, prefix: Seq<u8>, len: int, b: int)
    requires
        0 <= b <= 256,
        0 <= len < 64,
        keys_well_sized(keys),
        histogram_matches(h, keys, prefix, len),
    ensures
        count_keys(keys, below_bucket_pred(prefix, len, b)) == hist_sum(h, b),
    decreases b,
{
    if b == 0 {
        lemma_count_none(keys, below_bucket_pred(prefix, len, 0));
    } else {
        lemma_below_bucket_sum(keys, h, prefix, len, b - 1);
        lemma_count_disjoint_union(
            keys,
            below_bucket_pred(prefix, len, b - 1),
            bucket_pred(prefix, len, b - 1),
            below_bucket_pred(prefix, len, b),
        );
    }
}

/// One radix pass keeps the rank invariant: the new prefix byte is the
/// bucket that holds the sought key, and the rank left is its position
/// inside that bucket. When the pass moves on to resolution the new prefix
/// is extended by exactly one key, the sought one.
pub proof fn lemma_radix_pass_preserves_rank(
    keys: Seq<Seq<u8>>,
    old_l: FinalizationLedger,
    new_l: FinalizationLedger,
    b: int,
    target: int,
)
    requires
        keys_well_sized(keys),
        keys.no_duplicates(),
        old_l.prefix_len < 64,
        histogram_matches(old_l.histogram@, keys, old_l.prefix@, old_l.prefix_len as int),
        radix_rank_invariant(
            keys,
            old_l.prefix@,
            old_l.prefix_len as int,
            old_l.remaining_rank as int,
            target,
        ),
        is_rank_bucket(old_l.histogram@, old_l.remaining_rank as int, b),
        radix_pass_step(old_l, new_l, b),
    ensures
        radix_rank_invariant(
            keys,
            new_l.prefix@,
            new_l.prefix_len as int,
            new_l.remaining_rank as int,
            target,
        ),
        (old_l.histogram@[b] == 1 || old_l.prefix_len + 1 == 64) ==> new_l.remaining_rank == 1
            && count_keys(keys, extends_pred(new_l.prefix@, new_l.prefix_len as int)) == 1,
{
    let p = old_l.prefix@;
    let len = old_l.prefix_len as int;
    let p2 = new_l.prefix@;
    let h = old_l.histogram@;
    assert(new_l.prefix_len == len + 1);
    lemma_extended_prefix_counts(keys, p, len, b, p2);
    lemma_below_bucket_sum(keys, h, p, len, b);
    if old_l.prefix_len + 1 == 64 {
        lemma_full_prefix_unique(keys, p2);
    }
}

/// Fixing byte `b` after the prefix: the keys extending the longer prefix
/// are the keys of bucket `b`, and the keys preceding it are those that
/// preceded the shorter prefix plus the keys of the lower buckets.
proof fn lemma_extended_prefix_counts(
    keys: Seq<Seq<u8>>,
    p: Seq<u8>,
    len: int,
    b: int,
    p2: Seq<u8>,
)
    requires
        keys_well_sized(keys),
        0 <= len < 64,
        0 <= b < 256,
        p.len() == 64,
        p2 == p.update(len, b as u8),
    ensures
        count_keys(keys, extends_pred(p2, len + 1)) == count_keys(keys, bucket_pred(p, len, b)),
        count_keys(keys, precedes_pred(p2, len + 1)) == count_keys(keys, precedes_pred(p, len))
            + count_keys(keys, below_bucket_pred(p, len, b)),
{
    assert forall|i: int| 0 <= i < keys.len() implies extends_pred(p2, len + 1)(#[trigger] keys[i])
        == bucket_pred(p, len, b)(keys[i]) by {
        let k = keys[i];
        if agree_upto(k, p2, len + 1) {
            assert(k[len] == p2[len]);
            assert forall|j: int| 0 <= j < len implies k[j] == p[j] by {
                assert(k[j] == p2[j]);
            }
        }
        if agree_upto(k, p, len) && k[len] == b {
            assert forall|j: int| 0 <= j < len + 1 implies k[j] == p2[j] by {
                if j < len {
                    assert(p2[j] == p[j]);
                }
            }
        }
    }
    lemma_count_ext(keys, extends_pred(p2, len + 1), bucket_pred(p, len, b));
    assert forall|i: int| 0 <= i < keys.len() implies !(precedes_pred(p, len)(#[trigger] keys[i])
        && below_bucket_pred(p, len, b)(keys[i])) by {
        let k = keys[i];
        if key_precedes(k, p, len) && agree_upto(k, p, len) {
            let j = choose|j: int| 0 <= j < len && agree_upto(k, p, j) && #[trigger] k[j] < p[j];
            assert(k[j] == p[j]);
        }
    }
    assert forall|i: int| 0 <= i < keys.len() implies precedes_pred(p2, len + 1)(#[trigger] keys[i])
        == (precedes_pred(p, len)(keys[i]) || below_bucket_pred(p, len, b)(keys[i])) by {
        lemma_precedes_extended(keys[i], p, len, b, p2);
    }
    lemma_count_disjoint_union(
        keys,
        precedes_pred(p, len),
        below_bucket_pred(p, len, b),
        precedes_pred(p2, len + 1),
    );
}

proof fn lemma_precedes_extended(k: Seq<u8>, p: Seq<u8>, len: int, b: int, p2: Seq<u8>)
    requires
        k.len() == 64,
        0 <= len < 64,
        0 <= b < 256,
        p.len() == 64,
        p2 == p.update(len, b as u8),
    ensures
        key_precedes(k, p2, len + 1) == (key_precedes(k, p, len) || (agree_upto(k, p, len) && k[len]
            < b)),
{
    if key_precedes(k, p2, len + 1) {
        let j = choose|j: int| 0 <= j < len + 1 && agree_upto(k, p2, j) && #[trigger] k[j] < p2[j];
        if j < len {
            assert(p2[j] == p[j]);
            assert(agree_upto(k, p, j)) by {
                assert forall|m: int| 0 <= m < j implies k[m] == p[m] by {
                    assert(k[m] == p2[m]);
                }
            }
            assert(key_precedes(k, p, len));
        } else {
            assert(agree_upto(k, p, len)) by {
                assert forall|m: int| 0 <= m < len implies k[m] == p[m] by {
                    assert(k[m] == p2[m]);
                }
            }
        }
    }
    if key_precedes(k, p, len) {
        let j = choose|j: int| 0 <= j < len && agree_upto(k, p, j) && #[trigger] k[j] < p[j];
        assert(p2[j] == p[j]);
        assert(agree_upto(k, p2, j)) by {
            assert forall|m: int| 0 <= m < j implies k[m] == p2[m] by {
                assert(p2[m] == p[m]);
            }
        }
        assert(key_precedes(k, p2, len + 1));
    }
    if agree_upto(k, p, len) && k[len] < b {
        assert(agree_upto(k, p2, len)) by {
            assert forall|m: int| 0 <= m < len implies k[m] == p2[m] by {
                assert(p2[m] == p[m]);
            }
        }
        assert(k[len] < p2[len]);
        assert(key_precedes(k, p2, len + 1));
    }
}

/// Distinct 64-byte keys: at most one extends a full 64-byte prefix.
proof fn lemma_full_prefix_unique(keys: Seq<Seq<u8>>, p2: Seq<u8>)
    requires
        keys_well_sized(keys),
        keys.no_duplicates(),
    ensures
        count_keys(keys, extends_pred(p2, 64)) <= 1,
{
    let ext = extends_pred(p2, 64);
    if count_keys(keys, ext) >= 2 {
        lemma_two_of_count(keys, ext);
        let (i, j) = choose|i: int, j: int| 0 <= i < j < keys.len() && ext(keys[i]) && ext(keys[j]);
        assert(keys[i].len() == 64 && keys[j].len() == 64);
        assert(keys[i] =~= keys[j]) by {
            assert forall|m: int| 0 <= m < 64 implies keys[i][m] == keys[j][m] by {
                assert(keys[i][m] == p2[m]);
                assert(keys[j][m] == p2[m]);
            }
        }
    }
}

proof fn lemma_two_of_count(keys: Seq<Seq<u8>>, pred: spec_fn(Seq<u8>) -> bool)
    requires
        count_keys(keys, pred) >= 2,
    ensures
        exists|i: int, j: int| 0 <= i < j < keys.len() && pred(keys[i]) && pred(keys[j]),
    decreases keys.len(),
{
    let rest = keys.drop_last();
    if count_keys(rest, pred) >= 2 {
        lemma_two_of_count(rest, pred);
        let (i, j) = choose|i: int, j: int| 0 <= i < j < rest.len() && pred(rest[i]) && pred(rest[j]);
        assert(rest[i] == keys[i] && rest[j] == keys[j]);
    } else {
        assert(pred(keys.last()));
        lemma_one_of_count(rest, pred);
        let i = choose|i: int| 0 <= i < rest.len() && pred(rest[i]);
        assert(rest[i] == keys[i]);
        assert(keys.last() == keys[keys.len() - 1]);
    }
}

proof fn lemma_one_of_count(keys: Seq<Seq<u8>>, pred: spec_fn(Seq<u8>) -> bool)
    requires
        count_keys(keys, pred) >= 1,
    ensures
        exists|i: int| 0 <= i < keys.len() && pred(keys[i]),
    decreases keys.len(),
{
    let rest = keys.drop_last();
    if count_keys(rest, pred) >= 1 {
        lemma_one_of_count(rest, pred);
        let i = choose|i: int| 0 <= i < rest.len() && pred(rest[i]);
        assert(rest[i] == keys[i]);
    } else {
        assert(keys.last() == keys[keys.len() - 1]);
    }
}

/// The resolved threshold is the `target`-th smallest key: once the prefix
/// is extended by a single key and the rank left is 1, exactly `target` keys
/// are at or below that key, so the emission pass (keys `<=` threshold)
/// selects exactly `target` winners.
pub proof fn lemma_threshold_selects_exactly_target(
    keys: Seq<Seq<u8>>,
    prefix: Seq<u8>,
    len: int,
    target: int,
    threshold: Seq<u8>,
)
    requires
        keys_well_sized(keys),
        keys.no_duplicates(),
        0 <= len <= 64,
        prefix.len() == 64,
        radix_rank_invariant(keys, prefix, len, 1, target),
        count_keys(keys, extends_pred(prefix, len)) == 1,
        keys.contains(threshold),
        agree_upto(threshold, prefix, len),
    ensures
        count_keys(keys, |k: Seq<u8>| lex_le(k, threshold)) == target,
{
    let t = threshold;
    let le_t = |k: Seq<u8>| lex_le(k, t);
    let eq_t = |k: Seq<u8>| k == t;
    let ext = extends_pred(prefix, len);
    let pre = precedes_pred(prefix, len);
    let ti = choose|ti: int| 0 <= ti < keys.len() && keys[ti] == t;
    assert(t.len() == 64);
    assert forall|i: int| 0 <= i < keys.len() implies !(pre(#[trigger] keys[i]) && eq_t(keys[i])) by {
        if key_precedes(keys[i], prefix, len) && keys[i] == t {
            let j = choose|j: int| 0 <= j < len && agree_upto(t, prefix, j) && #[trigger] t[j] < prefix[j];
            assert(t[j] == prefix[j]);
        }
    }
    assert forall|i: int| 0 <= i < keys.len() implies le_t(#[trigger] keys[i]) == (pre(keys[i])
        || eq_t(keys[i])) by {
        let k = keys[i];
        assert(k.len() == 64);
        if key_precedes(k, prefix, len) {
            let j = choose|j: int| 0 <= j < len && agree_upto(k, prefix, j) && #[trigger] k[j] < prefix[j];
            assert(agree_upto(k, t, j)) by {
                assert forall|m: int| 0 <= m < j implies k[m] == t[m] by {
                    assert(k[m] == prefix[m]);
                    assert(t[m] == prefix[m]);
                }
            }
            assert(k[j] < t[j]);
            assert(lex_lt(k, t));
        }
        if lex_le(k, t) && k != t {
            let j = choose|j: int|
                0 <= j < k.len() && j < t.len() && agree_upto(k, t, j) && #[trigger] k[j] < t[j];
            if j < len {
                assert(agree_upto(k, prefix, j)) by {
                    assert forall|m: int| 0 <= m < j implies k[m] == prefix[m] by {
                        assert(k[m] == t[m]);
                    }
                }
                assert(k[j] < prefix[j]);
                assert(key_precedes(k, prefix, len));
            } else {
                assert(agree_upto(k, prefix, len)) by {
                    assert forall|m: int| 0 <= m < len implies k[m] == prefix[m] by {
                        assert(k[m] == t[m]);
                    }
                }
                assert(i != ti);
                if i < ti {
                    lemma_count_two(keys, ext, i, ti);
                } else {
                    lemma_count_two(keys, ext, ti, i);
                }
            }
        }
    }
    lemma_count_disjoint_union(keys, pre, eq_t, le_t);
    lemma_count_equal_member(keys, t);
}

/// One radix pass of a run: every key was recorded into a fresh histogram
/// for the ledger's prefix, and the pass closed at the bucket holding the
/// sought rank.
pub open spec fn radix_pass_recorded(
    keys: Seq<Seq<u8>>,
    l: FinalizationLedger,
    l1: FinalizationLedger,
    b: int,
) -> bool {
    &&& l.prefix_len < 64
    &&& l.histogram@ == spec_record_keys(empty_histogram(), l.prefix@, l.prefix_len, keys)
    &&& is_rank_bucket(l.histogram@, l.remaining_rank as int, b)
    &&& radix_pass_step(l, l1, b)
}

/// The radix run as a whole: starting from an empty prefix with the rank
/// set to `target`, however many passes run (across chunks and calls), the
/// sought key stays the `target`-th smallest candidate key.
pub proof fn lemma_radix_run_keeps_rank(
    keys: Seq<Seq<u8>>,
    ledgers: Seq<FinalizationLedger>,
    buckets: Seq<int>,
    target: int,
)
    requires
        keys_well_sized(keys),
        keys.no_duplicates(),
        keys.len() < u64::MAX,
        1 <= target <= keys.len(),
        ledgers.len() == buckets.len() + 1,
        ledgers[0].prefix_len == 0,
        ledgers[0].remaining_rank == target,
        forall|k: int|
            0 <= k < buckets.len() ==> #[trigger] radix_pass_recorded(
                keys,
                ledgers[k],
                ledgers[k + 1],
                buckets[k],
            ),
    ensures
        radix_rank_invariant(
            keys,
            ledgers.last().prefix@,
            ledgers.last().prefix_len as int,
            ledgers.last().remaining_rank as int,
            target,
        ),
    decreases buckets.len(),
{
    let n = buckets.len() as int;
    if n == 0 {
        lemma_radix_rank_initial(keys, ledgers[0].prefix@, target);
    } else {
        let prefix_ledgers = ledgers.subrange(0, n);
        let prefix_buckets = buckets.subrange(0, n - 1);
        assert forall|k: int| 0 <= k < prefix_buckets.len() implies #[trigger] radix_pass_recorded(
            keys,
            prefix_ledgers[k],
            prefix_ledgers[k + 1],
            prefix_buckets[k],
        ) by {
            assert(radix_pass_recorded(keys, ledgers[k], ledgers[k + 1], buckets[k]));
        }
        lemma_radix_run_keeps_rank(keys, prefix_ledgers, prefix_buckets, target);
        let l = ledgers[n - 1];
        assert(prefix_ledgers.last() == l);
        assert(radix_pass_recorded(keys, l, ledgers[n], buckets[n - 1]));
        lemma_radix_histogram_counts(l.prefix@, l.prefix_len, keys);
        lemma_radix_pass_preserves_rank(keys, l, ledgers[n], buckets[n - 1], target);
    }
}

/// The top-K law of a whole finalization run: when the radix run ends with
/// rank 1 on a prefix that a single candidate key extends, the key resolved
/// from that prefix has exactly `target` candidate keys at or below it, so
/// the emission pass selects exactly the `target` smallest keys.
pub proof fn lemma_radix_run_selects_exactly_target(
    keys: Seq<Seq<u8>>,
    ledgers: Seq<FinalizationLedger>,
    buckets: Seq<int>,
    target: int,
    threshold: Seq<u8>,
)
    requires
        keys_well_sized(keys),
        keys.no_duplicates(),
        keys.len() < u64::MAX,
        1 <= target <= keys.len(),
        ledgers.len() == buckets.len() + 1,
        ledgers[0].prefix_len == 0,
        ledgers[0].remaining_rank == target,
        forall|k: int|
            0 <= k < buckets.len() ==> #[trigger] radix_pass_recorded(
                keys,
                ledgers[k],
                ledgers[k + 1],
                buckets[k],
            ),
        ledgers.last().remaining_rank == 1,
        count_keys(keys, extends_pred(ledgers.last().prefix@, ledgers.last().prefix_len as int))
            == 1,
        ledgers.last().prefix_len <= 64,
        keys.contains(threshold),
        agree_upto(threshold, ledgers.last().prefix@, ledgers.last().prefix_len as int),
    ensures
        count_keys(keys, |k: Seq<u8>| lex_le(k, threshold)) == target,
{
    lemma_radix_run_keeps_rank(keys, ledgers, buckets, target);
    let l = ledgers.last();
    lemma_threshold_selects_exactly_target(keys, l.prefix@, l.prefix_len as int, target, threshold);
}

} // verus!
