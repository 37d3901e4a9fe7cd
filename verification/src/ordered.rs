//! Sequences ordered by a string key, descending.
//!
//! The cache keeps conversations and messages sorted by their ISO-8601
//! activity timestamps, newest first. This module defines what that order
//! means, what an insert-or-replace does to such a sequence, and the lemmas
//! the store's operations are proved with. All functions are generic in the
//! element type and take the key as a specification-level function.

use vstd::prelude::*;
use crate::text::lex_lt;

verus! {

/// The sequence is sorted descending under `key`.
pub open spec fn sorted_desc<T>(s: Seq<T>, key: spec_fn(T) -> Seq<char>) -> bool {
    forall|i: int, j: int| 0 <= i < j < s.len() ==> !lex_lt(key(s[i]), key(s[j]))
}

/// Position of the first element whose key is strictly below `k`, or the
/// length if there is none: where a new element with key `k` is inserted so
/// that it follows every element with an equal or larger key.
pub open spec fn insert_pos<T>(s: Seq<T>, k: Seq<char>, key: spec_fn(T) -> Seq<char>) -> int
    decreases s.len(),
{
    if s.len() == 0 {
        0
    } else if lex_lt(key(s[0]), k) {
        0
    } else {
        1 + insert_pos(s.drop_first(), k, key)
    }
}

/// The sequence with `x` inserted at its descending-order position.
pub open spec fn insert_desc<T>(s: Seq<T>, x: T, key: spec_fn(T) -> Seq<char>) -> Seq<T> {
    let p = insert_pos(s, key(x), key);
    s.take(p) + seq![x] + s.skip(p)
}

/// Position of the first element whose key equals `k`, or -1 if absent.
pub open spec fn key_pos<T, K>(s: Seq<T>, k: K, key: spec_fn(T) -> K) -> int
    decreases s.len(),
{
    if s.len() == 0 {
        -1
    } else if key(s[0]) == k {
        0
    } else {
        let r = key_pos(s.drop_first(), k, key);
        if r < 0 {
            -1
        } else {
            1 + r
        }
    }
}

/// Whether some element has key `k`.
pub open spec fn has_key<T, K>(s: Seq<T>, k: K, key: spec_fn(T) -> K) -> bool {
    key_pos(s, k, key) >= 0
}

/// The first element with key `k`, if any.
pub open spec fn find_key<T, K>(s: Seq<T>, k: K, key: spec_fn(T) -> K) -> Option<T> {
    if has_key(s, k, key) {
        Option::Some(s[key_pos(s, k, key)])
    } else {
        Option::None
    }
}

/// The sequence with the first element of key `k` removed, if present.
pub open spec fn remove_key<T, K>(s: Seq<T>, k: K, key: spec_fn(T) -> K) -> Seq<T> {
    if has_key(s, k, key) {
        s.remove(key_pos(s, k, key))
    } else {
        s
    }
}

/// Insert-or-replace: the element with the same identity key is removed and
/// the new element inserted at its descending position under the order key.
pub open spec fn upsert_sorted<T, K>(
    s: Seq<T>,
    x: T,
    idk: spec_fn(T) -> K,
    ordk: spec_fn(T) -> Seq<char>,
) -> Seq<T> {
    insert_desc(remove_key(s, idk(x), idk), x, ordk)
}

/// From `a < c` and `c <= b` follows `a < b`.
pub proof fn lemma_lex_trans2(a: Seq<char>, b: Seq<char>, c: Seq<char>)
    requires
        lex_lt(a, c),
        !lex_lt(b, c),
    ensures
        lex_lt(a, b),
    decreases c.len(),
{
    if c.len() > 0 && a.len() > 0 && b.len() > 0 {
        let a0 = a[0];
        let b0 = b[0];
        let c0 = c[0];
        if (a0 as u32) == (b0 as u32) {
            vstd::utf8::char_u32_cast(a0, a0 as u32);
            vstd::utf8::char_u32_cast(b0, a0 as u32);
        }
        if (b0 as u32) == (c0 as u32) {
            vstd::utf8::char_u32_cast(b0, b0 as u32);
            vstd::utf8::char_u32_cast(c0, b0 as u32);
        }
        if (a0 as u32) == (c0 as u32) {
            vstd::utf8::char_u32_cast(a0, a0 as u32);
            vstd::utf8::char_u32_cast(c0, a0 as u32);
        }
        if a0 == c0 && b0 == c0 {
            lemma_lex_trans2(a.drop_first(), b.drop_first(), c.drop_first());
        }
    }
}

/// The order is asymmetric.
pub proof fn lemma_lex_asym(a: Seq<char>, b: Seq<char>)
    requires
        lex_lt(a, b),
    ensures
        !lex_lt(b, a),
    decreases a.len(),
{
    if a.len() > 0 && b.len() > 0 && a[0] == b[0] {
        lemma_lex_asym(a.drop_first(), b.drop_first());
    }
}

/// The order is irreflexive.
pub proof fn lemma_lex_irrefl(a: Seq<char>)
    ensures
        !lex_lt(a, a),
    decreases a.len(),
{
    if a.len() > 0 {
        lemma_lex_irrefl(a.drop_first());
    }
}

/// What `insert_pos` returns: the first position whose key is below `k`.
pub proof fn lemma_insert_pos<T>(s: Seq<T>, k: Seq<char>, key: spec_fn(T) -> Seq<char>)
    ensures
        0 <= insert_pos(s, k, key) <= s.len(),
        forall|i: int| 0 <= i < insert_pos(s, k, key) ==> !lex_lt(key(s[i]), k),
        insert_pos(s, k, key) < s.len() ==> lex_lt(key(s[insert_pos(s, k, key)]), k),
    decreases s.len(),
{
    if s.len() > 0 && !lex_lt(key(s[0]), k) {
        lemma_insert_pos(s.drop_first(), k, key);
        assert forall|i: int| 0 <= i < insert_pos(s, k, key) implies !lex_lt(key(s[i]), k) by {
            if i > 0 {
                assert(s.drop_first()[i - 1] == s[i]);
            }
        }
    }
}

/// What `key_pos` returns: -1 when no key matches, else the first match.
pub proof fn lemma_key_pos<T, K>(s: Seq<T>, k: K, key: spec_fn(T) -> K)
    ensures
        key_pos(s, k, key) == -1 || 0 <= key_pos(s, k, key) < s.len(),
        key_pos(s, k, key) == -1 ==> forall|i: int| 0 <= i < s.len() ==> key(s[i]) != k,
        key_pos(s, k, key) >= 0 ==> key(s[key_pos(s, k, key)]) == k,
        forall|i: int| 0 <= i < key_pos(s, k, key) ==> key(s[i]) != k,
    decreases s.len(),
{
    if s.len() > 0 && key(s[0]) != k {
        lemma_key_pos(s.drop_first(), k, key);
        assert(forall|i: int| 1 <= i < s.len() ==> s.drop_first()[i - 1] == s[i]);
    }
}

/// A position with the `insert_pos` characterization is `insert_pos`.
pub proof fn lemma_insert_pos_at<T>(s: Seq<T>, k: Seq<char>, key: spec_fn(T) -> Seq<char>, p: int)
    requires
        0 <= p <= s.len(),
        forall|i: int| 0 <= i < p ==> !lex_lt(key(s[i]), k),
        p < s.len() ==> lex_lt(key(s[p]), k),
    ensures
        insert_pos(s, k, key) == p,
{
    lemma_insert_pos(s, k, key);
    let q = insert_pos(s, k, key);
    if q < p {
        assert(lex_lt(key(s[q]), k));
        assert(!lex_lt(key(s[q]), k));
    }
    if p < q {
        assert(lex_lt(key(s[p]), k));
        assert(!lex_lt(key(s[p]), k));
    }
}

/// A position with the `key_pos` characterization is `key_pos`.
pub proof fn lemma_key_pos_at<T, K>(s: Seq<T>, k: K, key: spec_fn(T) -> K, p: int)
    requires
        0 <= p < s.len(),
        key(s[p]) == k,
        forall|i: int| 0 <= i < p ==> key(s[i]) != k,
    ensures
        key_pos(s, k, key) == p,
{
    lemma_key_pos(s, k, key);
    let q = key_pos(s, k, key);
    if q == -1 {
        assert(key(s[p]) != k);
    } else if q < p {
        assert(key(s[q]) != k);
    } else if p < q {
        assert(key(s[p]) != k);
    }
}

/// Inserting at the descending position keeps the sequence sorted.
pub proof fn lemma_insert_desc_sorted<T>(s: Seq<T>, x: T, key: spec_fn(T) -> Seq<char>)
    requires
        sorted_desc(s, key),
    ensures
        sorted_desc(insert_desc(s, x, key), key),
{
    let k = key(x);
    let p = insert_pos(s, k, key);
    lemma_insert_pos(s, k, key);
    let r = insert_desc(s, x, key);
    assert(r.len() == s.len() + 1);
    assert forall|i: int, j: int| 0 <= i < j < r.len() implies !lex_lt(key(r[i]), key(r[j])) by {
        let a = if i < p {
            s[i]
        } else if i == p {
            x
        } else {
            s[i - 1]
        };
        let b = if j < p {
            s[j]
        } else if j == p {
            x
        } else {
            s[j - 1]
        };
        assert(r[i] == a);
        assert(r[j] == b);
        if i == p {
            // a is x, b is s[j-1] with j-1 >= p
            if lex_lt(key(a), key(b)) {
                // x < s[j-1], yet s[j-1] <= s[p] < x when p < s.len()
                assert(p < s.len());
                if j - 1 > p {
                    assert(!lex_lt(key(s[p]), key(s[j - 1])));
                } else {
                    lemma_lex_irrefl(key(s[p]));
                }
                lemma_lex_trans2(k, key(s[p]), key(b));
                lemma_lex_asym(key(s[p]), k);
            }
        } else if j == p {
            // b is x, a is s[i] with i < p, so !lex_lt(key(s[i]), k)
            if lex_lt(key(a), key(b)) {
                assert(!lex_lt(key(s[i]), k));
            }
        }
    }
}

/// Removing an element keeps the sequence sorted.
pub proof fn lemma_remove_sorted<T>(s: Seq<T>, p: int, key: spec_fn(T) -> Seq<char>)
    requires
        sorted_desc(s, key),
        0 <= p < s.len(),
    ensures
        sorted_desc(s.remove(p), key),
{
    let r = s.remove(p);
    assert forall|i: int, j: int| 0 <= i < j < r.len() implies !lex_lt(key(r[i]), key(r[j])) by {
        let a = if i < p {
            s[i]
        } else {
            s[i + 1]
        };
        let b = if j < p {
            s[j]
        } else {
            s[j + 1]
        };
        assert(r[i] == a);
        assert(r[j] == b);
    }
}


/// Every element has a distinct key.
pub open spec fn unique_keys<T, K>(s: Seq<T>, key: spec_fn(T) -> K) -> bool {
    forall|i: int, j: int| 0 <= i < j < s.len() ==> key(s[i]) != key(s[j])
}

/// Number of elements with key `k`.
pub open spec fn count_key<T, K>(s: Seq<T>, k: K, key: spec_fn(T) -> K) -> int
    decreases s.len(),
{
    if s.len() == 0 {
        0
    } else {
        (if key(s[0]) == k {
            1int
        } else {
            0int
        }) + count_key(s.drop_first(), k, key)
    }
}

/// Counting distributes over concatenation.
pub proof fn lemma_count_concat<T, K>(a: Seq<T>, b: Seq<T>, k: K, key: spec_fn(T) -> K)
    ensures
        count_key(a + b, k, key) == count_key(a, k, key) + count_key(b, k, key),
    decreases a.len(),
{
    if a.len() == 0 {
        assert(a + b =~= b);
    } else {
        assert((a + b).drop_first() =~= a.drop_first() + b);
        lemma_count_concat(a.drop_first(), b, k, key);
    }
}

/// A sequence without the key counts zero of it.
pub proof fn lemma_count_free<T, K>(s: Seq<T>, k: K, key: spec_fn(T) -> K)
    requires
        forall|i: int| 0 <= i < s.len() ==> key(s[i]) != k,
    ensures
        count_key(s, k, key) == 0,
    decreases s.len(),
{
    if s.len() > 0 {
        assert(forall|i: int| 0 <= i < s.drop_first().len() ==> s.drop_first()[i] == s[i + 1]);
        lemma_count_free(s.drop_first(), k, key);
    }
}

/// After removing the only element with key `k`, no element has it.
pub proof fn lemma_remove_key_free<T, K>(s: Seq<T>, k: K, key: spec_fn(T) -> K)
    requires
        unique_keys(s, key),
    ensures
        forall|i: int|
            0 <= i < remove_key(s, k, key).len() ==> key(#[trigger] remove_key(s, k, key)[i]) != k,
{
    lemma_key_pos(s, k, key);
    let kp = key_pos(s, k, key);
    let r = remove_key(s, k, key);
    if kp >= 0 {
        assert forall|i: int| 0 <= i < r.len() implies key(r[i]) != k by {
            if i < kp {
                assert(r[i] == s[i]);
            } else {
                assert(r[i] == s[i + 1]);
                assert(key(s[kp]) == k);
            }
        }
    }
}

/// Removing a key keeps the sequence sorted.
pub proof fn lemma_remove_key_sorted<T, K>(
    s: Seq<T>,
    k: K,
    key: spec_fn(T) -> K,
    ordk: spec_fn(T) -> Seq<char>,
)
    requires
        sorted_desc(s, ordk),
    ensures
        sorted_desc(remove_key(s, k, key), ordk),
{
    lemma_key_pos(s, k, key);
    let kp = key_pos(s, k, key);
    if kp >= 0 {
        lemma_remove_sorted(s, kp, ordk);
    }
}

/// Removing a key keeps the keys unique.
pub proof fn lemma_remove_key_unique<T, K>(s: Seq<T>, k: K, key: spec_fn(T) -> K)
    requires
        unique_keys(s, key),
    ensures
        unique_keys(remove_key(s, k, key), key),
{
    lemma_key_pos(s, k, key);
    let kp = key_pos(s, k, key);
    let r = remove_key(s, k, key);
    if kp >= 0 {
        assert forall|i: int, j: int| 0 <= i < j < r.len() implies key(r[i]) != key(r[j]) by {
            let a = if i < kp {
                s[i]
            } else {
                s[i + 1]
            };
            let b = if j < kp {
                s[j]
            } else {
                s[j + 1]
            };
            assert(r[i] == a);
            assert(r[j] == b);
        }
    }
}

/// Insert-or-replace keeps the sequence sorted.
pub proof fn lemma_upsert_sorted<T, K>(
    s: Seq<T>,
    x: T,
    idk: spec_fn(T) -> K,
    ordk: spec_fn(T) -> Seq<char>,
)
    requires
        sorted_desc(s, ordk),
    ensures
        sorted_desc(upsert_sorted(s, x, idk, ordk), ordk),
{
    lemma_remove_key_sorted(s, idk(x), idk, ordk);
    lemma_insert_desc_sorted(remove_key(s, idk(x), idk), x, ordk);
}

/// Insert-or-replace keeps the identity keys unique.
pub proof fn lemma_upsert_unique<T, K>(
    s: Seq<T>,
    x: T,
    idk: spec_fn(T) -> K,
    ordk: spec_fn(T) -> Seq<char>,
)
    requires
        unique_keys(s, idk),
    ensures
        unique_keys(upsert_sorted(s, x, idk, ordk), idk),
{
    let k = idk(x);
    let s1 = remove_key(s, k, idk);
    lemma_remove_key_unique(s, k, idk);
    lemma_remove_key_free(s, k, idk);
    let p = insert_pos(s1, ordk(x), ordk);
    lemma_insert_pos(s1, ordk(x), ordk);
    let r = upsert_sorted(s, x, idk, ordk);
    assert forall|i: int, j: int| 0 <= i < j < r.len() implies idk(r[i]) != idk(r[j]) by {
        let a = if i < p {
            s1[i]
        } else if i == p {
            x
        } else {
            s1[i - 1]
        };
        let b = if j < p {
            s1[j]
        } else if j == p {
            x
        } else {
            s1[j - 1]
        };
        assert(r[i] == a);
        assert(r[j] == b);
    }
}

/// After an insert-or-replace the new element is the one found at its key.
pub proof fn lemma_upsert_found<T, K>(
    s: Seq<T>,
    x: T,
    idk: spec_fn(T) -> K,
    ordk: spec_fn(T) -> Seq<char>,
)
    requires
        unique_keys(s, idk),
    ensures
        find_key(upsert_sorted(s, x, idk, ordk), idk(x), idk) == Option::Some(x),
        count_key(upsert_sorted(s, x, idk, ordk), idk(x), idk) == 1,
{
    let k = idk(x);
    let s1 = remove_key(s, k, idk);
    lemma_remove_key_free(s, k, idk);
    let p = insert_pos(s1, ordk(x), ordk);
    lemma_insert_pos(s1, ordk(x), ordk);
    let r = upsert_sorted(s, x, idk, ordk);
    assert(r[p] == x);
    assert forall|i: int| 0 <= i < p implies idk(r[i]) != k by {
        assert(r[i] == s1[i]);
    }
    lemma_key_pos_at(r, k, idk, p);
    let pre = s1.take(p);
    let post = s1.skip(p);
    assert(r =~= pre + (seq![x] + post));
    lemma_count_concat(pre, seq![x] + post, k, idk);
    lemma_count_concat(seq![x], post, k, idk);
    assert(forall|i: int| 0 <= i < pre.len() ==> pre[i] == s1[i]);
    lemma_count_free(pre, k, idk);
    assert(forall|i: int| 0 <= i < post.len() ==> post[i] == s1[i + p]);
    lemma_count_free(post, k, idk);
    assert(count_key(seq![x], k, idk) == 1) by {
        assert(seq![x].drop_first() =~= Seq::<T>::empty());
        assert(count_key(Seq::<T>::empty(), k, idk) == 0);
    }
}

/// An insert-or-replace leaves every other key's first element unchanged.
pub proof fn lemma_upsert_preserves_others<T, K>(
    s: Seq<T>,
    x: T,
    idk: spec_fn(T) -> K,
    ordk: spec_fn(T) -> Seq<char>,
    k2: K,
)
    requires
        k2 != idk(x),
    ensures
        find_key(upsert_sorted(s, x, idk, ordk), k2, idk) == find_key(s, k2, idk),
{
    let k = idk(x);
    lemma_key_pos(s, k, idk);
    lemma_key_pos(s, k2, idk);
    let kp = key_pos(s, k, idk);
    let q = key_pos(s, k2, idk);
    let s1 = remove_key(s, k, idk);
    // First: removal does not change the first element with key k2.
    if kp >= 0 {
        if q == -1 {
            assert forall|i: int| 0 <= i < s1.len() implies idk(s1[i]) != k2 by {
                if i < kp {
                    assert(s1[i] == s[i]);
                } else {
                    assert(s1[i] == s[i + 1]);
                }
            }
            lemma_key_pos(s1, k2, idk);
            if key_pos(s1, k2, idk) >= 0 {
                assert(idk(s1[key_pos(s1, k2, idk)]) != k2);
            }
        } else if q < kp {
            assert(s1[q] == s[q]);
            assert forall|i: int| 0 <= i < q implies idk(s1[i]) != k2 by {
                assert(s1[i] == s[i]);
            }
            lemma_key_pos_at(s1, k2, idk, q);
        } else {
            assert(q != kp);
            assert(s1[q - 1] == s[q]);
            assert forall|i: int| 0 <= i < q - 1 implies idk(s1[i]) != k2 by {
                if i < kp {
                    assert(s1[i] == s[i]);
                } else {
                    assert(s1[i] == s[i + 1]);
                }
            }
            lemma_key_pos_at(s1, k2, idk, q - 1);
        }
    }
    // Second: inserting x does not change the first element with key k2.
    lemma_key_pos(s1, k2, idk);
    let q1 = key_pos(s1, k2, idk);
    let p = insert_pos(s1, ordk(x), ordk);
    lemma_insert_pos(s1, ordk(x), ordk);
    let r = upsert_sorted(s, x, idk, ordk);
    if q1 == -1 {
        assert forall|i: int| 0 <= i < r.len() implies idk(r[i]) != k2 by {
            if i < p {
                assert(r[i] == s1[i]);
            } else if i == p {
                assert(r[i] == x);
            } else {
                assert(r[i] == s1[i - 1]);
            }
        }
        lemma_key_pos(r, k2, idk);
        if key_pos(r, k2, idk) >= 0 {
            assert(idk(r[key_pos(r, k2, idk)]) != k2);
        }
    } else if q1 < p {
        assert(r[q1] == s1[q1]);
        assert forall|i: int| 0 <= i < q1 implies idk(r[i]) != k2 by {
            assert(r[i] == s1[i]);
        }
        lemma_key_pos_at(r, k2, idk, q1);
    } else {
        assert(r[q1 + 1] == s1[q1]);
        assert forall|i: int| 0 <= i < q1 + 1 implies idk(r[i]) != k2 by {
            if i < p {
                assert(r[i] == s1[i]);
            } else if i == p {
                assert(r[i] == x);
            } else {
                assert(r[i] == s1[i - 1]);
            }
        }
        lemma_key_pos_at(r, k2, idk, q1 + 1);
    }
}

/// Repeating an insert-or-replace with the same element changes nothing.
pub proof fn lemma_upsert_idempotent<T, K>(
    s: Seq<T>,
    x: T,
    idk: spec_fn(T) -> K,
    ordk: spec_fn(T) -> Seq<char>,
)
    requires
        unique_keys(s, idk),
    ensures
        upsert_sorted(upsert_sorted(s, x, idk, ordk), x, idk, ordk) == upsert_sorted(
            s,
            x,
            idk,
            ordk,
        ),
{
    let k = idk(x);
    let s1 = remove_key(s, k, idk);
    lemma_remove_key_free(s, k, idk);
    let p = insert_pos(s1, ordk(x), ordk);
    lemma_insert_pos(s1, ordk(x), ordk);
    let u1 = upsert_sorted(s, x, idk, ordk);
    assert(u1[p] == x);
    assert forall|i: int| 0 <= i < p implies idk(u1[i]) != k by {
        assert(u1[i] == s1[i]);
    }
    lemma_key_pos_at(u1, k, idk, p);
    assert(u1.remove(p) =~= s1);
    assert(upsert_sorted(u1, x, idk, ordk) == insert_desc(s1, x, ordk));
}

/// How an insert-or-replace changes the length.
pub proof fn lemma_upsert_len<T, K>(
    s: Seq<T>,
    x: T,
    idk: spec_fn(T) -> K,
    ordk: spec_fn(T) -> Seq<char>,
)
    ensures
        upsert_sorted(s, x, idk, ordk).len() == if has_key(s, idk(x), idk) {
            s.len() as int
        } else {
            s.len() + 1int
        },
{
    let k = idk(x);
    lemma_key_pos(s, k, idk);
    let s1 = remove_key(s, k, idk);
    lemma_insert_pos(s1, ordk(x), ordk);
}


/// The subsequence of elements satisfying `pred`, in order.
pub open spec fn filter_seq<T>(s: Seq<T>, pred: spec_fn(T) -> bool) -> Seq<T>
    decreases s.len(),
{
    if s.len() == 0 {
        Seq::<T>::empty()
    } else {
        let rest = filter_seq(s.drop_first(), pred);
        if pred(s[0]) {
            seq![s[0]] + rest
        } else {
            rest
        }
    }
}

/// Appending an element extends the filtered subsequence accordingly.
pub proof fn lemma_filter_push<T>(s: Seq<T>, x: T, pred: spec_fn(T) -> bool)
    ensures
        filter_seq(s.push(x), pred) == if pred(x) {
            filter_seq(s, pred).push(x)
        } else {
            filter_seq(s, pred)
        },
    decreases s.len(),
{
    if s.len() == 0 {
        assert(s.push(x).drop_first() =~= Seq::<T>::empty());
        assert(s.push(x)[0] == x);
        assert(filter_seq(Seq::<T>::empty(), pred) == Seq::<T>::empty());
        if pred(x) {
            assert(filter_seq(s.push(x), pred) =~= filter_seq(s, pred).push(x));
        } else {
            assert(filter_seq(s.push(x), pred) =~= filter_seq(s, pred));
        }
    } else {
        assert(s.push(x).drop_first() =~= s.drop_first().push(x));
        assert(s.push(x)[0] == s[0]);
        lemma_filter_push(s.drop_first(), x, pred);
        if pred(x) {
            assert(filter_seq(s.push(x), pred) =~= filter_seq(s, pred).push(x));
        } else {
            assert(filter_seq(s.push(x), pred) =~= filter_seq(s, pred));
        }
    }
}

/// Every element of the filtered subsequence satisfies `pred`, and each one
/// occurs in the original sequence.
pub proof fn lemma_filter_pred<T>(s: Seq<T>, pred: spec_fn(T) -> bool)
    ensures
        filter_seq(s, pred).len() <= s.len(),
        forall|j: int|
            0 <= j < filter_seq(s, pred).len() ==> pred(#[trigger] filter_seq(s, pred)[j]),
        forall|j: int|
            0 <= j < filter_seq(s, pred).len() ==> exists|i: int|
                0 <= i < s.len() && s[i] == #[trigger] filter_seq(s, pred)[j],
    decreases s.len(),
{
    if s.len() > 0 {
        lemma_filter_pred(s.drop_first(), pred);
        let r = filter_seq(s, pred);
        let rr = filter_seq(s.drop_first(), pred);
        assert forall|j: int| 0 <= j < r.len() implies pred(r[j]) && exists|i: int|
            0 <= i < s.len() && s[i] == r[j] by {
            if pred(s[0]) && j == 0 {
                assert(r[0] == s[0]);
            } else {
                let jj = if pred(s[0]) {
                    j - 1
                } else {
                    j
                };
                assert(r[j] == rr[jj]);
                assert(pred(rr[jj]));
                let i = choose|i: int| 0 <= i < s.drop_first().len() && s.drop_first()[i] == rr[jj];
                assert(s[i + 1] == r[j]);
            }
        }
    }
}

/// An element satisfying `pred` appears in the filtered subsequence.
pub proof fn lemma_filter_complete<T>(s: Seq<T>, pred: spec_fn(T) -> bool, i: int)
    requires
        0 <= i < s.len(),
        pred(s[i]),
    ensures
        exists|j: int|
            0 <= j < filter_seq(s, pred).len() && #[trigger] filter_seq(s, pred)[j] == s[i],
    decreases s.len(),
{
    let r = filter_seq(s, pred);
    if i == 0 {
        assert(r[0] == s[0]);
    } else {
        lemma_filter_complete(s.drop_first(), pred, i - 1);
        let rr = filter_seq(s.drop_first(), pred);
        let j = choose|j: int| 0 <= j < rr.len() && rr[j] == s.drop_first()[i - 1];
        if pred(s[0]) {
            assert(r[j + 1] == rr[j]);
        } else {
            assert(r[j] == rr[j]);
        }
    }
}

/// Filtering everything keeps the sequence; filtering out everything empties it.
pub proof fn lemma_filter_all<T>(s: Seq<T>, pred: spec_fn(T) -> bool)
    ensures
        (forall|i: int| 0 <= i < s.len() ==> pred(#[trigger] s[i])) ==> filter_seq(s, pred) == s,
        (forall|i: int| 0 <= i < s.len() ==> !pred(#[trigger] s[i])) ==> filter_seq(s, pred)
            == Seq::<T>::empty(),
    decreases s.len(),
{
    if s.len() > 0 {
        lemma_filter_all(s.drop_first(), pred);
        assert(forall|i: int| 0 <= i < s.drop_first().len() ==> s.drop_first()[i] == s[i + 1]);
        if forall|i: int| 0 <= i < s.len() ==> pred(#[trigger] s[i]) {
            assert(filter_seq(s, pred) =~= s);
        }
    }
}

/// Filtering keeps a descending sort order.
pub proof fn lemma_filter_sorted<T>(s: Seq<T>, pred: spec_fn(T) -> bool, ordk: spec_fn(T) -> Seq<char>)
    requires
        sorted_desc(s, ordk),
    ensures
        sorted_desc(filter_seq(s, pred), ordk),
    decreases s.len(),
{
    if s.len() > 0 {
        assert(sorted_desc(s.drop_first(), ordk)) by {
            assert(forall|i: int|
                0 <= i < s.drop_first().len() ==> s.drop_first()[i] == s[i + 1]);
        }
        lemma_filter_sorted(s.drop_first(), pred, ordk);
        lemma_filter_pred(s.drop_first(), pred);
        let r = filter_seq(s, pred);
        let rr = filter_seq(s.drop_first(), pred);
        if pred(s[0]) {
            assert forall|i: int, j: int| 0 <= i < j < r.len() implies !lex_lt(
                ordk(r[i]),
                ordk(r[j]),
            ) by {
                if i == 0 {
                    assert(r[0] == s[0]);
                    assert(r[j] == rr[j - 1]);
                    let t = choose|t: int|
                        0 <= t < s.drop_first().len() && s.drop_first()[t] == rr[j - 1];
                    assert(s[t + 1] == rr[j - 1]);
                    assert(!lex_lt(ordk(s[0]), ordk(s[t + 1])));
                } else {
                    assert(r[i] == rr[i - 1]);
                    assert(r[j] == rr[j - 1]);
                }
            }
        }
    }
}


/// Filtering keeps the keys unique.
pub proof fn lemma_filter_unique<T, K>(s: Seq<T>, pred: spec_fn(T) -> bool, key: spec_fn(T) -> K)
    requires
        unique_keys(s, key),
    ensures
        unique_keys(filter_seq(s, pred), key),
    decreases s.len(),
{
    if s.len() > 0 {
        assert(forall|i: int| 0 <= i < s.drop_first().len() ==> s.drop_first()[i] == s[i + 1]);
        lemma_filter_unique(s.drop_first(), pred, key);
        lemma_filter_pred(s.drop_first(), pred);
        let r = filter_seq(s, pred);
        let rr = filter_seq(s.drop_first(), pred);
        if pred(s[0]) {
            assert forall|i: int, j: int| 0 <= i < j < r.len() implies key(r[i]) != key(
                r[j],
            ) by {
                if i == 0 {
                    assert(r[0] == s[0]);
                    assert(r[j] == rr[j - 1]);
                    let t = choose|t: int|
                        0 <= t < s.drop_first().len() && s.drop_first()[t] == rr[j - 1];
                    assert(s[t + 1] == rr[j - 1]);
                    assert(key(s[0]) != key(s[t + 1]));
                } else {
                    assert(r[i] == rr[i - 1]);
                    assert(r[j] == rr[j - 1]);
                }
            }
        }
    }
}


/// Position of the first element satisfying `pred`, or -1 if none does.
pub open spec fn pred_pos<T>(s: Seq<T>, pred: spec_fn(T) -> bool) -> int
    decreases s.len(),
{
    if s.len() == 0 {
        -1
    } else if pred(s[0]) {
        0
    } else {
        let r = pred_pos(s.drop_first(), pred);
        if r < 0 {
            -1
        } else {
            1 + r
        }
    }
}

/// The first element satisfying `pred`, if any.
pub open spec fn find_pred<T>(s: Seq<T>, pred: spec_fn(T) -> bool) -> Option<T> {
    if pred_pos(s, pred) >= 0 {
        Option::Some(s[pred_pos(s, pred)])
    } else {
        Option::None
    }
}

/// What `pred_pos` returns: -1 when nothing satisfies `pred`, else the
/// first position that does.
pub proof fn lemma_pred_pos<T>(s: Seq<T>, pred: spec_fn(T) -> bool)
    ensures
        pred_pos(s, pred) == -1 || 0 <= pred_pos(s, pred) < s.len(),
        pred_pos(s, pred) == -1 ==> forall|i: int| 0 <= i < s.len() ==> !pred(s[i]),
        pred_pos(s, pred) >= 0 ==> pred(s[pred_pos(s, pred)]),
        forall|i: int| 0 <= i < pred_pos(s, pred) ==> !pred(s[i]),
    decreases s.len(),
{
    if s.len() > 0 && !pred(s[0]) {
        lemma_pred_pos(s.drop_first(), pred);
        assert(forall|i: int| 1 <= i < s.len() ==> s.drop_first()[i - 1] == s[i]);
    }
}

/// A position with the `pred_pos` characterization is `pred_pos`.
pub proof fn lemma_pred_pos_at<T>(s: Seq<T>, pred: spec_fn(T) -> bool, p: int)
    requires
        0 <= p < s.len(),
        pred(s[p]),
        forall|i: int| 0 <= i < p ==> !pred(s[i]),
    ensures
        pred_pos(s, pred) == p,
{
    lemma_pred_pos(s, pred);
    let q = pred_pos(s, pred);
    if q == -1 {
        assert(!pred(s[p]));
    } else if q < p {
        assert(!pred(s[q]));
    } else if p < q {
        assert(!pred(s[p]));
    }
}

} // verus!
