//! Character and string primitives: case folding, substring search,
//! prefix tests and lexicographic order on character sequences.
//!
//! Two foldings live here. The cache's name lookups fold only ASCII
//! letters, the folding the store's case-insensitive collation applies;
//! the alias table and the interactive filter fold the full character
//! set through [`to_lower`], whose result carries the name [`lower_of`].

use vstd::prelude::*;

verus! {

/// Relies on `String::push`: appends one character to the string.
#[verifier::external_body]
pub(crate) fn push_char(s: &mut String, c: char)
    ensures
        final(s)@ == old(s)@ + seq![c],
{
    s.push(c);
}

/// ASCII lower-casing of one character.
pub open spec fn fold_char(c: char) -> char {
    if 65 <= c as u32 && c as u32 <= 90 {
        (((c as u8) + 32) as char)
    } else {
        c
    }
}

/// What full lower-casing of a string returns; the result depends on the
/// characters alone.
pub uninterp spec fn lower_of(s: Seq<char>) -> Seq<char>;

/// Relies on `str::to_lowercase`: full lower-casing of every character,
/// a function of the characters alone.
#[verifier::external_body]
pub fn to_lower(s: &str) -> (r: String)
    ensures
        r@ == lower_of(s@),
{
    s.to_lowercase()
}

/// The needle `n` occurs in `h` at position `i`, comparing characters exactly.
pub open spec fn match_at(h: Seq<char>, n: Seq<char>, i: int) -> bool {
    forall|j: int| 0 <= j < n.len() ==> h[i + j] == n[j]
}

/// The needle `n` occurs somewhere in `h`, comparing characters exactly.
pub open spec fn seq_has(h: Seq<char>, n: Seq<char>) -> bool {
    exists|i: int| 0 <= i && i + n.len() <= h.len() && match_at(h, n, i)
}

/// The needle `n` occurs in `h` at position `i`, up to ASCII case.
pub open spec fn match_ci_at(h: Seq<char>, n: Seq<char>, i: int) -> bool {
    forall|j: int| 0 <= j < n.len() ==> fold_char(h[i + j]) == fold_char(n[j])
}

/// The needle `n` occurs somewhere in `h`, up to ASCII case.
pub open spec fn seq_has_ci(h: Seq<char>, n: Seq<char>) -> bool {
    exists|i: int| 0 <= i && i + n.len() <= h.len() && match_ci_at(h, n, i)
}

/// `p` is a prefix of `s`.
pub open spec fn is_prefix(p: Seq<char>, s: Seq<char>) -> bool {
    p.len() <= s.len() && (forall|j: int| 0 <= j < p.len() ==> s[j] == p[j])
}

/// Lexicographic order on character sequences by code point, the order the
/// cache sorts ISO-8601 timestamp strings with.
pub open spec fn lex_lt(a: Seq<char>, b: Seq<char>) -> bool
    decreases a.len(),
{
    if b.len() == 0 {
        false
    } else if a.len() == 0 {
        true
    } else if a[0] != b[0] {
        (a[0] as u32) < (b[0] as u32)
    } else {
        lex_lt(a.drop_first(), b.drop_first())
    }
}

/// Equality of two characters, decided through their code points.
pub fn char_eq(c1: char, c2: char) -> (r: bool)
    ensures
        r == (c1 == c2),
{
    let r = (c1 as u32) == (c2 as u32);
    proof {
        if r {
            vstd::utf8::char_u32_cast(c1, c1 as u32);
            vstd::utf8::char_u32_cast(c2, c1 as u32);
        }
    }
    r
}

/// ASCII lower-casing of one character.
pub fn fold_char_exec(c: char) -> (r: char)
    ensures
        r == fold_char(c),
{
    let u: u32 = c as u32;
    if 65 <= u && u <= 90 {
        ((c as u8) + 32) as char
    } else {
        c
    }
}

/// Exact string equality.
pub fn str_eq(a: &str, b: &str) -> (r: bool)
    ensures
        r == (a@ == b@),
{
    let al = a.unicode_len();
    let bl = b.unicode_len();
    if al != bl {
        return false;
    }
    let mut i: usize = 0;
    while i < al
        invariant
            al == a@.len(),
            al == b@.len(),
            i <= al,
            forall|j: int| 0 <= j < i ==> a@[j] == b@[j],
        decreases al - i,
    {
        if !char_eq(a.get_char(i), b.get_char(i)) {
            return false;
        }
        i = i + 1;
    }
    proof {
        assert(a@ =~= b@);
    }
    true
}

/// The needle occurs in the haystack at position `i`, comparing exactly.
fn match_here(h: &str, n: &str, i: usize) -> (r: bool)
    requires
        i + n@.len() <= h@.len(),
        h@.len() <= usize::MAX,
    ensures
        r == match_at(h@, n@, i as int),
{
    let nl = n.unicode_len();
    let mut j: usize = 0;
    while j < nl
        invariant
            nl == n@.len(),
            i + nl <= h@.len(),
            h@.len() <= usize::MAX,
            j <= nl,
            forall|t: int| 0 <= t < j ==> h@[i + t] == n@[t],
        decreases nl - j,
    {
        if !char_eq(h.get_char(i + j), n.get_char(j)) {
            return false;
        }
        j = j + 1;
    }
    true
}

/// The needle occurs in the haystack at position `i`, up to ASCII case.
fn match_ci_here(h: &str, n: &str, i: usize) -> (r: bool)
    requires
        i + n@.len() <= h@.len(),
        h@.len() <= usize::MAX,
    ensures
        r == match_ci_at(h@, n@, i as int),
{
    let nl = n.unicode_len();
    let mut j: usize = 0;
    while j < nl
        invariant
            nl == n@.len(),
            i + nl <= h@.len(),
            h@.len() <= usize::MAX,
            j <= nl,
            forall|t: int| 0 <= t < j ==> fold_char(h@[i + t]) == fold_char(n@[t]),
        decreases nl - j,
    {
        if !char_eq(fold_char_exec(h.get_char(i + j)), fold_char_exec(n.get_char(j))) {
            return false;
        }
        j = j + 1;
    }
    true
}

/// Case-sensitive substring test.
pub fn str_has(h: &str, n: &str) -> (r: bool)
    ensures
        r == seq_has(h@, n@),
{
    match str_find(h, n) {
        Option::Some(_) => true,
        Option::None => false,
    }
}

/// First position at which the needle occurs, comparing exactly.
pub fn str_find(h: &str, n: &str) -> (r: Option<usize>)
    ensures
        match r {
            Option::Some(i) => {
                &&& i + n@.len() <= h@.len()
                &&& match_at(h@, n@, i as int)
                &&& forall|k: int| 0 <= k < i ==> !match_at(h@, n@, k)
            },
            Option::None => !seq_has(h@, n@),
        },
{
    let hl = h.unicode_len();
    let nl = n.unicode_len();
    if nl > hl {
        return Option::None;
    }
    let mut i: usize = 0;
    while i <= hl - nl
        invariant
            hl == h@.len(),
            nl == n@.len(),
            nl <= hl,
            i <= hl - nl + 1,
            forall|k: int| 0 <= k < i ==> !match_at(h@, n@, k),
        decreases hl - nl - i + 1,
    {
        if match_here(h, n, i) {
            return Option::Some(i);
        }
        i = i + 1;
    }
    Option::None
}

/// Case-insensitive substring test (ASCII folding).
pub fn str_has_ci(h: &str, n: &str) -> (r: bool)
    ensures
        r == seq_has_ci(h@, n@),
{
    let hl = h.unicode_len();
    let nl = n.unicode_len();
    if nl > hl {
        return false;
    }
    let mut i: usize = 0;
    while i <= hl - nl
        invariant
            hl == h@.len(),
            nl == n@.len(),
            nl <= hl,
            i <= hl - nl + 1,
            forall|k: int| 0 <= k < i ==> !match_ci_at(h@, n@, k),
        decreases hl - nl - i + 1,
    {
        if match_ci_here(h, n, i) {
            proof {
                assert(0 <= i as int && i as int + n@.len() <= h@.len() && match_ci_at(
                    h@,
                    n@,
                    i as int,
                ));
            }
            return true;
        }
        i = i + 1;
    }
    false
}

/// Prefix test.
pub fn str_starts_with(s: &str, p: &str) -> (r: bool)
    ensures
        r == is_prefix(p@, s@),
{
    let sl = s.unicode_len();
    let pl = p.unicode_len();
    if pl > sl {
        return false;
    }
    match_here(s, p, 0)
}

/// Skipping an equal prefix does not change the lexicographic order.
proof fn lemma_lex_skip(a: Seq<char>, b: Seq<char>, i: int)
    requires
        0 <= i <= a.len(),
        i <= b.len(),
        forall|j: int| 0 <= j < i ==> a[j] == b[j],
    ensures
        lex_lt(a, b) == lex_lt(a.skip(i), b.skip(i)),
    decreases i,
{
    if i > 0 {
        assert(a.drop_first().skip(i - 1) =~= a.skip(i));
        assert(b.drop_first().skip(i - 1) =~= b.skip(i));
        lemma_lex_skip(a.drop_first(), b.drop_first(), i - 1);
    } else {
        assert(a.skip(0) =~= a);
        assert(b.skip(0) =~= b);
    }
}

/// Lexicographic comparison of two strings by code point.
pub fn str_lex_lt(a: &str, b: &str) -> (r: bool)
    ensures
        r == lex_lt(a@, b@),
{
    let al = a.unicode_len();
    let bl = b.unicode_len();
    let mut i: usize = 0;
    while i < al && i < bl
        invariant
            al == a@.len(),
            bl == b@.len(),
            i <= al,
            i <= bl,
            forall|j: int| 0 <= j < i ==> a@[j] == b@[j],
        decreases al - i,
    {
        let ca = a.get_char(i);
        let cb = b.get_char(i);
        if !char_eq(ca, cb) {
            proof {
                lemma_lex_skip(a@, b@, i as int);
            }
            return (ca as u32) < (cb as u32);
        }
        i = i + 1;
    }
    proof {
        lemma_lex_skip(a@, b@, i as int);
    }
    i == al && i < bl
}


/// Position of the first occurrence of `n` in `h`, or -1 if none.
pub open spec fn sub_pos(h: Seq<char>, n: Seq<char>) -> int
    decreases h.len(),
{
    if n.len() > h.len() {
        -1
    } else if match_at(h, n, 0) {
        0
    } else if h.len() == n.len() {
        -1
    } else {
        let r = sub_pos(h.drop_first(), n);
        if r < 0 {
            -1
        } else {
            1 + r
        }
    }
}

/// What `sub_pos` returns: -1 when the needle does not occur, else the
/// first position where it does.
pub proof fn lemma_sub_pos(h: Seq<char>, n: Seq<char>)
    ensures
        sub_pos(h, n) == -1 ==> !seq_has(h, n),
        sub_pos(h, n) >= 0 ==> sub_pos(h, n) + n.len() <= h.len() && match_at(h, n, sub_pos(h, n)),
        forall|i: int| 0 <= i < sub_pos(h, n) ==> !match_at(h, n, i),
        sub_pos(h, n) == -1 ==> forall|i: int| 0 <= i && i + n.len() <= h.len() ==> !match_at(h, n, i),
    decreases h.len(),
{
    if n.len() > h.len() {
        assert forall|i: int| 0 <= i && i + n.len() <= h.len() implies !match_at(h, n, i) by {
        }
        if seq_has(h, n) {
            let i = choose|i: int| 0 <= i && i + n.len() <= h.len() && match_at(h, n, i);
            assert(!match_at(h, n, i));
        }
    } else if match_at(h, n, 0) {
    } else if h.len() == n.len() {
        assert forall|i: int| 0 <= i && i + n.len() <= h.len() implies !match_at(h, n, i) by {
            assert(i == 0);
        }
        if seq_has(h, n) {
            let i = choose|i: int| 0 <= i && i + n.len() <= h.len() && match_at(h, n, i);
            assert(!match_at(h, n, i));
        }
    } else {
        lemma_sub_pos(h.drop_first(), n);
        let hd = h.drop_first();
        assert(forall|i: int| 0 <= i < hd.len() ==> hd[i] == h[i + 1]);
        assert forall|i: int| 1 <= i && i + n.len() <= h.len() implies match_at(h, n, i)
            == match_at(hd, n, i - 1) by {
            if match_at(h, n, i) {
                assert forall|j: int| 0 <= j < n.len() implies hd[i - 1 + j] == n[j] by {
                    assert(h[i + j] == n[j]);
                }
            }
            if match_at(hd, n, i - 1) {
                assert forall|j: int| 0 <= j < n.len() implies h[i + j] == n[j] by {
                    assert(hd[i - 1 + j] == n[j]);
                }
            }
        }
        let r = sub_pos(hd, n);
        if r < 0 {
            assert forall|i: int| 0 <= i && i + n.len() <= h.len() implies !match_at(h, n, i) by {
                if i == 0 {
                } else {
                    assert(!match_at(hd, n, i - 1));
                }
            }
            if seq_has(h, n) {
                let i = choose|i: int| 0 <= i && i + n.len() <= h.len() && match_at(h, n, i);
                assert(!match_at(h, n, i));
            }
        } else {
            assert(match_at(h, n, r + 1));
            assert forall|i: int| 0 <= i < r + 1 implies !match_at(h, n, i) by {
                if i > 0 {
                    assert(!match_at(hd, n, i - 1));
                }
            }
        }
    }
}

/// A position with the `sub_pos` characterization is `sub_pos`.
pub proof fn lemma_sub_pos_at(h: Seq<char>, n: Seq<char>, p: int)
    requires
        0 <= p,
        p + n.len() <= h.len(),
        match_at(h, n, p),
        forall|i: int| 0 <= i < p ==> !match_at(h, n, i),
    ensures
        sub_pos(h, n) == p,
{
    lemma_sub_pos(h, n);
    let q = sub_pos(h, n);
    if q == -1 {
        assert(!match_at(h, n, p));
    } else if q < p {
        assert(!match_at(h, n, q));
    } else if p < q {
        assert(!match_at(h, n, p));
    }
}

/// First occurrence of a needle, as `sub_pos` tells it.
pub fn str_find_at(h: &str, n: &str) -> (r: Option<usize>)
    ensures
        match r {
            Option::Some(i) => sub_pos(h@, n@) == i as int && i + n@.len() <= h@.len(),
            Option::None => sub_pos(h@, n@) == -1,
        },
{
    let r = str_find(h, n);
    proof {
        match r {
            Option::Some(i) => {
                lemma_sub_pos_at(h@, n@, i as int);
            },
            Option::None => {
                lemma_sub_pos(h@, n@);
                if sub_pos(h@, n@) >= 0 {
                    assert(match_at(h@, n@, sub_pos(h@, n@)));
                    assert(seq_has(h@, n@));
                }
            },
        }
    }
    r
}

} // verus!
