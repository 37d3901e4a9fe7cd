//! Conversion of HTML messages to readable plain text, and extraction of
//! attributes and image references from markup.
//!
//! The conversion handles block elements, strips quoted replies, drops the
//! remaining tags, decodes entities, and tidies whitespace. Each stage is a
//! recursive function over character sequences, and the executable pipeline
//! is proved to compute exactly their composition.

use vstd::prelude::*;
use crate::text::{char_eq, lemma_sub_pos_at, seq_has, str_find_at, str_has, sub_pos};

verus! {

/// Every occurrence of `f` replaced by `t`, scanning left to right.
pub open spec fn spec_replace(s: Seq<char>, f: Seq<char>, t: Seq<char>) -> Seq<char>
    decreases s.len(),
{
    let i = sub_pos(s, f);
    if f.len() == 0 || i < 0 || i + f.len() > s.len() {
        s
    } else {
        s.take(i) + t + spec_replace(s.skip(i + f.len()), f, t)
    }
}

/// Every occurrence of `f` replaced by `t`.
pub fn replace_all(s: &str, f: &str, t: &str) -> (r: String)
    requires
        f@.len() >= 1,
    ensures
        r@ == spec_replace(s@, f@, t@),
{
    let mut out = String::new();
    let mut rest: &str = s;
    proof {
        assert(out@ + spec_replace(rest@, f@, t@) =~= spec_replace(s@, f@, t@));
    }
    loop
        invariant
            out@ + spec_replace(rest@, f@, t@) == spec_replace(s@, f@, t@),
        decreases rest@.len(),
    {
        match str_find_at(rest, f) {
            Option::Some(i) => {
                let fl = f.unicode_len();
                let rl = rest.unicode_len();
                let pre = rest.substring_char(0, i);
                out.append(pre);
                out.append(t);
                proof {
                    assert(rest@.take(i as int) == pre@);
                }
                let ghost prev = rest@;
                rest = rest.substring_char(i + fl, rl);
                proof {
                    assert(rest@ =~= prev.skip(i + fl));
                    assert(out@ + spec_replace(rest@, f@, t@) =~= spec_replace(s@, f@, t@));
                }
            },
            Option::None => {
                out.append(rest);
                proof {
                    assert(out@ =~= spec_replace(s@, f@, t@));
                }
                return out;
            },
        }
    }
}

/// Quoted-reply sections removed: every region from an opening quote tag
/// through its closing tag, repeatedly, stopping at an unmatched opener.
pub open spec fn spec_remove_quotes(s: Seq<char>) -> Seq<char>
    decreases s.len(),
{
    let open_tag = "<blockquote"@;
    let close_tag = "</blockquote>"@;
    let i = sub_pos(s, open_tag);
    if i < 0 {
        s
    } else {
        let j = sub_pos(s.skip(i), close_tag);
        if j < 0 || close_tag.len() == 0 || i + j + close_tag.len() > s.len() {
            s
        } else {
            spec_remove_quotes(s.take(i) + s.skip(i + j + close_tag.len()))
        }
    }
}

/// Remove quoted-reply sections.
pub fn remove_quotes(s: &str) -> (r: String)
    ensures
        r@ == spec_remove_quotes(s@),
{
    let mut cur = String::from_str(s);
    loop
        invariant
            spec_remove_quotes(cur@) == spec_remove_quotes(s@),
        decreases cur@.len(),
    {
        let i = match str_find_at(cur.as_str(), "<blockquote") {
            Option::Some(i) => i,
            Option::None => {
                return cur;
            },
        };
        let n = cur.unicode_len();
        let tail = cur.as_str().substring_char(i, n);
        let j = match str_find_at(tail, "</blockquote>") {
            Option::Some(j) => j,
            Option::None => {
                proof {
                    assert(tail@ == cur@.skip(i as int));
                }
                return cur;
            },
        };
        let cl = "</blockquote>".unicode_len();
        proof {
            assert(tail@ == cur@.skip(i as int));
            reveal_strlit("</blockquote>");
            assert(cl as int == "</blockquote>"@.len());
        }
        let pre = cur.as_str().substring_char(0, i);
        let post = cur.as_str().substring_char(i + j + cl, n);
        let ghost prev = cur@;
        let mut next = String::from_str(pre);
        next.append(post);
        cur = next;
        proof {
            assert(cur@ =~= prev.take(i as int) + prev.skip(i as int + j + cl));
        }
    }
}

/// Every `tag`-opening region removed: from each occurrence of the tag
/// prefix through the next closing angle bracket, stopping at an unmatched
/// prefix.
pub open spec fn spec_remove_open_tags(s: Seq<char>, tag: Seq<char>) -> Seq<char>
    decreases s.len(),
{
    let i = sub_pos(s, tag);
    if tag.len() == 0 || i < 0 {
        s
    } else {
        let j = sub_pos(s.skip(i), seq!['>']);
        if j < 0 || i + j + 1 > s.len() {
            s
        } else {
            spec_remove_open_tags(s.take(i) + s.skip(i + j + 1), tag)
        }
    }
}

/// Remove every `tag`-opening region through its closing bracket.
pub fn remove_open_tags(s: &str, tag: &str) -> (r: String)
    requires
        tag@.len() >= 1,
    ensures
        r@ == spec_remove_open_tags(s@, tag@),
{
    let mut cur = String::from_str(s);
    loop
        invariant
            spec_remove_open_tags(cur@, tag@) == spec_remove_open_tags(s@, tag@),
        decreases cur@.len(),
    {
        let i = match str_find_at(cur.as_str(), tag) {
            Option::Some(i) => i,
            Option::None => {
                return cur;
            },
        };
        let n = cur.unicode_len();
        let tail = cur.as_str().substring_char(i, n);
        let j = match str_find_at(tail, ">") {
            Option::Some(j) => j,
            Option::None => {
                proof {
                    assert(tail@ == cur@.skip(i as int));
                    reveal_strlit(">");
                    assert(">"@ =~= seq!['>']);
                }
                return cur;
            },
        };
        proof {
            assert(tail@ == cur@.skip(i as int));
            reveal_strlit(">");
            assert(">"@ =~= seq!['>']);
        }
        let pre = cur.as_str().substring_char(0, i);
        let post = cur.as_str().substring_char(i + j + 1, n);
        let ghost prev = cur@;
        let mut next = String::from_str(pre);
        next.append(post);
        cur = next;
        proof {
            assert(cur@ =~= prev.take(i as int) + prev.skip(i as int + j + 1));
        }
    }
}

/// The characters outside angle-bracket tags, scanning with an in-tag flag.
pub open spec fn spec_strip_tags(s: Seq<char>, in_tag: bool) -> Seq<char>
    decreases s.len(),
{
    if s.len() == 0 {
        Seq::<char>::empty()
    } else if s[0] == '<' {
        spec_strip_tags(s.drop_first(), true)
    } else if s[0] == '>' {
        spec_strip_tags(s.drop_first(), false)
    } else if !in_tag {
        seq![s[0]] + spec_strip_tags(s.drop_first(), false)
    } else {
        spec_strip_tags(s.drop_first(), true)
    }
}

/// Drop everything between angle brackets.
pub fn strip_tags(s: &str) -> (r: String)
    ensures
        r@ == spec_strip_tags(s@, false),
{
    let n = s.unicode_len();
    let mut out = String::new();
    let mut in_tag = false;
    let mut i: usize = 0;
    proof {
        assert(s@.skip(0) =~= s@);
        assert(out@ + spec_strip_tags(s@.skip(0), false) =~= spec_strip_tags(s@, false));
    }
    while i < n
        invariant
            i <= n,
            n == s@.len(),
            out@ + spec_strip_tags(s@.skip(i as int), in_tag) == spec_strip_tags(s@, false),
        decreases n - i,
    {
        let c = s.get_char(i);
        proof {
            assert(s@.skip(i as int)[0] == s@[i as int]);
            assert(s@.skip(i as int).drop_first() =~= s@.skip(i + 1));
        }
        if char_eq(c, '<') {
            in_tag = true;
        } else if char_eq(c, '>') {
            in_tag = false;
        } else if !in_tag {
            crate::text::push_char(&mut out, c);
        }
        i = i + 1;
        proof {
            assert(out@ + spec_strip_tags(s@.skip(i as int), in_tag) =~= spec_strip_tags(
                s@,
                false,
            ));
        }
    }
    proof {
        assert(s@.skip(n as int) =~= Seq::<char>::empty());
        assert(out@ =~= spec_strip_tags(s@, false));
    }
    out
}

/// A decimal digit.
pub open spec fn is_digit(c: char) -> bool {
    48 <= c as u32 && c as u32 <= 57
}

/// All characters are decimal digits, and there is at least one.
pub open spec fn is_digits(d: Seq<char>) -> bool {
    d.len() > 0 && (forall|i: int| 0 <= i < d.len() ==> is_digit(#[trigger] d[i]))
}

/// The number the digit string denotes.
pub open spec fn digits_val(d: Seq<char>) -> int
    decreases d.len(),
{
    if d.len() == 0 {
        0
    } else {
        digits_val(d.drop_last()) * 10 + (d.last() as u32 - 48)
    }
}

/// A code point a character can carry: not a surrogate, not beyond the
/// last plane.
pub open spec fn is_valid_scalar(code: int) -> bool {
    !(0xD800 <= code <= 0xDFFF) && 0 <= code <= 0x10FFFF
}

/// A numeric character reference body that decodes to a character.
pub open spec fn entity_decodes(num: Seq<char>) -> bool {
    is_digits(num) && digits_val(num) <= u32::MAX && is_valid_scalar(digits_val(num))
}

/// Numeric character references decoded: `&#` followed by digits up to the
/// next semicolon (or the end) becomes the character they denote; a body
/// that does not decode is passed through with a closing semicolon.
pub open spec fn spec_decode_entities(s: Seq<char>) -> Seq<char>
    decreases s.len(),
{
    if s.len() == 0 {
        Seq::<char>::empty()
    } else if s[0] == '&' && s.len() >= 2 && s[1] == '#' {
        let rest = s.skip(2);
        let semi = sub_pos(rest, seq![';']);
        let num = if semi < 0 || semi + 1 > rest.len() {
            rest
        } else {
            rest.take(semi)
        };
        let after = if semi < 0 || semi + 1 > rest.len() {
            Seq::<char>::empty()
        } else {
            rest.skip(semi + 1)
        };
        if entity_decodes(num) {
            seq![(digits_val(num) as u32) as char] + spec_decode_entities(after)
        } else {
            seq!['&', '#'] + num + seq![';'] + spec_decode_entities(after)
        }
    } else {
        seq![s[0]] + spec_decode_entities(s.drop_first())
    }
}

/// Relies on `char::from_u32`: the character with the given code point,
/// or nothing for surrogate code points and values beyond the last plane.
#[verifier::external_body]
fn char_from_u32(code: u32) -> (r: Option<char>)
    ensures
        match r {
            Option::Some(c) => (c as u32) == code,
            Option::None => !is_valid_scalar(code as int),
        },
{
    char::from_u32(code)
}

/// Parse a digit string into a number, refusing overflow.
fn parse_code(d: &str) -> (r: Option<u32>)
    ensures
        match r {
            Option::Some(v) => is_digits(d@) && digits_val(d@) == v as int,
            Option::None => !is_digits(d@) || digits_val(d@) > u32::MAX,
        },
{
    let n = d.unicode_len();
    if n == 0 {
        return Option::None;
    }
    let mut acc: u32 = 0;
    let mut i: usize = 0;
    while i < n
        invariant
            i <= n,
            n == d@.len(),
            is_digits(d@.take(i as int)) || i == 0,
            acc as int == digits_val(d@.take(i as int)),
        decreases n - i,
    {
        let c = d.get_char(i);
        let u: u32 = c as u32;
        proof {
            assert(d@.take(i + 1).drop_last() =~= d@.take(i as int));
            assert(d@.take(i + 1).last() == d@[i as int]);
        }
        if u < 48 || u > 57 {
            proof {
                assert(!is_digit(d@[i as int]));
                assert(!is_digits(d@));
            }
            return Option::None;
        }
        let digit = u - 48;
        if acc > (u32::MAX - digit) / 10 {
            proof {
                assert(digits_val(d@.take(i + 1)) > u32::MAX) by (nonlinear_arith)
                    requires
                        digits_val(d@.take(i + 1)) == digits_val(d@.take(i as int)) * 10 + digit,
                        digits_val(d@.take(i as int)) == acc as int,
                        acc > (u32::MAX - digit) / 10,
                        digit <= 9,
                ;
                lemma_digits_val_grows(d@, i + 1);
            }
            return Option::None;
        }
        proof {
            assert(acc * 10 + digit <= u32::MAX) by (nonlinear_arith)
                requires
                    acc <= (u32::MAX - digit) / 10,
                    digit <= 9,
            ;
        }
        acc = acc * 10 + digit;
        i = i + 1;
    }
    proof {
        assert(d@.take(n as int) =~= d@);
    }
    Option::Some(acc)
}

/// A digit string's value only grows as digits are appended.
proof fn lemma_digits_val_grows(d: Seq<char>, i: int)
    requires
        0 <= i <= d.len(),
        is_digits(d.take(i)),
    ensures
        digits_val(d) >= digits_val(d.take(i)) || !is_digits(d),
    decreases d.len() - i,
{
    if i < d.len() {
        if is_digits(d) {
            assert(d.take(i + 1).drop_last() =~= d.take(i));
            assert(d.take(i + 1).last() == d[i]);
            assert(is_digit(d[i]));
            assert(forall|j: int| 0 <= j < d.take(i).len() ==> is_digit(#[trigger] d.take(i)[j]));
            lemma_digits_val_nonneg(d.take(i));
            assert(digits_val(d.take(i + 1)) >= digits_val(d.take(i))) by (nonlinear_arith)
                requires
                    digits_val(d.take(i + 1)) == digits_val(d.take(i)) * 10 + (d[i] as u32 - 48),
                    digits_val(d.take(i)) >= 0,
                    d[i] as u32 >= 48,
            ;

            assert(is_digits(d.take(i + 1))) by {
                assert(forall|j: int| 0 <= j < i + 1 ==> is_digit(#[trigger] d.take(i + 1)[j]));
            }
            lemma_digits_val_grows(d, i + 1);
        }
    } else {
        assert(d.take(i) =~= d);
    }
}

/// The value of a digit string is non-negative.
proof fn lemma_digits_val_nonneg(d: Seq<char>)
    requires
        forall|i: int| 0 <= i < d.len() ==> is_digit(#[trigger] d[i]),
    ensures
        digits_val(d) >= 0,
    decreases d.len(),
{
    if d.len() > 0 {
        assert(forall|i: int| 0 <= i < d.drop_last().len() ==> d.drop_last()[i] == d[i]);
        lemma_digits_val_nonneg(d.drop_last());
        assert(digits_val(d) >= 0) by (nonlinear_arith)
            requires
                digits_val(d) == digits_val(d.drop_last()) * 10 + (d.last() as u32 - 48),
                digits_val(d.drop_last()) >= 0,
                d.last() as u32 >= 48,
        ;
    }
}

/// Decode numeric character references.
#[verifier::rlimit(50)]
pub fn decode_entities(s: &str) -> (r: String)
    ensures
        r@ == spec_decode_entities(s@),
{
    let n = s.unicode_len();
    let mut out = String::new();
    let mut i: usize = 0;
    proof {
        assert(s@.skip(0) =~= s@);
        assert(out@ + spec_decode_entities(s@.skip(0)) =~= spec_decode_entities(s@));
    }
    while i < n
        invariant
            i <= n,
            n == s@.len(),
            out@ + spec_decode_entities(s@.skip(i as int)) == spec_decode_entities(s@),
        decreases n - i,
    {
        let ghost rem = s@.skip(i as int);
        proof {
            assert(rem[0] == s@[i as int]);
            assert(rem.drop_first() =~= s@.skip(i + 1));
        }
        let c = s.get_char(i);
        if char_eq(c, '&') && i + 1 < n && char_eq(s.get_char(i + 1), '#') {
            proof {
                assert(rem.len() >= 2 && rem[1] == s@[i + 1]);
            }
            // The reference body: digits up to the next semicolon or the end.
            let body_start = i + 2;
            let tail = s.substring_char(body_start, n);
            proof {
                assert(tail@ =~= rem.skip(2));
            }
            let semi = str_find_at(tail, ";");
            proof {
                reveal_strlit(";");
                assert(";"@ =~= seq![';']);
            }
            let (num_end, next_i): (usize, usize) = match semi {
                Option::Some(p) => (body_start + p, body_start + p + 1),
                Option::None => (n, n),
            };
            let num = s.substring_char(body_start, num_end);
            proof {
                let sm = sub_pos(rem.skip(2), seq![';']);
                match semi {
                    Option::Some(p) => {
                        assert(num@ =~= rem.skip(2).take(sm));
                        assert(s@.skip(next_i as int) =~= rem.skip(2).skip(sm + 1));
                    },
                    Option::None => {
                        assert(num@ =~= rem.skip(2));
                        assert(s@.skip(next_i as int) =~= Seq::<char>::empty());
                        assert(spec_decode_entities(Seq::<char>::empty())
                            == Seq::<char>::empty());
                    },
                }
            }
            let decoded: Option<char> = match parse_code(num) {
                Option::Some(code) => char_from_u32(code),
                Option::None => Option::None,
            };
            match decoded {
                Option::Some(ch) => {
                    proof {
                        vstd::utf8::char_u32_cast(ch, ch as u32);
                        assert(entity_decodes(num@)) by {
                            lemma_digits_val_nonneg(num@);
                        }
                        assert(((digits_val(num@) as u32) as char) == ch);
                    }
                    crate::text::push_char(&mut out, ch);
                },
                Option::None => {
                    proof {
                        if is_digits(num@) && digits_val(num@) <= u32::MAX {
                            lemma_digits_val_nonneg(num@);
                        }
                        assert(!entity_decodes(num@));
                    }
                    crate::text::push_char(&mut out, '&');
                    crate::text::push_char(&mut out, '#');
                    out.append(num);
                    crate::text::push_char(&mut out, ';');
                },
            }
            i = next_i;
            proof {
                assert(out@ + spec_decode_entities(s@.skip(i as int)) =~= spec_decode_entities(
                    s@,
                ));
            }
        } else {
            proof {
                if s@[i as int] == '&' && rem.len() >= 2 {
                    assert(rem[1] == s@[i + 1]);
                }
            }
            crate::text::push_char(&mut out, c);
            i = i + 1;
            proof {
                assert(out@ + spec_decode_entities(s@.skip(i as int)) =~= spec_decode_entities(
                    s@,
                ));
            }
        }
    }
    proof {
        assert(s@.skip(n as int) =~= Seq::<char>::empty());
        assert(out@ =~= spec_decode_entities(s@));
    }
    out
}

/// Whitespace-collapsing scan state.
#[derive(Debug, Clone, Copy, PartialEq, Eq, Structural)]
pub enum WsState {
    /// At the start of a line: leading blanks are dropped.
    LineStart,
    /// After a printable character.
    Printable,
    /// After one or more blanks following a printable character: one space
    /// is emitted only if a printable character follows on the same line.
    PendingBlank,
}

/// A space or tab.
pub open spec fn is_blank(c: char) -> bool {
    c == ' ' || c == '\t'
}

/// Collapse runs of blanks to single spaces, drop leading and trailing
/// blanks of every line.
pub open spec fn spec_collapse(s: Seq<char>, st: WsState) -> Seq<char>
    decreases s.len(),
{
    if s.len() == 0 {
        Seq::<char>::empty()
    } else if s[0] == '\n' {
        seq!['\n'] + spec_collapse(s.drop_first(), WsState::LineStart)
    } else if is_blank(s[0]) {
        match st {
            WsState::LineStart => spec_collapse(s.drop_first(), WsState::LineStart),
            _ => spec_collapse(s.drop_first(), WsState::PendingBlank),
        }
    } else {
        match st {
            WsState::PendingBlank => seq![' ', s[0]] + spec_collapse(
                s.drop_first(),
                WsState::Printable,
            ),
            _ => seq![s[0]] + spec_collapse(s.drop_first(), WsState::Printable),
        }
    }
}

/// Collapse runs of blanks and trim every line.
pub fn collapse_ws(s: &str) -> (r: String)
    ensures
        r@ == spec_collapse(s@, WsState::LineStart),
{
    let n = s.unicode_len();
    let mut out = String::new();
    let mut st = WsState::LineStart;
    let mut i: usize = 0;
    proof {
        assert(s@.skip(0) =~= s@);
        assert(out@ + spec_collapse(s@.skip(0), WsState::LineStart) =~= spec_collapse(
            s@,
            WsState::LineStart,
        ));
    }
    while i < n
        invariant
            i <= n,
            n == s@.len(),
            out@ + spec_collapse(s@.skip(i as int), st) == spec_collapse(s@, WsState::LineStart),
        decreases n - i,
    {
        proof {
            assert(s@.skip(i as int)[0] == s@[i as int]);
            assert(s@.skip(i as int).drop_first() =~= s@.skip(i + 1));
        }
        let c = s.get_char(i);
        if char_eq(c, '\n') {
            crate::text::push_char(&mut out, '\n');
            st = WsState::LineStart;
        } else if char_eq(c, ' ') || char_eq(c, '\t') {
            match st {
                WsState::LineStart => {},
                _ => {
                    st = WsState::PendingBlank;
                },
            }
        } else {
            match st {
                WsState::PendingBlank => {
                    crate::text::push_char(&mut out, ' ');
                    crate::text::push_char(&mut out, c);
                },
                _ => {
                    crate::text::push_char(&mut out, c);
                },
            }
            st = WsState::Printable;
        }
        i = i + 1;
        proof {
            assert(out@ + spec_collapse(s@.skip(i as int), st) =~= spec_collapse(
                s@,
                WsState::LineStart,
            ));
        }
    }
    proof {
        assert(s@.skip(n as int) =~= Seq::<char>::empty());
        assert(out@ =~= spec_collapse(s@, WsState::LineStart));
    }
    out
}

/// Whitespace, for the final trim.
pub open spec fn is_ws(c: char) -> bool {
    c == ' ' || c == '\t' || c == '\n' || c == '\r'
}

/// The sequence without leading whitespace.
pub open spec fn spec_trim_front(s: Seq<char>) -> Seq<char>
    decreases s.len(),
{
    if s.len() > 0 && is_ws(s[0]) {
        spec_trim_front(s.drop_first())
    } else {
        s
    }
}

/// The sequence without trailing whitespace.
pub open spec fn spec_trim_back(s: Seq<char>) -> Seq<char>
    decreases s.len(),
{
    if s.len() > 0 && is_ws(s.last()) {
        spec_trim_back(s.drop_last())
    } else {
        s
    }
}

/// The sequence without leading and trailing whitespace.
pub open spec fn spec_trim(s: Seq<char>) -> Seq<char> {
    spec_trim_back(spec_trim_front(s))
}

/// Whether the character at `i` is whitespace.
fn ws_at(s: &str, i: usize) -> (r: bool)
    requires
        i < s@.len(),
    ensures
        r == is_ws(s@[i as int]),
{
    let c = s.get_char(i);
    char_eq(c, ' ') || char_eq(c, '\t') || char_eq(c, '\n') || char_eq(c, '\r')
}

/// Trim leading and trailing whitespace.
pub fn trim_ws(s: &str) -> (r: String)
    ensures
        r@ == spec_trim(s@),
{
    let n = s.unicode_len();
    let mut a: usize = 0;
    proof {
        assert(s@.skip(0) =~= s@);
    }
    while a < n && ws_at(s, a)
        invariant
            a <= n,
            n == s@.len(),
            spec_trim_front(s@.skip(a as int)) == spec_trim_front(s@),
        decreases n - a,
    {
        proof {
            assert(s@.skip(a as int)[0] == s@[a as int]);
            assert(s@.skip(a as int).drop_first() =~= s@.skip(a + 1));
        }
        a = a + 1;
    }
    proof {
        if a < n {
            assert(s@.skip(a as int)[0] == s@[a as int]);
        } else {
            assert(s@.skip(a as int) =~= Seq::<char>::empty());
        }
        assert(spec_trim_front(s@) == s@.skip(a as int));
    }
    let mut b: usize = n;
    proof {
        assert(s@.skip(a as int).take(n - a) =~= s@.skip(a as int));
    }
    while b > a && ws_at(s, b - 1)
        invariant
            a <= b <= n,
            n == s@.len(),
            spec_trim_front(s@) == s@.skip(a as int),
            spec_trim_back(s@.skip(a as int).take(b - a)) == spec_trim_back(s@.skip(a as int)),
        decreases b,
    {
        proof {
            let cur = s@.skip(a as int).take(b - a);
            assert(cur.len() == b - a);
            assert(cur.last() == s@[b - 1]);
            assert(cur.drop_last() =~= s@.skip(a as int).take(b - 1 - a));
        }
        b = b - 1;
    }
    proof {
        let cur = s@.skip(a as int).take(b - a);
        if b > a {
            assert(cur.last() == s@[b - 1]);
            assert(!is_ws(cur.last()));
        }
        assert(spec_trim_back(cur) == cur);
        assert(spec_trim(s@) == s@.skip(a as int).take(b - a));
        assert(s@.subrange(a as int, b as int) =~= s@.skip(a as int).take(b - a));
    }
    let r = s.substring_char(a, b);
    String::from_str(r)
}

/// The value of `attr` inside the first `<tag ...>` region: the text
/// between the quotes of `attr="..."`.
pub open spec fn spec_xml_attr(s: Seq<char>, tag: Seq<char>, attr: Seq<char>) -> Option<
    Seq<char>,
> {
    let t = sub_pos(s, seq!['<'] + tag);
    if t < 0 {
        Option::None
    } else {
        let region = s.skip(t);
        let e = sub_pos(region, seq!['>']);
        if e < 0 {
            Option::None
        } else {
            spec_attr_value(region.take(e + 1), attr)
        }
    }
}

/// The value of `attr="..."` inside a tag's text.
pub open spec fn spec_attr_value(tag_text: Seq<char>, attr: Seq<char>) -> Option<Seq<char>> {
    let needle = attr + seq!['=', '"'];
    let a = sub_pos(tag_text, needle);
    if a < 0 {
        Option::None
    } else {
        let vs = a + needle.len();
        let v = sub_pos(tag_text.skip(vs), seq!['"']);
        if v < 0 {
            Option::None
        } else {
            Option::Some(tag_text.skip(vs).take(v))
        }
    }
}

/// Extract an attribute value from a tag's text.
fn attr_value(tag_text: &str, attr: &str) -> (r: Option<String>)
    ensures
        match r {
            Option::Some(v) => spec_attr_value(tag_text@, attr@) == Option::Some(v@),
            Option::None => spec_attr_value(tag_text@, attr@) is None,
        },
{
    let mut needle = String::from_str(attr);
    needle.append("=\"");
    proof {
        reveal_strlit("=\"");
        assert(needle@ =~= attr@ + seq!['=', '"']);
    }
    let a = match str_find_at(tag_text, needle.as_str()) {
        Option::Some(a) => a,
        Option::None => {
            return Option::None;
        },
    };
    let nl = needle.unicode_len();
    let tl = tag_text.unicode_len();
    let vs = a + nl;
    let tail = tag_text.substring_char(vs, tl);
    proof {
        assert(tail@ =~= tag_text@.skip(vs as int));
        reveal_strlit("\"");
        assert("\""@ =~= seq!['"']);
    }
    let v = match str_find_at(tail, "\"") {
        Option::Some(v) => v,
        Option::None => {
            return Option::None;
        },
    };
    let val = tail.substring_char(0, v);
    proof {
        assert(val@ =~= tag_text@.skip(vs as int).take(v as int));
    }
    Option::Some(String::from_str(val))
}

/// Extract an attribute value from the first `<tag ...>` region, such as
/// the `v` attribute of a `<FileSize v="4096"/>` element.
pub fn extract_xml_attr(html: &str, tag_name: &str, attr_name: &str) -> (r: Option<String>)
    ensures
        match r {
            Option::Some(v) => spec_xml_attr(html@, tag_name@, attr_name@) == Option::Some(v@),
            Option::None => spec_xml_attr(html@, tag_name@, attr_name@) is None,
        },
{
    let mut open_needle = String::from_str("<");
    open_needle.append(tag_name);
    proof {
        reveal_strlit("<");
        assert(open_needle@ =~= seq!['<'] + tag_name@);
    }
    let t = match str_find_at(html, open_needle.as_str()) {
        Option::Some(t) => t,
        Option::None => {
            return Option::None;
        },
    };
    let n = html.unicode_len();
    let region = html.substring_char(t, n);
    proof {
        assert(region@ =~= html@.skip(t as int));
        reveal_strlit(">");
        assert(">"@ =~= seq!['>']);
    }
    let e = match str_find_at(region, ">") {
        Option::Some(e) => e,
        Option::None => {
            return Option::None;
        },
    };
    let rl = region.unicode_len();
    let tag_text = region.substring_char(0, e + 1);
    proof {
        assert(tag_text@ =~= html@.skip(t as int).take(e + 1));
    }
    attr_value(tag_text, attr_name)
}

/// The name a file-attachment element carries, if any: its original-name
/// attribute, else the original name on its metadata element.
pub open spec fn spec_uri_file_name(s: Seq<char>) -> Option<Seq<char>> {
    match spec_xml_attr(s, "OriginalName"@, "v"@) {
        Option::Some(n) => Option::Some(n),
        Option::None => spec_xml_attr(s, "meta"@, "originalName"@),
    }
}

/// The tidy-text pipeline applied after structural removal: strip tags,
/// decode named then numeric entities, and clean the whitespace up.
pub open spec fn spec_text_pipeline(s: Seq<char>) -> Seq<char> {
    let s1 = spec_strip_tags(s, false);
    let s2 = spec_replace(s1, "&amp;"@, "&"@);
    let s3 = spec_replace(s2, "&lt;"@, "<"@);
    let s4 = spec_replace(s3, "&gt;"@, ">"@);
    let s5 = spec_replace(s4, "&quot;"@, "\""@);
    let s6 = spec_replace(s5, "&#39;"@, "'"@);
    let s7 = spec_replace(s6, "&nbsp;"@, " "@);
    let s8 = spec_decode_entities(s7);
    spec_trim(spec_collapse(s8, WsState::LineStart))
}

/// The structural stage: quoted replies removed, block-level closers
/// turned into line breaks, block-level openers dropped.
pub open spec fn spec_structure_pipeline(s: Seq<char>) -> Seq<char> {
    let s1 = spec_remove_quotes(s);
    let s2 = spec_replace(s1, "<br>"@, "\n"@);
    let s3 = spec_replace(s2, "<br/>"@, "\n"@);
    let s4 = spec_replace(s3, "<br />"@, "\n"@);
    let s5 = spec_replace(s4, "</p>"@, "\n"@);
    let s6 = spec_replace(s5, "</div>"@, "\n"@);
    let s7 = spec_replace(s6, "</li>"@, "\n"@);
    let s8 = spec_remove_open_tags(s7, "<p"@);
    let s9 = spec_remove_open_tags(s8, "<div"@);
    spec_remove_open_tags(s9, "<li"@)
}

/// What converting an HTML message to plain text returns: a file
/// attachment is summarized by its name and size; anything else runs
/// through the structural and tidy-text pipelines.
pub open spec fn spec_strip_html(s: Seq<char>) -> Seq<char> {
    if seq_has(s, "<URIObject"@) && spec_uri_file_name(s) is Some {
        let name = spec_uri_file_name(s).unwrap();
        let size_part = match spec_xml_attr(s, "FileSize"@, "v"@) {
            Option::Some(sz) => " ("@ + sz + " bytes)"@,
            Option::None => Seq::<char>::empty(),
        };
        "[file: "@ + name + size_part + "]"@
    } else {
        spec_text_pipeline(spec_structure_pipeline(s))
    }
}

/// Convert an HTML message to readable plain text.
///
/// Handles block elements, strips quoted replies, decodes entities, and
/// collapses whitespace; a file-attachment payload is summarized as
/// `[file: name (size bytes)]` instead.
pub fn strip_html(html: &str) -> (r: String)
    ensures
        r@ == spec_strip_html(html@),
{
    if str_has(html, "<URIObject") {
        let file_name = match extract_xml_attr(html, "OriginalName", "v") {
            Option::Some(n) => Option::Some(n),
            Option::None => extract_xml_attr(html, "meta", "originalName"),
        };
        match file_name {
            Option::Some(name) => {
                let mut out = String::from_str("[file: ");
                out.append(name.as_str());
                match extract_xml_attr(html, "FileSize", "v") {
                    Option::Some(sz) => {
                        out.append(" (");
                        out.append(sz.as_str());
                        out.append(" bytes)");
                    },
                    Option::None => {},
                }
                out.append("]");
                return out;
            },
            Option::None => {},
        }
    }
    proof {
        reveal_strlit("<br>");
        reveal_strlit("<br/>");
        reveal_strlit("<br />");
        reveal_strlit("</p>");
        reveal_strlit("</div>");
        reveal_strlit("</li>");
        reveal_strlit("<p");
        reveal_strlit("<div");
        reveal_strlit("<li");
        reveal_strlit("&amp;");
        reveal_strlit("&lt;");
        reveal_strlit("&gt;");
        reveal_strlit("&quot;");
        reveal_strlit("&#39;");
        reveal_strlit("&nbsp;");
    }
    let s1 = remove_quotes(html);
    let s2 = replace_all(s1.as_str(), "<br>", "\n");
    let s3 = replace_all(s2.as_str(), "<br/>", "\n");
    let s4 = replace_all(s3.as_str(), "<br />", "\n");
    let s5 = replace_all(s4.as_str(), "</p>", "\n");
    let s6 = replace_all(s5.as_str(), "</div>", "\n");
    let s7 = replace_all(s6.as_str(), "</li>", "\n");
    let s8 = remove_open_tags(s7.as_str(), "<p");
    let s9 = remove_open_tags(s8.as_str(), "<div");
    let s10 = remove_open_tags(s9.as_str(), "<li");
    let s11 = strip_tags(s10.as_str());
    let s12 = replace_all(s11.as_str(), "&amp;", "&");
    let s13 = replace_all(s12.as_str(), "&lt;", "<");
    let s14 = replace_all(s13.as_str(), "&gt;", ">");
    let s15 = replace_all(s14.as_str(), "&quot;", "\"");
    let s16 = replace_all(s15.as_str(), "&#39;", "'");
    let s17 = replace_all(s16.as_str(), "&nbsp;", " ");
    let s18 = decode_entities(s17.as_str());
    let s19 = collapse_ws(s18.as_str());
    trim_ws(s19.as_str())
}

/// The image sources the markup references: the `src` of every
/// service-hosted inline image element, skipping emoji assets.
pub open spec fn spec_image_urls(s: Seq<char>) -> Seq<Seq<char>>
    decreases s.len(),
{
    let i = sub_pos(s, "<img "@);
    if i < 0 || "<img "@.len() == 0 {
        Seq::<Seq<char>>::empty()
    } else {
        let region = s.skip(i);
        let e = sub_pos(region, seq!['>']);
        if e < 0 || i + e + 1 > s.len() {
            Seq::<Seq<char>>::empty()
        } else {
            let tag = region.take(e + 1);
            let rest = spec_image_urls(region.skip(e + 1));
            if seq_has(tag, "AMSImage"@) && (match spec_attr_value(tag, "src"@) {
                Option::Some(src) => !seq_has(src, "statics.teams.cdn.office.net"@),
                Option::None => false,
            }) {
                seq![spec_attr_value(tag, "src"@).unwrap()] + rest
            } else {
                rest
            }
        }
    }
}

/// Views of a list of strings.
pub open spec fn string_views(v: Seq<String>) -> Seq<Seq<char>> {
    v.map_values(|s: String| s@)
}

/// Extract the service-hosted inline image URLs from HTML content,
/// skipping emoji assets.
pub fn extract_image_urls(html: &str) -> (r: Vec<String>)
    ensures
        string_views(r@) == spec_image_urls(html@),
{
    let mut out: Vec<String> = Vec::new();
    let mut rest = String::from_str(html);
    proof {
        assert(string_views(out@) =~= Seq::<Seq<char>>::empty());
    }
    loop
        invariant
            string_views(out@) + spec_image_urls(rest@) == spec_image_urls(html@),
        decreases rest@.len(),
    {
        let i = match str_find_at(rest.as_str(), "<img ") {
            Option::Some(i) => i,
            Option::None => {
                proof {
                    assert(string_views(out@) =~= spec_image_urls(html@));
                }
                return out;
            },
        };
        let n = rest.unicode_len();
        let region = rest.as_str().substring_char(i, n);
        proof {
            assert(region@ =~= rest@.skip(i as int));
            reveal_strlit(">");
            assert(">"@ =~= seq!['>']);
            reveal_strlit("<img ");
        }
        let e = match str_find_at(region, ">") {
            Option::Some(e) => e,
            Option::None => {
                proof {
                    assert(string_views(out@) =~= spec_image_urls(html@));
                }
                return out;
            },
        };
        let rl = region.unicode_len();
        let tag = region.substring_char(0, e + 1);
        proof {
            assert(tag@ =~= rest@.skip(i as int).take(e + 1));
        }
        let keep = if str_has(tag, "AMSImage") {
            match attr_value(tag, "src") {
                Option::Some(src) => {
                    if !str_has(src.as_str(), "statics.teams.cdn.office.net") {
                        let ghost o0 = out@;
                        proof {
                            assert(spec_attr_value(tag@, "src"@) == Option::Some(src@));
                        }
                        out.push(src);
                        proof {
                            assert(string_views(out@) =~= string_views(o0).push(
                                spec_attr_value(tag@, "src"@).unwrap(),
                            ));
                        }
                        true
                    } else {
                        false
                    }
                },
                Option::None => false,
            }
        } else {
            false
        };
        let ghost prev = rest@;
        let next = region.substring_char(e + 1, rl);
        rest = String::from_str(next);
        proof {
            assert(rest@ =~= prev.skip(i as int).skip(e + 1));
            assert(string_views(out@) + spec_image_urls(rest@) =~= spec_image_urls(html@));
        }
    }
}

} // verus!
