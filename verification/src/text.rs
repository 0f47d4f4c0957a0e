//! Character-level text operations on which the rest of the library is
//! built: substitution of every occurrence of a pattern and joining with a
//! separator, the standard library's case mappings, and what replacing a
//! placeholder keeps of the text around it.

use vstd::prelude::*;

verus! {

/// `s` with every non-overlapping occurrence of `pat` replaced by `rep`,
/// matches taken from left to right (the semantics of `str::replace`).
/// An empty pattern leaves `s` unchanged here; callers never use one.
pub open spec fn replaced(s: Seq<char>, pat: Seq<char>, rep: Seq<char>) -> Seq<char>
    decreases s.len(),
{
    if s.len() == 0 || pat.len() == 0 {
        s
    } else if pat.len() <= s.len() && s.take(pat.len() as int) == pat {
        rep + replaced(s.skip(pat.len() as int), pat, rep)
    } else {
        seq![s[0]] + replaced(s.skip(1), pat, rep)
    }
}

/// Whether `t` occurs in `s` as a contiguous piece.
pub open spec fn has_substring(s: Seq<char>, t: Seq<char>) -> bool {
    exists|i: int| 0 <= i && i + t.len() <= s.len() && #[trigger] s.subrange(i, i + t.len()) == t
}

/// A piece of `t` is a piece of `a + t`.
pub proof fn lemma_substring_after(a: Seq<char>, t: Seq<char>, x: Seq<char>)
    requires
        has_substring(t, x),
    ensures
        has_substring(a + t, x),
{
    let i = choose|i: int| 0 <= i && i + x.len() <= t.len() && #[trigger] t.subrange(i, i + x.len()) == x;
    assert((a + t).subrange(a.len() + i, a.len() + i + x.len()) =~= t.subrange(i, i + x.len()));
}

/// Whether `s` holds the character `c`.
pub open spec fn has_char(s: Seq<char>, c: char) -> bool {
    exists|i: int| 0 <= i < s.len() && s[i] == c
}

/// Whether `p` has the shape of a template placeholder: it begins and ends
/// with `@` and has no other `@`.
pub open spec fn is_placeholder(p: Seq<char>) -> bool {
    &&& p.len() >= 2
    &&& p[0] == '@'
    &&& p[p.len() - 1] == '@'
    &&& forall|i: int| 0 < i < p.len() - 1 ==> p[i] != '@'
}

/// Text without `@` holds no occurrence of a pattern that begins with `@`,
/// so replacing passes over it unchanged.
pub proof fn lemma_replaced_passes_plain_text(x: Seq<char>, v: Seq<char>, p: Seq<char>, r: Seq<char>)
    requires
        p.len() > 0,
        p[0] == '@',
        !has_char(x, '@'),
    ensures
        replaced(x + v, p, r) == x + replaced(v, p, r),
    decreases x.len(),
{
    if x.len() > 0 {
        let s = x + v;
        assert(!(p.len() <= s.len() && s.take(p.len() as int) == p)) by {
            if p.len() <= s.len() && s.take(p.len() as int) == p {
                assert(s[0] == x[0]);
                assert(s.take(p.len() as int)[0] == p[0]);
                assert(has_char(x, '@'));
            }
        }
        assert(s.skip(1) =~= x.skip(1) + v);
        assert(!has_char(x.skip(1), '@')) by {
            if has_char(x.skip(1), '@') {
                let i = choose|i: int| 0 <= i < x.skip(1).len() && x.skip(1)[i] == '@';
                assert(x[i + 1] == '@');
            }
        }
        lemma_replaced_passes_plain_text(x.skip(1), v, p, r);
        assert(x + replaced(v, p, r) =~= seq![x[0]] + (x.skip(1) + replaced(v, p, r)));
    }
}

/// Replacing a placeholder keeps every piece of text that holds no `@` and
/// holds a character that the placeholder lacks: no occurrence of the
/// placeholder can overlap such a piece.
pub proof fn lemma_replaced_keeps_piece(
    u: Seq<char>,
    x: Seq<char>,
    v: Seq<char>,
    p: Seq<char>,
    r: Seq<char>,
    c: char,
)
    requires
        is_placeholder(p),
        !has_char(x, '@'),
        has_char(x, c),
        !has_char(p, c),
    ensures
        has_substring(replaced(u + x + v, p, r), x),
    decreases u.len(),
{
    let s = u + x + v;
    if u.len() == 0 {
        assert(s =~= x + v);
        lemma_replaced_passes_plain_text(x, v, p, r);
        assert((x + replaced(v, p, r)).subrange(0int, 0int + x.len()) =~= x);
    } else if p.len() <= s.len() && s.take(p.len() as int) == p {
        if p.len() > u.len() {
            let last = p.len() - 1;
            if last < u.len() + x.len() {
                assert(s[last] == x[last - u.len()]);
                assert(s.take(p.len() as int)[last] == p[last]);
                assert(has_char(x, '@'));
            } else {
                let j = choose|j: int| 0 <= j < x.len() && x[j] == c;
                assert(s[u.len() + j] == x[j]);
                assert(s.take(p.len() as int)[u.len() + j] == p[u.len() + j]);
                assert(has_char(p, c));
            }
        }
        assert(s.skip(p.len() as int) =~= u.skip(p.len() as int) + x + v);
        lemma_replaced_keeps_piece(u.skip(p.len() as int), x, v, p, r, c);
        lemma_substring_after(r, replaced(s.skip(p.len() as int), p, r), x);
    } else {
        assert(s.skip(1) =~= u.skip(1) + x + v);
        lemma_replaced_keeps_piece(u.skip(1), x, v, p, r, c);
        lemma_substring_after(seq![s[0]], replaced(s.skip(1), p, r), x);
    }
}

/// Replacing a placeholder `p` in `u + p + m + p + v`, where `m` holds no
/// `@` and `u` does not end with all of `p` but its last `@`, gives text
/// that holds `r + m + r`.
pub proof fn lemma_replaced_pair(
    u: Seq<char>,
    m: Seq<char>,
    v: Seq<char>,
    p: Seq<char>,
    r: Seq<char>,
)
    requires
        is_placeholder(p),
        !has_char(m, '@'),
        u.len() == 0 || u[u.len() - 1] != p[p.len() - 2],
    ensures
        has_substring(replaced(u + p + m + p + v, p, r), r + m + r),
    decreases u.len(),
{
    let s = u + p + m + p + v;
    if u.len() == 0 {
        assert(s =~= p + (m + p + v));
        assert(s.take(p.len() as int) =~= p);
        assert(s.skip(p.len() as int) =~= m + (p + v));
        lemma_replaced_passes_plain_text(m, p + v, p, r);
        let w = p + v;
        assert(w.take(p.len() as int) =~= p);
        assert(w.skip(p.len() as int) =~= v);
        assert(replaced(w, p, r) == r + replaced(v, p, r));
        let out = r + (m + (r + replaced(v, p, r)));
        assert(replaced(s, p, r) == out);
        assert(out.subrange(0int, 0int + (r + m + r).len()) =~= r + m + r);
    } else if p.len() <= s.len() && s.take(p.len() as int) == p {
        if p.len() > u.len() {
            assert(s[u.len() as int] == p[0]);
            assert(s.take(p.len() as int)[u.len() as int] == p[u.len() as int]);
            assert(u.len() == p.len() - 1);
            assert(s[u.len() - 1] == u[u.len() - 1]);
            assert(s.take(p.len() as int)[u.len() - 1] == p[u.len() - 1]);
        }
        assert(s.skip(p.len() as int) =~= u.skip(p.len() as int) + p + m + p + v);
        lemma_replaced_pair(u.skip(p.len() as int), m, v, p, r);
        lemma_substring_after(r, replaced(s.skip(p.len() as int), p, r), r + m + r);
    } else {
        assert(s.skip(1) =~= u.skip(1) + p + m + p + v);
        lemma_replaced_pair(u.skip(1), m, v, p, r);
        lemma_substring_after(seq![s[0]], replaced(s.skip(1), p, r), r + m + r);
    }
}

/// Replacing every `c` by another character leaves no `c` behind.
pub proof fn lemma_replaced_char_leaves_none(s: Seq<char>, c: char, d: char)
    requires
        c != d,
    ensures
        !replaced(s, seq![c], seq![d]).contains(c),
    decreases s.len(),
{
    if s.len() > 0 {
        lemma_replaced_char_leaves_none(s.skip(1), c, d);
        let rest = replaced(s.skip(1), seq![c], seq![d]);
        if s.take(1) == seq![c] {
            assert(replaced(s, seq![c], seq![d]) == seq![d] + rest);
        } else {
            assert(s[0] != c) by {
                if s[0] == c {
                    assert(s.take(1) =~= seq![c]);
                }
            }
            assert(replaced(s, seq![c], seq![d]) == seq![s[0]] + rest);
        }
        assert forall|i: int| 0 <= i < replaced(s, seq![c], seq![d]).len() implies replaced(
            s,
            seq![c],
            seq![d],
        )[i] != c by {
            if i > 0 {
                assert(replaced(s, seq![c], seq![d])[i] == rest[i - 1]);
            }
        }
    }
}

/// `s` with every character `c` replaced by `d`, one character for one.
pub open spec fn swap_char(s: Seq<char>, c: char, d: char) -> Seq<char> {
    s.map_values(|x: char| if x == c { d } else { x })
}

/// Replacing a one-character pattern by one character swaps that character
/// wherever it occurs.
pub proof fn lemma_replaced_char(s: Seq<char>, c: char, d: char)
    ensures
        replaced(s, seq![c], seq![d]) == swap_char(s, c, d),
    decreases s.len(),
{
    if s.len() > 0 {
        lemma_replaced_char(s.skip(1), c, d);
        let rest = replaced(s.skip(1), seq![c], seq![d]);
        assert(swap_char(s, c, d) =~= seq![if s[0] == c { d } else { s[0] }] + swap_char(
            s.skip(1),
            c,
            d,
        ));
        if s.take(1) == seq![c] {
            assert(s[0] == c) by {
                assert(s.take(1)[0] == s[0]);
            }
            assert(replaced(s, seq![c], seq![d]) == seq![d] + rest);
        } else {
            assert(s[0] != c) by {
                if s[0] == c {
                    assert(s.take(1) =~= seq![c]);
                }
            }
            assert(replaced(s, seq![c], seq![d]) == seq![s[0]] + rest);
        }
    }
}

/// The characters of `s`, in order.
pub(crate) fn chars_of(s: &str) -> (res: Vec<char>)
    ensures
        res@ == s@,
{
    broadcast use vstd::string::axiom_spec_iter;
    let mut out: Vec<char> = Vec::new();
    for c in it: s.chars()
        invariant
            it.seq() == s@,
            out@ == it.seq().take(it.index()),
    {
        let ghost before = out@;
        out.push(c);
        assert(out@ =~= it.seq().take(it.index() + 1)) by {
            assert(before =~= it.seq().take(it.index()));
        }
    }
    assert(out@ =~= s@);
    out
}

/// Whether two string slices hold the same characters.
pub(crate) fn str_eq(a: &str, b: &str) -> (res: bool)
    ensures
        res == (a@ == b@),
{
    a.to_owned() == b.to_owned()
}

/// The string made of the characters of `v`, in order.
#[verifier::external_body]
pub(crate) fn string_of(v: &Vec<char>) -> (res: String)
    ensures
        res@ == v@,
{
    v.iter().collect()
}

/// Appends the characters of `src` to `out`.
pub(crate) fn push_all(out: &mut Vec<char>, src: &Vec<char>)
    ensures
        final(out)@ == old(out)@ + src@,
{
    let ghost start = out@;
    let mut k: usize = 0;
    while k < src.len()
        invariant
            k <= src@.len(),
            out@ == start + src@.take(k as int),
        decreases src@.len() - k,
    {
        out.push(src[k]);
        assert(src@.take(k + 1) =~= src@.take(k as int).push(src@[k as int]));
        k = k + 1;
    }
    assert(src@.take(src@.len() as int) =~= src@);
}

/// Appends the characters of `s` to `out`.
pub(crate) fn push_str(out: &mut Vec<char>, s: &str)
    ensures
        final(out)@ == old(out)@ + s@,
{
    let chars = chars_of(s);
    push_all(out, &chars);
}

/// Whether `pat` occurs in `s` starting at index `i`.
fn matches_at(s: &Vec<char>, i: usize, pat: &Vec<char>) -> (res: bool)
    requires
        i <= s@.len(),
    ensures
        res == (i + pat@.len() <= s@.len() && s@.subrange(i as int, i + pat@.len()) == pat@),
{
    if pat.len() > s.len() - i {
        return false;
    }
    let mut j: usize = 0;
    while j < pat.len()
        invariant
            i + pat@.len() <= s@.len(),
            s@.len() <= usize::MAX,
            j <= pat@.len(),
            forall|k: int| 0 <= k < j ==> s@[i + k] == pat@[k],
        decreases pat@.len() - j,
    {
        assert(i + j < s@.len());
        if s[i + j] != pat[j] {
            assert(s@.subrange(i as int, i + pat@.len())[j as int] != pat@[j as int]);
            return false;
        }
        j = j + 1;
    }
    assert(s@.subrange(i as int, i + pat@.len()) =~= pat@);
    true
}

/// Replaces every non-overlapping occurrence of `pat` in `s` by `rep`,
/// scanning from left to right. An empty `pat` leaves `s` as it is.
pub fn replace_all(s: &Vec<char>, pat: &Vec<char>, rep: &Vec<char>) -> (res: Vec<char>)
    ensures
        res@ == replaced(s@, pat@, rep@),
{
    let mut out: Vec<char> = Vec::new();
    if pat.len() == 0 {
        push_all(&mut out, s);
        assert(out@ =~= s@);
        return out;
    }
    let mut i: usize = 0;
    assert(s@.skip(0) =~= s@);
    assert(out@ + s@ =~= s@);
    while i < s.len()
        invariant
            i <= s@.len(),
            pat@.len() > 0,
            replaced(s@, pat@, rep@) == out@ + replaced(s@.skip(i as int), pat@, rep@),
        decreases s@.len() - i,
    {
        let ghost rest = s@.skip(i as int);
        if matches_at(s, i, pat) {
            assert(rest.take(pat@.len() as int) =~= s@.subrange(i as int, i + pat@.len()));
            assert(rest.skip(pat@.len() as int) =~= s@.skip(i + pat@.len()));
            let ghost before = out@;
            push_all(&mut out, rep);
            assert(out@ + replaced(s@.skip(i + pat@.len()), pat@, rep@) =~= before + (rep@
                + replaced(rest.skip(pat@.len() as int), pat@, rep@)));
            i = i + pat.len();
        } else {
            assert(pat@.len() <= rest.len() ==> rest.take(pat@.len() as int) =~= s@.subrange(
                i as int,
                i + pat@.len(),
            ));
            assert(rest.skip(1) =~= s@.skip(i + 1));
            let ghost before = out@;
            out.push(s[i]);
            assert(out@ + replaced(s@.skip(i + 1), pat@, rep@) =~= before + (seq![rest[0]]
                + replaced(rest.skip(1), pat@, rep@)));
            i = i + 1;
        }
    }
    assert(s@.skip(i as int) =~= Seq::<char>::empty());
    assert(out@ + Seq::<char>::empty() =~= out@);
    out
}

/// The items joined into one sequence, with `sep` between each two
/// neighbours (the semantics of `[String]::join`).
pub open spec fn joined(items: Seq<Seq<char>>, sep: Seq<char>) -> Seq<char>
    decreases items.len(),
{
    if items.len() == 0 {
        Seq::empty()
    } else if items.len() == 1 {
        items[0]
    } else {
        joined(items.drop_last(), sep) + sep + items.last()
    }
}

/// The character views of a list of strings.
pub open spec fn views(items: Seq<String>) -> Seq<Seq<char>> {
    items.map_values(|s: String| s@)
}

/// Joins `items` with `sep` between each two neighbours.
pub fn join_with(items: &Vec<String>, sep: &str) -> (res: String)
    ensures
        res@ == joined(views(items@), sep@),
{
    let sep_chars = chars_of(sep);
    let mut out: Vec<char> = Vec::new();
    let mut i: usize = 0;
    while i < items.len()
        invariant
            i <= items@.len(),
            sep_chars@ == sep@,
            out@ == joined(views(items@).take(i as int), sep@),
        decreases items@.len() - i,
    {
        let item = chars_of(items[i].as_str());
        let ghost prev = views(items@).take(i as int);
        let ghost next = views(items@).take(i + 1);
        assert(next.drop_last() =~= prev);
        assert(next.last() == items@[i as int]@);
        if i > 0 {
            push_all(&mut out, &sep_chars);
        } else {
            assert(next.len() == 1);
            assert(out@ =~= Seq::<char>::empty());
        }
        push_all(&mut out, &item);
        i = i + 1;
    }
    assert(views(items@).take(items@.len() as int) =~= views(items@));
    string_of(&out)
}

/// Whether every character is in the ASCII range.
pub open spec fn all_ascii(s: Seq<char>) -> bool {
    forall|i: int| 0 <= i < s.len() ==> (#[trigger] s[i] as u32) < 128
}

/// The ASCII upper-case form of `c`: `a`..=`z` become `A`..=`Z`, every other
/// character is kept.
pub open spec fn ascii_upper(c: char) -> char {
    if 'a' <= c && c <= 'z' {
        ((c as u32) - 32) as char
    } else {
        c
    }
}

/// What `char::to_uppercase` yields for `c` (one or more characters, by the
/// Unicode case tables of the standard library).
pub uninterp spec fn char_upper(c: char) -> Seq<char>;

/// The upper-case mapping of `c`: its ASCII upper-case form for an ASCII
/// character, and what `char::to_uppercase` yields beyond ASCII.
pub open spec fn upper_of(c: char) -> Seq<char> {
    if (c as u32) < 128 {
        seq![ascii_upper(c)]
    } else {
        char_upper(c)
    }
}

/// The upper-case form of `s`: the upper-case mapping of each character,
/// in order.
pub open spec fn upper_str(s: Seq<char>) -> Seq<char>
    decreases s.len(),
{
    if s.len() == 0 {
        Seq::empty()
    } else {
        upper_str(s.drop_last()) + upper_of(s.last())
    }
}

/// Calls `char::to_uppercase`. Its result is named `char_upper`; on an ASCII
/// character the standard library's documentation gives it as the one
/// character of `char::to_ascii_uppercase`.
#[verifier::external_body]
pub(crate) fn char_to_uppercase(c: char) -> (res: Vec<char>)
    ensures
        res@ == char_upper(c),
        (c as u32) < 128 ==> res@ == seq![ascii_upper(c)],
{
    c.to_uppercase().collect()
}

/// The upper-case form of `s`, mapping each character with
/// `char::to_uppercase` in turn (which is how `str::to_uppercase` maps a
/// string).
pub fn to_upper(s: &str) -> (res: String)
    ensures
        res@ == upper_str(s@),
{
    let chars = chars_of(s);
    let mut out: Vec<char> = Vec::new();
    let mut i: usize = 0;
    while i < chars.len()
        invariant
            i <= chars@.len(),
            chars@ == s@,
            out@ == upper_str(chars@.take(i as int)),
        decreases chars@.len() - i,
    {
        let up = char_to_uppercase(chars[i]);
        assert(up@ == upper_of(chars@[i as int]));
        let ghost next = chars@.take(i + 1);
        assert(next.drop_last() =~= chars@.take(i as int));
        assert(next.last() == chars@[i as int]);
        push_all(&mut out, &up);
        i = i + 1;
    }
    assert(chars@.take(chars@.len() as int) =~= chars@);
    string_of(&out)
}

} // verus!
