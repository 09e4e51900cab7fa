//! Taking a character off the ends of a text.

use vstd::prelude::*;

use crate::text;
use crate::text::{chars_of, string_of};

verus! {

/// `s` without the leading `c`.
pub open spec fn strip_start(s: Seq<char>, c: char) -> Seq<char>
    decreases s.len(),
{
    if s.len() > 0 && s[0] == c {
        strip_start(s.skip(1), c)
    } else {
        s
    }
}

/// `s` without the trailing `c`.
pub open spec fn strip_end(s: Seq<char>, c: char) -> Seq<char>
    decreases s.len(),
{
    if s.len() > 0 && s.last() == c {
        strip_end(s.drop_last(), c)
    } else {
        s
    }
}

/// `s` without the `c` at both ends.
pub open spec fn stripped(s: Seq<char>, c: char) -> Seq<char> {
    strip_end(strip_start(s, c), c)
}

/// `s` without the quotation marks at both ends: first single, then double ones.
pub open spec fn unquoted(s: Seq<char>) -> Seq<char> {
    stripped(stripped(s, '\''), '"')
}

/// `s` without the `c` at both ends.
pub fn strip_char(s: &str, c: char) -> (r: String)
    ensures
        r@ == stripped(s@, c),
{
    let v = chars_of(s);
    let mut a: usize = 0;
    assert(v@.skip(0) =~= v@);
    while a < v.len() && v[a] == c
        invariant
            a <= v@.len(),
            v@ == s@,
            strip_start(v@.skip(a as int), c) == strip_start(s@, c),
        decreases v@.len() - a,
    {
        assert(v@.skip(a as int)[0] == v@[a as int]);
        assert(v@.skip(a as int).skip(1) =~= v@.skip(a + 1));
        a = a + 1;
    }
    let ghost t = v@.skip(a as int);
    assert(strip_start(t, c) == t) by {
        if t.len() > 0 {
            assert(t[0] == v@[a as int]);
        }
    }
    let mut b: usize = v.len();
    assert(v@.subrange(a as int, b as int) =~= t);
    while b > a && v[b - 1] == c
        invariant
            a <= b <= v@.len(),
            strip_end(v@.subrange(a as int, b as int), c) == strip_end(t, c),
        decreases b - a,
    {
        let ghost u = v@.subrange(a as int, b as int);
        assert(u.last() == v@[b - 1]);
        assert(u.drop_last() =~= v@.subrange(a as int, b - 1));
        b = b - 1;
    }
    proof {
        let u = v@.subrange(a as int, b as int);
        if u.len() > 0 {
            assert(u.last() == v@[b - 1]);
        }
    }
    string_of(&v, a, b)
}

/// `s` without the quotation marks at both ends.
pub fn unquote(s: &str) -> (r: String)
    ensures
        r@ == unquoted(s@),
{
    let t = strip_char(s, '\'');
    strip_char(t.as_str(), '"')
}

/// The first word of `s`; nothing, where there is none.
pub open spec fn first_word(s: Seq<char>) -> Seq<char> {
    if text::words(s).len() > 0 {
        text::words(s)[0]
    } else {
        Seq::empty()
    }
}

/// A character is taken from both ends, as often as it stands there, and nothing else is.
pub proof fn law_ends_are_stripped(s: Seq<char>, c: char)
    ensures
        stripped(s, c).len() > 0 ==> stripped(s, c)[0] != c && stripped(s, c).last() != c,
        s.len() > 0 && s[0] != c && s.last() != c ==> stripped(s, c) == s && stripped(
            seq![c] + s + seq![c],
            c,
        ) == s,
{
    lemma_strip_start(s, c);
    lemma_strip_end(strip_start(s, c), c);
    let t = stripped(s, c);
    if t.len() > 0 {
        assert(t[0] == strip_start(s, c)[0]);
    }
    if s.len() > 0 && s[0] != c && s.last() != c {
        reveal_with_fuel(strip_start, 2);
        reveal_with_fuel(strip_end, 2);
        let q = seq![c] + s + seq![c];
        assert(q.skip(1) =~= s + seq![c]);
        assert((s + seq![c])[0] == s[0]);
        assert(strip_start(q, c) == s + seq![c]);
        assert((s + seq![c]).drop_last() =~= s);
        assert((s + seq![c]).last() == c);
    }
}

proof fn lemma_strip_start(s: Seq<char>, c: char)
    ensures
        strip_start(s, c).len() > 0 ==> strip_start(s, c)[0] != c,
    decreases s.len(),
{
    if s.len() > 0 && s[0] == c {
        lemma_strip_start(s.skip(1), c);
    }
}

proof fn lemma_strip_end(s: Seq<char>, c: char)
    ensures
        strip_end(s, c).len() <= s.len(),
        strip_end(s, c) == s.take(strip_end(s, c).len() as int),
        strip_end(s, c).len() > 0 ==> strip_end(s, c).last() != c,
    decreases s.len(),
{
    if s.len() > 0 && s.last() == c {
        lemma_strip_end(s.drop_last(), c);
        let t = strip_end(s.drop_last(), c);
        assert(s.drop_last().take(t.len() as int) =~= s.take(t.len() as int));
    } else {
        assert(s.take(s.len() as int) =~= s);
    }
}

/// Quotation marks around a text without any do not count, be they single or double; the first word
/// is the first.
pub proof fn law_quotation_marks_do_not_count(s: Seq<char>)
    requires
        s.len() > 0,
        s[0] != '\'' && s.last() != '\'',
        s[0] != '"' && s.last() != '"',
    ensures
        unquoted(s) == s,
        unquoted(seq!['\''] + s + seq!['\'']) == s,
        unquoted(seq!['"'] + s + seq!['"']) == s,
        text::words(s).len() > 0 ==> first_word(s) == text::words(s)[0],
        text::words(s).len() == 0 ==> first_word(s).len() == 0,
{
    law_ends_are_stripped(s, '\'');
    law_ends_are_stripped(s, '"');
    let q = seq!['"'] + s + seq!['"'];
    assert(q[0] == '"' && q.last() == '"');
    law_ends_are_stripped(q, '\'');
}

} // verus!
