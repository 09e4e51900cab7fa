//! Strings as sequences of characters: the vocabulary the other modules state their contracts in,
//! and the executable operations that match it.

use vstd::prelude::*;

verus! {

/// `String::push`: appends one character at the end of the string.
pub assume_specification[ String::push ](s: &mut String, c: char)
    ensures
        final(s)@ == old(s)@.push(c),
;

/// True of the characters with the Unicode property `White_Space`.
pub open spec fn is_ws(c: char) -> bool {
    ||| '\u{9}' <= c <= '\u{d}'
    ||| c == ' '
    ||| c == '\u{85}'
    ||| c == '\u{a0}'
    ||| c == '\u{1680}'
    ||| '\u{2000}' <= c <= '\u{200a}'
    ||| c == '\u{2028}'
    ||| c == '\u{2029}'
    ||| c == '\u{202f}'
    ||| c == '\u{205f}'
    ||| c == '\u{3000}'
}

/// Whether `c` is a white space character.
pub fn char_is_ws(c: char) -> (b: bool)
    ensures
        b == is_ws(c),
{
    ('\u{9}' <= c && c <= '\u{d}') || c == ' ' || c == '\u{85}' || c == '\u{a0}' || c == '\u{1680}'
        || ('\u{2000}' <= c && c <= '\u{200a}') || c == '\u{2028}' || c == '\u{2029}' || c
        == '\u{202f}' || c == '\u{205f}' || c == '\u{3000}'
}

/// The characters of `s`.
pub fn chars_of(s: &str) -> (r: Vec<char>)
    ensures
        r@ == s@,
{
    let mut r: Vec<char> = Vec::new();
    for c in it: s.chars()
        invariant
            r@ == it.seq().take(it.index()),
            it.seq() == s@,
    {
        r.push(c);
        assert(it.seq().take(it.index() + 1) == it.seq().take(it.index()).push(c));
    }
    r
}

/// The string made of the characters `from..to` of `v`.
pub fn string_of(v: &Vec<char>, from: usize, to: usize) -> (r: String)
    requires
        from <= to <= v@.len(),
    ensures
        r@ == v@.subrange(from as int, to as int),
{
    let mut r = String::new();
    let mut i: usize = from;
    while i < to
        invariant
            from <= i <= to <= v@.len(),
            r@ == v@.subrange(from as int, i as int),
        decreases to - i,
    {
        r.push(v[i]);
        i = i + 1;
        assert(v@.subrange(from as int, i as int) == v@.subrange(from as int, i - 1).push(
            v@[i - 1],
        ));
    }
    r
}

/// Whether two strings hold the same characters.
pub fn str_eq(a: &str, b: &str) -> (r: bool)
    ensures
        r == (a@ == b@),
{
    let x: String = a.to_string();
    let y: String = b.to_string();
    x == y
}

/// The strings of a list, as sequences of characters.
pub open spec fn strs(v: Seq<String>) -> Seq<Seq<char>> {
    v.map_values(|s: String| s@)
}

/// The optional string, as a sequence of characters.
pub open spec fn opt_view(o: Option<String>) -> Option<Seq<char>> {
    match o {
        Some(s) => Some(s@),
        None => None,
    }
}

/// The optional string slice, as a sequence of characters.
pub open spec fn opt_str_view(o: Option<&str>) -> Option<Seq<char>> {
    match o {
        Some(s) => Some(s@),
        None => None,
    }
}

/// A copy of an optional string.
pub fn clone_opt(o: &Option<String>) -> (r: Option<String>)
    ensures
        r == *o,
{
    match o {
        Some(s) => Some(s.clone()),
        None => None,
    }
}

/// The optional string, borrowed.
pub fn opt_as_str(o: &Option<String>) -> (r: Option<&str>)
    ensures
        opt_str_view(r) == opt_view(*o),
{
    match o {
        Some(s) => Some(s.as_str()),
        None => None,
    }
}

/// Whether two optional strings are equal.
pub fn opt_eq(a: &Option<String>, b: &Option<String>) -> (r: bool)
    ensures
        r == (opt_view(*a) == opt_view(*b)),
{
    match (a, b) {
        (Some(x), Some(y)) => *x == *y,
        (None, None) => true,
        _ => false,
    }
}

/// Whether `v` holds the string `s`.
pub fn contains_str(v: &[String], s: &str) -> (r: bool)
    ensures
        r == strs(v@).contains(s@),
{
    let mut i: usize = 0;
    while i < v.len()
        invariant
            i <= v@.len(),
            forall|j: int| 0 <= j < i ==> #[trigger] v@[j]@ != s@,
        decreases v@.len() - i,
    {
        if str_eq(v[i].as_str(), s) {
            assert(strs(v@)[i as int] == s@);
            return true;
        }
        i = i + 1;
    }
    assert forall|j: int| 0 <= j < strs(v@).len() implies strs(v@)[j] != s@ by {
        assert(v@[j]@ != s@);
    }
    false
}

// ---------------------------------------------------------------------------------------------
// Decimal numbers
// ---------------------------------------------------------------------------------------------
/// The character of the decimal digit `d`.
pub open spec fn digit_char(d: nat) -> char {
    (48 + d) as char
}

/// `n` in decimal, without leading zeros.
pub open spec fn dec(n: nat) -> Seq<char>
    decreases n,
{
    if n < 10 {
        seq![digit_char(n)]
    } else {
        dec(n / 10).push(digit_char(n % 10))
    }
}

/// `n` in decimal, without leading zeros.
pub fn u64_to_string(n: u64) -> (r: String)
    ensures
        r@ == dec(n as nat),
    decreases n,
{
    let d: u8 = (n % 10) as u8;
    let c: char = (48 + d) as char;
    let mut r = if n < 10 {
        String::new()
    } else {
        u64_to_string(n / 10)
    };
    r.push(c);
    assert(n < 10 ==> r@ =~= seq![digit_char(n as nat)]);
    r
}

/// The value of `c` as a digit; hexadecimal digits count where `hex` is set.
pub open spec fn digit_of(c: char, hex: bool) -> Option<nat> {
    if '0' <= c <= '9' {
        Some((c as int - 48) as nat)
    } else if hex && 'a' <= c <= 'f' {
        Some((c as int - 87) as nat)
    } else if hex && 'A' <= c <= 'F' {
        Some((c as int - 55) as nat)
    } else {
        None
    }
}

/// The number that the digits `s` spell, a character that is no digit counting as zero.
pub open spec fn digits_value(s: Seq<char>, hex: bool) -> nat
    decreases s.len(),
{
    if s.len() == 0 {
        0
    } else {
        let high = digits_value(s.drop_last(), hex);
        let low = match digit_of(s.last(), hex) {
            Some(d) => d,
            None => 0,
        };
        if hex {
            16 * high + low
        } else {
            10 * high + low
        }
    }
}

/// The number that `s` spells: one digit or more and nothing else, at most `max`.
pub open spec fn parse_digits_spec(s: Seq<char>, hex: bool, max: nat) -> Option<nat> {
    if s.len() == 0 || (exists|i: int| 0 <= i < s.len() && #[trigger] digit_of(s[i], hex) is None)
        || digits_value(s, hex) > max {
        None
    } else {
        Some(digits_value(s, hex))
    }
}

/// `s` without one leading plus sign.
pub open spec fn strip_plus(s: Seq<char>) -> Seq<char> {
    if s.len() > 0 && s[0] == '+' {
        s.skip(1)
    } else {
        s
    }
}

/// The unsigned number that `s` spells: an optional plus sign, then one digit or more, at most
/// `max`.
pub open spec fn parse_uint(s: Seq<char>, hex: bool, max: nat) -> Option<nat> {
    parse_digits_spec(strip_plus(s), hex, max)
}

/// The signed number that `s` spells: an optional sign, then one digit or more, within `i32`.
pub open spec fn parse_int(s: Seq<char>) -> Option<int> {
    if s.len() > 0 && s[0] == '-' {
        match parse_digits_spec(s.skip(1), false, 0x8000_0000) {
            Some(n) => Some(-n),
            None => None,
        }
    } else {
        match parse_uint(s, false, 0x7fff_ffff) {
            Some(n) => Some(n as int),
            None => None,
        }
    }
}

proof fn lemma_digits_value_prefix(s: Seq<char>, hex: bool, k: int)
    requires
        0 <= k <= s.len(),
    ensures
        digits_value(s.take(k), hex) <= digits_value(s, hex),
    decreases s.len(),
{
    if k < s.len() {
        lemma_digits_value_prefix(s.drop_last(), hex, k);
        assert(s.drop_last().take(k) =~= s.take(k));
    } else {
        assert(s.take(k) =~= s);
    }
}

/// The digit that `c` is, if it is one.
pub fn char_digit(c: char, hex: bool) -> (r: Option<u8>)
    ensures
        match r {
            Some(d) => digit_of(c, hex) == Some(d as nat) && d < 16,
            None => digit_of(c, hex) is None,
        },
{
    if '0' <= c && c <= '9' {
        Some(((c as u32) - 48) as u8)
    } else if hex && 'a' <= c && c <= 'f' {
        Some(((c as u32) - 87) as u8)
    } else if hex && 'A' <= c && c <= 'F' {
        Some(((c as u32) - 55) as u8)
    } else {
        None
    }
}

/// Reads the characters of `v` from `from` on as a number of at most `max`.
pub fn parse_digits(v: &Vec<char>, from: usize, hex: bool, max: u64) -> (r: Option<u64>)
    requires
        from <= v@.len(),
    ensures
        match r {
            Some(n) => parse_digits_spec(v@.skip(from as int), hex, max as nat) == Some(n as nat),
            None => parse_digits_spec(v@.skip(from as int), hex, max as nat) is None,
        },
{
    let ghost s = v@.skip(from as int);
    if from == v.len() {
        return None;
    }
    let mut acc: u64 = 0;
    let mut i: usize = from;
    while i < v.len()
        invariant
            from <= i <= v@.len(),
            s == v@.skip(from as int),
            acc <= max,
            acc == digits_value(s.take(i - from), hex),
            forall|j: int| 0 <= j < i - from ==> digit_of(#[trigger] s[j], hex) is Some,
        decreases v@.len() - i,
    {
        assert(s[i - from] == v@[i as int]);
        let d: u8 = match char_digit(v[i], hex) {
            Some(d) => d,
            None => {
                return None;
            },
        };
        let n: u128 = if hex {
            16 * (acc as u128) + (d as u128)
        } else {
            10 * (acc as u128) + (d as u128)
        };
        proof {
            let t = s.take(i + 1 - from);
            assert(t.drop_last() =~= s.take(i - from));
            assert(n == digits_value(t, hex));
            lemma_digits_value_prefix(s, hex, i + 1 - from);
        }
        if n > max as u128 {
            return None;
        }
        acc = n as u64;
        i = i + 1;
    }
    assert(s.take(v@.len() - from) =~= s);
    Some(acc)
}

/// Reads `s` as an unsigned number of at most `max`, as `str::parse` does on unsigned types.
pub fn parse_u64_upto(s: &str, max: u64) -> (r: Option<u64>)
    ensures
        match r {
            Some(n) => parse_uint(s@, false, max as nat) == Some(n as nat),
            None => parse_uint(s@, false, max as nat) is None,
        },
{
    let v = chars_of(s);
    if v.len() > 0 && v[0] == '+' {
        parse_digits(&v, 1, false, max)
    } else {
        assert(v@.skip(0) =~= v@);
        parse_digits(&v, 0, false, max)
    }
}

/// Reads `s` as a `u16`.
pub fn parse_u16(s: &str) -> (r: Option<u16>)
    ensures
        match r {
            Some(n) => parse_uint(s@, false, u16::MAX as nat) == Some(n as nat),
            None => parse_uint(s@, false, u16::MAX as nat) is None,
        },
{
    match parse_u64_upto(s, u16::MAX as u64) {
        Some(n) => Some(n as u16),
        None => None,
    }
}

/// Reads `s` as a `u64`.
pub fn parse_u64(s: &str) -> (r: Option<u64>)
    ensures
        match r {
            Some(n) => parse_uint(s@, false, u64::MAX as nat) == Some(n as nat),
            None => parse_uint(s@, false, u64::MAX as nat) is None,
        },
{
    parse_u64_upto(s, u64::MAX)
}

/// Reads `s` as an `i32`.
pub fn parse_i32(s: &str) -> (r: Option<i32>)
    ensures
        match r {
            Some(n) => parse_int(s@) == Some(n as int),
            None => parse_int(s@) is None,
        },
{
    let v = chars_of(s);
    if v.len() > 0 && v[0] == '-' {
        match parse_digits(&v, 1, false, 0x8000_0000) {
            Some(n) => Some((-(n as i64)) as i32),
            None => None,
        }
    } else {
        match parse_u64_upto(s, 0x7fff_ffff) {
            Some(n) => Some(n as i32),
            None => None,
        }
    }
}

// ---------------------------------------------------------------------------------------------
// Searching and splitting
// ---------------------------------------------------------------------------------------------
/// Whether `p` stands in `s` at position `i`.
pub open spec fn occurs_at(s: Seq<char>, p: Seq<char>, i: int) -> bool {
    0 <= i && i + p.len() <= s.len() && s.subrange(i, i + p.len()) == p
}

/// Whether `p` stands in `s` at position `i` and at no earlier one.
pub open spec fn first_at(s: Seq<char>, p: Seq<char>, i: int) -> bool {
    occurs_at(s, p, i) && forall|j: int| 0 <= j < i ==> !#[trigger] occurs_at(s, p, j)
}

/// The first position at which `p` stands in `s`.
pub open spec fn find(s: Seq<char>, p: Seq<char>) -> Option<int> {
    if exists|i: int| first_at(s, p, i) {
        Some(choose|i: int| first_at(s, p, i))
    } else {
        None
    }
}

/// Whether `p` stands somewhere in `s`.
pub open spec fn contains_sub(s: Seq<char>, p: Seq<char>) -> bool {
    exists|i: int| occurs_at(s, p, i)
}

/// Where `find` finds something, it is the first occurrence; where it finds nothing, there is no
/// occurrence.
pub proof fn lemma_find(s: Seq<char>, p: Seq<char>)
    ensures
        match find(s, p) {
            Some(i) => first_at(s, p, i),
            None => forall|j: int| !occurs_at(s, p, j),
        },
        contains_sub(s, p) == (find(s, p) is Some),
{
    if contains_sub(s, p) {
        let i = choose|i: int| occurs_at(s, p, i);
        lemma_first_exists(s, p, i);
    } else if find(s, p) is Some {
        let i = choose|i: int| first_at(s, p, i);
        assert(occurs_at(s, p, i));
    }
}

proof fn lemma_first_exists(s: Seq<char>, p: Seq<char>, i: int)
    requires
        occurs_at(s, p, i),
    ensures
        exists|k: int| first_at(s, p, k),
    decreases i,
{
    if exists|j: int| 0 <= j < i && occurs_at(s, p, j) {
        let j = choose|j: int| 0 <= j < i && occurs_at(s, p, j);
        lemma_first_exists(s, p, j);
    } else {
        assert(first_at(s, p, i));
    }
}

proof fn lemma_first_unique(s: Seq<char>, p: Seq<char>, i: int)
    requires
        first_at(s, p, i),
    ensures
        find(s, p) == Some(i),
{
    let k = find(s, p)->0;
    assert(first_at(s, p, k));
    if k < i {
        assert(!occurs_at(s, p, k));
    }
    if i < k {
        assert(!occurs_at(s, p, i));
    }
}

/// Whether the characters `p` stand in `v` at `i`.
pub fn occurs(v: &Vec<char>, p: &Vec<char>, i: usize) -> (r: bool)
    requires
        i <= v@.len(),
    ensures
        r == occurs_at(v@, p@, i as int),
{
    let n: usize = v.len();
    if n - i < p.len() {
        return false;
    }
    let mut k: usize = 0;
    while k < p.len()
        invariant
            n == v@.len(),
            i <= v@.len(),
            p@.len() <= v@.len() - i,
            k <= p@.len(),
            forall|j: int| 0 <= j < k ==> v@[i + j] == #[trigger] p@[j],
        decreases p@.len() - k,
    {
        if v[i + k] != p[k] {
            assert(v@.subrange(i as int, i + p@.len())[k as int] == v@[i + k]);
            return false;
        }
        k = k + 1;
    }
    assert(v@.subrange(i as int, i + p@.len()) =~= p@);
    true
}

/// The first position of `p` in `v`.
pub fn find_chars(v: &Vec<char>, p: &Vec<char>) -> (r: Option<usize>)
    ensures
        match r {
            Some(i) => find(v@, p@) == Some(i as int) && occurs_at(v@, p@, i as int),
            None => find(v@, p@) is None,
        },
{
    let mut i: usize = 0;
    loop
        invariant
            i <= v@.len(),
            forall|j: int| 0 <= j < i ==> !#[trigger] occurs_at(v@, p@, j),
        decreases v@.len() - i,
    {
        if occurs(v, p, i) {
            proof {
                lemma_first_unique(v@, p@, i as int);
            }
            return Some(i);
        }
        if i == v.len() {
            proof {
                lemma_find(v@, p@);
                if find(v@, p@) is Some {
                    assert(occurs_at(v@, p@, find(v@, p@)->0));
                }
            }
            return None;
        }
        i = i + 1;
    }
}

/// Whether `p` stands somewhere in `s`.
pub fn contains(s: &str, p: &str) -> (r: bool)
    ensures
        r == contains_sub(s@, p@),
{
    let v = chars_of(s);
    let w = chars_of(p);
    proof {
        lemma_find(s@, p@);
    }
    find_chars(&v, &w).is_some()
}

/// Whether `s` begins with `p`.
pub fn starts_with(s: &str, p: &str) -> (r: bool)
    ensures
        r == p@.is_prefix_of(s@),
{
    let v = chars_of(s);
    let w = chars_of(p);
    let r = occurs(&v, &w, 0);
    assert(w@.len() <= v@.len() ==> v@.subrange(0, w@.len() as int) == v@.take(w@.len() as int));
    r
}

/// What follows `p` in `s`, where `s` begins with `p`.
pub open spec fn after_prefix(s: Seq<char>, p: Seq<char>) -> Option<Seq<char>> {
    if p.is_prefix_of(s) {
        Some(s.skip(p.len() as int))
    } else {
        None
    }
}

/// What follows `p` in `s`, where `s` begins with `p`.
pub fn strip_prefix(s: &str, p: &str) -> (r: Option<String>)
    ensures
        opt_view(r) == after_prefix(s@, p@),
{
    let v = chars_of(s);
    let w = chars_of(p);
    if occurs(&v, &w, 0) {
        assert(v@.subrange(0, w@.len() as int) == v@.take(w@.len() as int));
        assert(v@.subrange(w@.len() as int, v@.len() as int) == v@.skip(w@.len() as int));
        Some(string_of(&v, w.len(), v.len()))
    } else {
        assert(w@.len() <= v@.len() ==> v@.subrange(0, w@.len() as int) == v@.take(
            w@.len() as int,
        ));
        None
    }
}

/// The number of characters of `s` before the first `c`, or all of them.
pub open spec fn until(s: Seq<char>, c: char) -> nat
    decreases s.len(),
{
    if s.len() == 0 || s[0] == c {
        0
    } else {
        1 + until(s.skip(1), c)
    }
}

/// `until` counts exactly the characters before the first `c`.
pub proof fn lemma_until(s: Seq<char>, c: char)
    ensures
        until(s, c) <= s.len(),
        forall|i: int| 0 <= i < until(s, c) ==> s[i] != c,
        until(s, c) < s.len() ==> s[until(s, c) as int] == c,
    decreases s.len(),
{
    if s.len() > 0 && s[0] != c {
        lemma_until(s.skip(1), c);
        assert forall|i: int| 0 <= i < until(s, c) implies s[i] != c by {
            if i > 0 {
                assert(s[i] == s.skip(1)[i - 1]);
            }
        }
    }
}

proof fn lemma_until_is(s: Seq<char>, c: char, n: int)
    requires
        0 <= n <= s.len(),
        forall|i: int| 0 <= i < n ==> s[i] != c,
        n < s.len() ==> s[n] == c,
    ensures
        until(s, c) == n,
{
    lemma_until(s, c);
    let u = until(s, c) as int;
    if u < n {
        assert(s[u] != c);
    }
    if n < u {
        assert(s[n] != c);
    }
}

/// The position of the first `c` at or after `from`, or the length of `v`.
pub fn until_from(v: &Vec<char>, from: usize, c: char) -> (r: usize)
    requires
        from <= v@.len(),
    ensures
        from <= r <= v@.len(),
        r == from + until(v@.skip(from as int), c),
        r < v@.len() ==> v@[r as int] == c,
{
    let ghost s = v@.skip(from as int);
    let mut i: usize = from;
    while i < v.len() && v[i] != c
        invariant
            from <= i <= v@.len(),
            s == v@.skip(from as int),
            forall|j: int| 0 <= j < i - from ==> s[j] != c,
        decreases v@.len() - i,
    {
        assert(s[i - from] == v@[i as int]);
        i = i + 1;
    }
    proof {
        lemma_until_is(s, c, i - from);
    }
    i
}

/// The pieces of `s` between the occurrences of `c`.
pub open spec fn split_on(s: Seq<char>, c: char) -> Seq<Seq<char>>
    decreases s.len(),
{
    let n = until(s, c) as int;
    if n >= s.len() {
        seq![s]
    } else {
        seq![s.take(n)] + split_on(s.skip(n + 1), c)
    }
}

/// The pieces of `s` between the occurrences of `c`.
pub fn split_char(s: &str, c: char) -> (r: Vec<String>)
    ensures
        strs(r@) == split_on(s@, c),
{
    let v = chars_of(s);
    let mut out: Vec<String> = Vec::new();
    let mut pos: usize = 0;
    assert(v@.skip(0) =~= v@);
    assert(strs(out@) + split_on(v@.skip(0), c) =~= split_on(v@, c));
    loop
        invariant
            pos <= v@.len(),
            v@ == s@,
            strs(out@) + split_on(v@.skip(pos as int), c) == split_on(s@, c),
        decreases v@.len() - pos,
    {
        let e = until_from(&v, pos, c);
        let ghost rest = v@.skip(pos as int);
        proof {
            lemma_until(rest, c);
        }
        let piece = string_of(&v, pos, e);
        let ghost before = out@;
        out.push(piece);
        assert(strs(out@) =~= strs(before).push(piece@));
        assert(piece@ =~= rest.take(e - pos));
        if e == v.len() {
            assert(piece@ =~= rest);
            assert(strs(out@) =~= strs(before) + split_on(rest, c));
            return out;
        }
        assert(rest.skip(e - pos + 1) =~= v@.skip(e + 1));
        pos = e + 1;
        assert(strs(out@) + split_on(v@.skip(pos as int), c) =~= strs(before) + split_on(rest, c));
    }
}

/// The number of leading characters of `s` that are no white space.
pub open spec fn word_len(s: Seq<char>) -> nat
    decreases s.len(),
{
    if s.len() == 0 || is_ws(s[0]) {
        0
    } else {
        1 + word_len(s.skip(1))
    }
}

/// The words of `s`: its maximal runs of characters that are no white space.
pub open spec fn words(s: Seq<char>) -> Seq<Seq<char>>
    decreases s.len(),
{
    if s.len() == 0 {
        Seq::empty()
    } else if is_ws(s[0]) {
        words(s.skip(1))
    } else {
        let n = word_len(s) as int;
        if n <= 0 || n > s.len() {
            Seq::empty()
        } else {
            seq![s.take(n)] + words(s.skip(n))
        }
    }
}

proof fn lemma_word_len_is(s: Seq<char>, n: int)
    requires
        0 <= n <= s.len(),
        forall|i: int| 0 <= i < n ==> !is_ws(#[trigger] s[i]),
        n < s.len() ==> is_ws(s[n]),
    ensures
        word_len(s) == n,
    decreases s.len(),
{
    if n > 0 {
        let t = s.skip(1);
        assert forall|i: int| 0 <= i < n - 1 implies !is_ws(#[trigger] t[i]) by {
            assert(t[i] == s[i + 1]);
        }
        if n < s.len() {
            assert(t[n - 1] == s[n]);
        }
        lemma_word_len_is(t, n - 1);
        assert(!is_ws(s[0]));
    }
}

/// The words of `s`: its maximal runs of characters that are no white space.
pub fn split_whitespace(s: &str) -> (r: Vec<String>)
    ensures
        strs(r@) == words(s@),
{
    let v = chars_of(s);
    let mut out: Vec<String> = Vec::new();
    let mut pos: usize = 0;
    assert(v@.skip(0) =~= v@);
    assert(strs(out@) + words(v@.skip(0)) =~= words(v@));
    while pos < v.len()
        invariant
            pos <= v@.len(),
            v@ == s@,
            strs(out@) + words(v@.skip(pos as int)) == words(s@),
        decreases v@.len() - pos,
    {
        let ghost rest = v@.skip(pos as int);
        assert(rest[0] == v@[pos as int]);
        if char_is_ws(v[pos]) {
            pos = pos + 1;
            assert(rest.skip(1) =~= v@.skip(pos as int));
        } else {
            let mut e: usize = pos;
            while e < v.len() && !char_is_ws(v[e])
                invariant
                    pos <= e <= v@.len(),
                    rest == v@.skip(pos as int),
                    forall|i: int| 0 <= i < e - pos ==> !is_ws(#[trigger] rest[i]),
                decreases v@.len() - e,
            {
                assert(rest[e - pos] == v@[e as int]);
                e = e + 1;
            }
            proof {
                if e < v@.len() {
                    assert(rest[e - pos] == v@[e as int]);
                }
                lemma_word_len_is(rest, e - pos);
                if e == pos {
                    assert(is_ws(rest[0]));
                }
            }
            let piece = string_of(&v, pos, e);
            let ghost before = out@;
            out.push(piece);
            assert(strs(out@) =~= strs(before).push(piece@));
            assert(piece@ =~= rest.take(e - pos));
            assert(rest.skip(e - pos) =~= v@.skip(e as int));
            pos = e;
            assert(strs(out@) + words(v@.skip(pos as int)) =~= strs(before) + words(rest));
        }
    }
    assert(v@.skip(pos as int) =~= Seq::<char>::empty());
    assert(strs(out@) + words(v@.skip(pos as int)) =~= strs(out@));
    out
}

/// `s` without its leading white space.
pub open spec fn trim_start(s: Seq<char>) -> Seq<char>
    decreases s.len(),
{
    if s.len() > 0 && is_ws(s[0]) {
        trim_start(s.skip(1))
    } else {
        s
    }
}

/// `s` without its trailing white space.
pub open spec fn trim_end(s: Seq<char>) -> Seq<char>
    decreases s.len(),
{
    if s.len() > 0 && is_ws(s.last()) {
        trim_end(s.drop_last())
    } else {
        s
    }
}

/// `s` without the white space at both ends.
pub open spec fn trimmed(s: Seq<char>) -> Seq<char> {
    trim_end(trim_start(s))
}

/// `s` without the white space at both ends.
pub fn trim(s: &str) -> (r: String)
    ensures
        r@ == trimmed(s@),
{
    let v = chars_of(s);
    let mut a: usize = 0;
    assert(v@.skip(0) =~= v@);
    while a < v.len() && char_is_ws(v[a])
        invariant
            a <= v@.len(),
            v@ == s@,
            trim_start(v@.skip(a as int)) == trim_start(s@),
        decreases v@.len() - a,
    {
        assert(v@.skip(a as int)[0] == v@[a as int]);
        assert(v@.skip(a as int).skip(1) =~= v@.skip(a + 1));
        a = a + 1;
    }
    let ghost t = v@.skip(a as int);
    assert(trim_start(t) == t) by {
        if t.len() > 0 {
            assert(t[0] == v@[a as int]);
        }
    }
    let mut b: usize = v.len();
    assert(v@.subrange(a as int, b as int) =~= t);
    while b > a && char_is_ws(v[b - 1])
        invariant
            a <= b <= v@.len(),
            trim_end(v@.subrange(a as int, b as int)) == trim_end(t),
        decreases b - a,
    {
        let ghost u = v@.subrange(a as int, b as int);
        assert(u.last() == v@[b - 1]);
        assert(u.drop_last() =~= v@.subrange(a as int, b - 1));
        b = b - 1;
    }
    proof {
        let u = v@.subrange(a as int, b as int);
        if u.len() > 0 {
            assert(u.last() == v@[b - 1]);
        }
    }
    string_of(&v, a, b)
}

// ---------------------------------------------------------------------------------------------
// Case
// ---------------------------------------------------------------------------------------------
/// `c` in lower case, if it is one of the letters A to Z.
pub open spec fn ascii_lower(c: char) -> char {
    if 'A' <= c <= 'Z' {
        (c as int + 32) as char
    } else {
        c
    }
}

/// The strings differ at most in the case of the letters A to Z.
pub open spec fn same_ignoring_case(a: Seq<char>, b: Seq<char>) -> bool {
    a.map_values(|c: char| ascii_lower(c)) == b.map_values(|c: char| ascii_lower(c))
}

/// `c` in lower case, if it is one of the letters A to Z.
pub fn char_ascii_lower(c: char) -> (r: char)
    ensures
        r == ascii_lower(c),
{
    if 'A' <= c && c <= 'Z' {
        ((c as u8) + 32) as char
    } else {
        c
    }
}

/// Whether the strings differ at most in the case of the letters A to Z.
pub fn eq_ignore_ascii_case(a: &str, b: &str) -> (r: bool)
    ensures
        r == same_ignoring_case(a@, b@),
{
    let x = chars_of(a);
    let y = chars_of(b);
    let ghost p = a@.map_values(|c: char| ascii_lower(c));
    let ghost q = b@.map_values(|c: char| ascii_lower(c));
    if x.len() != y.len() {
        assert(p.len() != q.len());
        return false;
    }
    let mut i: usize = 0;
    while i < x.len()
        invariant
            i <= x@.len() == y@.len(),
            x@ == a@,
            y@ == b@,
            p == a@.map_values(|c: char| ascii_lower(c)),
            q == b@.map_values(|c: char| ascii_lower(c)),
            forall|j: int| 0 <= j < i ==> p[j] == q[j],
        decreases x@.len() - i,
    {
        assert(p[i as int] == ascii_lower(x@[i as int]));
        assert(q[i as int] == ascii_lower(y@[i as int]));
        if char_ascii_lower(x[i]) != char_ascii_lower(y[i]) {
            return false;
        }
        i = i + 1;
    }
    assert(p =~= q);
    true
}

// ---------------------------------------------------------------------------------------------
// Order
// ---------------------------------------------------------------------------------------------
/// `a` stands before `b` in the order of strings: by code points, a prefix before what it begins.
pub open spec fn lex_lt(a: Seq<char>, b: Seq<char>) -> bool
    decreases a.len(),
{
    if b.len() == 0 {
        false
    } else if a.len() == 0 {
        true
    } else if a[0] != b[0] {
        a[0] < b[0]
    } else {
        lex_lt(a.skip(1), b.skip(1))
    }
}

/// Of two strings exactly one of three holds: the first is before the second, they are equal, or
/// the second is before the first.
pub proof fn lemma_lex_total(a: Seq<char>, b: Seq<char>)
    ensures
        lex_lt(a, b) || a == b || lex_lt(b, a),
        !(lex_lt(a, b) && lex_lt(b, a)),
        a == b ==> !lex_lt(a, b),
    decreases a.len(),
{
    if a.len() > 0 && b.len() > 0 {
        lemma_lex_total(a.skip(1), b.skip(1));
        if a[0] == b[0] && a.skip(1) == b.skip(1) {
            assert(a =~= seq![a[0]] + a.skip(1));
            assert(b =~= seq![b[0]] + b.skip(1));
        }
    } else if a.len() == 0 && b.len() == 0 {
        assert(a =~= b);
    }
}

/// The order of strings is transitive.
pub proof fn lemma_lex_trans(a: Seq<char>, b: Seq<char>, c: Seq<char>)
    requires
        lex_lt(a, b),
        lex_lt(b, c),
    ensures
        lex_lt(a, c),
    decreases a.len(),
{
    if a.len() > 0 && a[0] == b[0] && b[0] == c[0] {
        lemma_lex_trans(a.skip(1), b.skip(1), c.skip(1));
    }
}

/// Whether `a` stands before `b` in the order of strings.
pub fn str_lt(a: &str, b: &str) -> (r: bool)
    ensures
        r == lex_lt(a@, b@),
{
    let x = chars_of(a);
    let y = chars_of(b);
    let mut i: usize = 0;
    assert(x@.skip(0) =~= x@);
    assert(y@.skip(0) =~= y@);
    loop
        invariant
            i <= x@.len(),
            i <= y@.len(),
            x@ == a@,
            y@ == b@,
            lex_lt(a@, b@) == lex_lt(x@.skip(i as int), y@.skip(i as int)),
        decreases x@.len() - i,
    {
        if i == y.len() {
            return false;
        }
        if i == x.len() {
            return true;
        }
        assert(x@.skip(i as int)[0] == x@[i as int]);
        assert(y@.skip(i as int)[0] == y@[i as int]);
        if x[i] != y[i] {
            return x[i] < y[i];
        }
        assert(x@.skip(i as int).skip(1) =~= x@.skip(i + 1));
        assert(y@.skip(i as int).skip(1) =~= y@.skip(i + 1));
        i = i + 1;
    }
}

// ---------------------------------------------------------------------------------------------
// Laws
// ---------------------------------------------------------------------------------------------
proof fn lemma_dec_digits(n: nat)
    ensures
        dec(n).len() > 0,
        forall|i: int| 0 <= i < dec(n).len() ==> #[trigger] digit_of(dec(n)[i], false) is Some,
        digits_value(dec(n), false) == n,
    decreases n,
{
    let d = n % 10;
    assert(digit_of(digit_char(d), false) == Some(d));
    if n < 10 {
        reveal_with_fuel(digits_value, 2);
        assert(dec(n).drop_last() =~= Seq::empty());
    } else {
        lemma_dec_digits(n / 10);
        assert(dec(n).drop_last() =~= dec(n / 10));
        assert forall|i: int| 0 <= i < dec(n).len() implies #[trigger] digit_of(
            dec(n)[i],
            false,
        ) is Some by {
            if i < dec(n / 10).len() {
                assert(digit_of(dec(n / 10)[i], false) is Some);
            }
        }
    }
}

/// A number that is written in decimal is read back, up to the limit of what is read.
pub proof fn law_number_is_read_back(n: nat, max: nat)
    ensures
        n <= max ==> parse_uint(dec(n), false, max) == Some(n),
        n > max ==> parse_uint(dec(n), false, max) is None,
{
    lemma_dec_digits(n);
    assert(digit_of(dec(n)[0], false) is Some);
    assert(strip_plus(dec(n)) == dec(n));
}

/// A text that holds something else than digits is no number, nor is one without digits; the sign
/// before a number does not change it, unless it is a minus sign.
pub proof fn law_only_digits_are_a_number(s: Seq<char>, max: nat, i: int)
    ensures
        parse_uint(Seq::empty(), false, max) is None,
        0 < i < s.len() && !('0' <= s[i] <= '9') ==> parse_uint(s, false, max) is None,
        parse_uint(s, false, max) matches Some(n) ==> n <= max,
        s.len() > 0 && s[0] != '+' ==> parse_uint(seq!['+'] + s, false, max) == parse_uint(
            s,
            false,
            max,
        ),
        s.len() > 0 && s[0] == '-' ==> parse_uint(s, false, max) is None,
{
    if 0 < i < s.len() && !('0' <= s[i] <= '9') {
        let t = strip_plus(s);
        if s[0] == '+' {
            assert(t[i - 1] == s[i]);
            assert(digit_of(t[i - 1], false) is None);
        } else {
            assert(digit_of(t[i], false) is None);
        }
    }
    assert((seq!['+'] + s).skip(1) =~= s);
    if s.len() > 0 && s[0] == '-' {
        assert(digit_of(s[0], false) is None);
    }
}

/// A text is cut at every occurrence of a character: what stands before the first is the first piece,
/// and a text without it is one piece.
pub proof fn law_text_is_cut_at_each(a: Seq<char>, b: Seq<char>, c: char)
    requires
        !a.contains(c),
    ensures
        split_on(a, c) == seq![a],
        split_on(a + seq![c] + b, c) == seq![a] + split_on(b, c),
{
    let s = a + seq![c] + b;
    let n = a.len() as int;
    assert forall|i: int| 0 <= i < n implies s[i] != c by {
        assert(a[i] == s[i]);
        assert(a.contains(a[i]));
    }
    lemma_until_is(s, c, n);
    assert forall|i: int| 0 <= i < n implies a[i] != c by {
        assert(a.contains(a[i]));
    }
    lemma_until_is(a, c, n);
    assert(s.take(n) =~= a);
    assert(s.skip(n + 1) =~= b);
}

/// A word ends at the first white space, and white space before a word does not count.
pub proof fn law_words_end_at_white_space(w: Seq<char>, space: char, rest: Seq<char>)
    requires
        w.len() > 0,
        forall|i: int| 0 <= i < w.len() ==> !is_ws(#[trigger] w[i]),
        is_ws(space),
    ensures
        words(w + seq![space] + rest) == seq![w] + words(rest),
        words(w) == seq![w],
        words(seq![space] + rest) == words(rest),
        words(Seq::<char>::empty()).len() == 0,
{
    reveal_with_fuel(words, 3);
    let s = w + seq![space] + rest;
    let n = w.len() as int;
    assert forall|i: int| 0 <= i < n implies !is_ws(#[trigger] s[i]) by {
        assert(s[i] == w[i]);
    }
    lemma_word_len_is(s, n);
    assert(s.take(n) =~= w);
    assert(!is_ws(s[0]));
    let t = s.skip(n);
    assert(t =~= seq![space] + rest);
    assert(t[0] == space);
    assert(t.skip(1) =~= rest);
    lemma_word_len_is(w, n);
    assert(w.take(n) =~= w);
    assert(w.skip(n) =~= Seq::empty());
    assert(!is_ws(w[0]));
}

/// White space is taken from both ends, and nothing else is.
pub proof fn law_ends_are_trimmed(s: Seq<char>)
    ensures
        trimmed(s).len() > 0 ==> !is_ws(trimmed(s)[0]) && !is_ws(trimmed(s).last()),
        s.len() > 0 && !is_ws(s[0]) && !is_ws(s.last()) ==> trimmed(s) == s,
        trimmed(trimmed(s)) == trimmed(s),
{
    lemma_trim_start(s);
    lemma_trim_end(trim_start(s));
    let t = trimmed(s);
    if t.len() > 0 {
        assert(t[0] == trim_start(s)[0]);
    }
}

proof fn lemma_trim_start(s: Seq<char>)
    ensures
        trim_start(s).len() > 0 ==> !is_ws(trim_start(s)[0]),
    decreases s.len(),
{
    if s.len() > 0 && is_ws(s[0]) {
        lemma_trim_start(s.skip(1));
    }
}

proof fn lemma_trim_end(s: Seq<char>)
    ensures
        trim_end(s).len() <= s.len(),
        trim_end(s) == s.take(trim_end(s).len() as int),
        trim_end(s).len() > 0 ==> !is_ws(trim_end(s).last()),
    decreases s.len(),
{
    if s.len() > 0 && is_ws(s.last()) {
        lemma_trim_end(s.drop_last());
        let t = trim_end(s.drop_last());
        assert(s.drop_last().take(t.len() as int) =~= s.take(t.len() as int));
    } else {
        assert(s.take(s.len() as int) =~= s);
    }
}

/// Texts are ordered by the first character in which they differ; one that goes on is behind one that
/// ends.
pub proof fn law_texts_are_ordered(
    p: Seq<char>,
    x: char,
    a: Seq<char>,
    y: char,
    b: Seq<char>,
)
    ensures
        x < y ==> lex_lt(p + seq![x] + a, p + seq![y] + b),
        lex_lt(p, p + seq![x] + a),
        !lex_lt(p + seq![x] + a, p),
    decreases p.len(),
{
    let l = p + seq![x] + a;
    let r = p + seq![y] + b;
    if p.len() > 0 {
        law_texts_are_ordered(p.skip(1), x, a, y, b);
        assert(l.skip(1) =~= p.skip(1) + seq![x] + a);
        assert(r.skip(1) =~= p.skip(1) + seq![y] + b);
    }
}

/// Upper and lower case of the letters A to Z do not differ, and nothing else is taken for the same.
pub proof fn law_case_is_ignored(a: Seq<char>, b: Seq<char>, i: int)
    ensures
        same_ignoring_case(a, a),
        same_ignoring_case(a, b) ==> a.len() == b.len(),
        same_ignoring_case(a, b) && 0 <= i < a.len() && !('A' <= a[i] <= 'Z') && !('A' <= b[i]
            <= 'Z') ==> a[i] == b[i],
        ascii_lower('A') == 'a',
        ascii_lower('Z') == 'z',
{
    let f = |c: char| ascii_lower(c);
    if same_ignoring_case(a, b) {
        assert(a.map_values(f).len() == b.map_values(f).len());
        if 0 <= i < a.len() {
            assert(a.map_values(f)[i] == ascii_lower(a[i]));
            assert(b.map_values(f)[i] == ascii_lower(b[i]));
        }
    }
}

/// What follows a beginning is found, and only where the text begins so.
pub proof fn law_beginning_is_cut_off(p: Seq<char>, s: Seq<char>)
    ensures
        after_prefix(p + s, p) == Some(s),
        after_prefix(s, p) is None <==> !p.is_prefix_of(s),
{
    assert((p + s).take(p.len() as int) =~= p);
    assert((p + s).subrange(0, p.len() as int) =~= p);
    assert((p + s).skip(p.len() as int) =~= s);
}

} // verus!
