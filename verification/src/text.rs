use vstd::prelude::*;

verus! {

broadcast use vstd::string::group_string_axioms;

/// `true` when `prefix` is a prefix of `s`.
pub open spec fn is_prefix(prefix: Seq<char>, s: Seq<char>) -> bool {
    prefix.len() <= s.len() && s.subrange(0, prefix.len() as int) == prefix
}

/// `true` when `needle` occurs in `s` at position `i`.
pub open spec fn occurs_at(needle: Seq<char>, s: Seq<char>, i: int) -> bool {
    0 <= i && i + needle.len() <= s.len() && s.subrange(i, i + needle.len()) == needle
}

/// `true` when `needle` occurs somewhere in `s`.
pub open spec fn contains_seq(s: Seq<char>, needle: Seq<char>) -> bool {
    exists|i: int| occurs_at(needle, s, i)
}

/// The characters of a string slice.
pub fn chars_of(s: &str) -> (v: Vec<char>)
    ensures
        v@ == s@,
{
    let mut v: Vec<char> = Vec::new();
    for c in it: s.chars()
        invariant
            v@ == it.seq().take(it.index() as int),
            it.seq() == s@,
    {
        v.push(c);
    }
    v
}

/// An owned copy of a string slice.
pub fn owned(s: &str) -> (r: String)
    ensures
        r@ == s@,
{
    s.to_owned()
}

/// Whether two string slices hold the same characters.
pub fn str_eq(a: &str, b: &str) -> (r: bool)
    ensures
        r == (a@ == b@),
{
    let x = a.to_owned();
    let y = b.to_owned();
    x == y
}

/// Appends one character to a string (`String::push`).
#[verifier::external_body]
pub(crate) fn push_char(s: &mut String, c: char)
    ensures
        final(s)@ == old(s)@.push(c),
{
    s.push(c);
}

/// Appends a string slice to a string.
pub fn push_str(s: &mut String, t: &str)
    ensures
        final(s)@ == old(s)@ + t@,
{
    s.append(t);
}

/// Whether `prefix` starts the character sequence `s`.
pub fn seq_starts_with(s: &Vec<char>, prefix: &str) -> (r: bool)
    ensures
        r == is_prefix(prefix@, s@),
{
    let p = chars_of(prefix);
    if p.len() > s.len() {
        return false;
    }
    let mut i: usize = 0;
    while i < p.len()
        invariant
            p@ == prefix@,
            p.len() <= s.len(),
            i <= p.len(),
            forall|k: int| 0 <= k < i ==> s@[k] == p@[k],
        decreases p.len() - i,
    {
        if s[i] != p[i] {
            assert(s@.subrange(0, p@.len() as int)[i as int] != p@[i as int]);
            return false;
        }
        i += 1;
    }
    assert(s@.subrange(0, p@.len() as int) =~= p@);
    true
}

/// Whether the characters of `needle` occur at `start` in `s`.
pub fn seq_matches_at(s: &Vec<char>, needle: &Vec<char>, start: usize) -> (r: bool)
    ensures
        r == occurs_at(needle@, s@, start as int),
{
    if start > s.len() || needle.len() > s.len() - start {
        return false;
    }
    let mut i: usize = 0;
    while i < needle.len()
        invariant
            start + needle.len() <= s.len(),
            i <= needle.len(),
            forall|k: int| 0 <= k < i ==> s@[start + k] == needle@[k],
        decreases needle.len() - i,
    {
        if s[start + i] != needle[i] {
            assert(s@.subrange(start as int, start + needle@.len())[i as int] != needle@[i as int]);
            return false;
        }
        i += 1;
    }
    assert(s@.subrange(start as int, start + needle@.len()) =~= needle@);
    true
}

/// Whether `needle` occurs anywhere in `s`.
pub fn seq_contains(s: &Vec<char>, needle: &str) -> (r: bool)
    ensures
        r == contains_seq(s@, needle@),
{
    let n = chars_of(needle);
    if n.len() > s.len() {
        assert forall|i: int| !occurs_at(n@, s@, i) by {}
        return false;
    }
    if n.len() == 0 {
        assert(s@.subrange(0, 0) =~= n@);
        assert(occurs_at(n@, s@, 0));
        return true;
    }
    let mut start: usize = 0;
    while start <= s.len() - n.len()
        invariant
            n@ == needle@,
            0 < n.len() <= s.len(),
            start <= s.len() - n.len() + 1,
            forall|i: int| 0 <= i < start ==> !occurs_at(n@, s@, i),
        decreases s.len() - n.len() + 1 - start,
    {
        if seq_matches_at(s, &n, start) {
            return true;
        }
        start += 1;
    }
    assert forall|i: int| !occurs_at(n@, s@, i) by {
        if 0 <= i && i < start {
        }
    }
    false
}

/// Whether the string `s` starts with `prefix`.
pub fn starts_with(s: &str, prefix: &str) -> (r: bool)
    ensures
        r == is_prefix(prefix@, s@),
{
    let v = chars_of(s);
    seq_starts_with(&v, prefix)
}

/// Whether the string `s` contains `needle`.
pub fn contains(s: &str, needle: &str) -> (r: bool)
    ensures
        r == contains_seq(s@, needle@),
{
    let v = chars_of(s);
    seq_contains(&v, needle)
}

/// A string made of the given characters.
pub fn string_from_chars(v: &Vec<char>) -> (r: String)
    ensures
        r@ == v@,
{
    let mut r = String::new();
    let mut i: usize = 0;
    while i < v.len()
        invariant
            i <= v.len(),
            r@ == v@.take(i as int),
        decreases v.len() - i,
    {
        push_char(&mut r, v[i]);
        assert(v@.take(i as int).push(v@[i as int]) =~= v@.take(i + 1));
        i += 1;
    }
    assert(v@.take(v.len() as int) =~= v@);
    r
}

/// The string `s` without its first `n` characters.
pub fn skip_chars(s: &str, n: usize) -> (r: String)
    requires
        n <= s@.len(),
    ensures
        r@ == s@.skip(n as int),
{
    let v = chars_of(s);
    let mut r = String::new();
    let mut i: usize = n;
    while i < v.len()
        invariant
            n <= i <= v.len(),
            v@ == s@,
            r@ == s@.subrange(n as int, i as int),
        decreases v.len() - i,
    {
        push_char(&mut r, v[i]);
        assert(s@.subrange(n as int, i as int).push(v@[i as int]) =~= s@.subrange(n as int, i + 1));
        i += 1;
    }
    assert(s@.subrange(n as int, v.len() as int) =~= s@.skip(n as int));
    r
}

/// The decimal digits of a natural number, most significant first.
pub open spec fn decimal(n: nat) -> Seq<char>
    decreases n,
{
    if n < 10 {
        seq![digit_char(n)]
    } else {
        decimal(n / 10).push(digit_char(n % 10))
    }
}

/// The character of a decimal digit.
pub open spec fn digit_char(d: nat) -> char {
    if d == 0 { '0' }
    else if d == 1 { '1' }
    else if d == 2 { '2' }
    else if d == 3 { '3' }
    else if d == 4 { '4' }
    else if d == 5 { '5' }
    else if d == 6 { '6' }
    else if d == 7 { '7' }
    else if d == 8 { '8' }
    else { '9' }
}

fn digit(d: u64) -> (c: char)
    requires
        d < 10,
    ensures
        c == digit_char(d as nat),
{
    if d == 0 { '0' }
    else if d == 1 { '1' }
    else if d == 2 { '2' }
    else if d == 3 { '3' }
    else if d == 4 { '4' }
    else if d == 5 { '5' }
    else if d == 6 { '6' }
    else if d == 7 { '7' }
    else if d == 8 { '8' }
    else { '9' }
}

/// Appends the decimal form of `n` to `s`.
pub fn push_decimal(s: &mut String, n: u64)
    ensures
        final(s)@ == old(s)@ + decimal(n as nat),
    decreases n,
{
    if n < 10 {
        push_char(s, digit(n));
        assert(old(s)@.push(digit_char(n as nat)) =~= old(s)@ + seq![digit_char(n as nat)]);
    } else {
        push_decimal(s, n / 10);
        push_char(s, digit(n % 10));
        assert(old(s)@ + decimal((n / 10) as nat) + seq![digit_char((n % 10) as nat)]
            =~= old(s)@ + decimal((n / 10) as nat).push(digit_char((n % 10) as nat)));
    }
}

/// The decimal form of an integer, with a leading `-` when negative.
pub open spec fn int_text(i: int) -> Seq<char> {
    if i < 0 {
        seq!['-'] + decimal((-i) as nat)
    } else {
        decimal(i as nat)
    }
}

/// Appends the decimal form of `n`, signed, to `s`.
pub fn push_signed(s: &mut String, n: i64)
    ensures
        final(s)@ == old(s)@ + int_text(n as int),
{
    if n < 0 {
        push_char(s, '-');
        let m: u64 = if n == i64::MIN { 9_223_372_036_854_775_808u64 } else { (-n) as u64 };
        assert(m == -(n as int));
        push_decimal(s, m);
        assert(old(s)@.push('-') + decimal(m as nat) =~= old(s)@ + (seq!['-'] + decimal(m as nat)));
    } else {
        push_decimal(s, n as u64);
    }
}

/// The lower-case hexadecimal digits of a natural number, most
/// significant first (as `{:x}` writes it).
pub open spec fn hex_text(n: nat) -> Seq<char>
    decreases n,
{
    if n < 16 {
        seq![hex_char(n)]
    } else {
        hex_text(n / 16).push(hex_char(n % 16))
    }
}

/// The lower-case character of a hexadecimal digit.
pub open spec fn hex_char(d: nat) -> char {
    if d < 10 { digit_char(d) }
    else if d == 10 { 'a' }
    else if d == 11 { 'b' }
    else if d == 12 { 'c' }
    else if d == 13 { 'd' }
    else if d == 14 { 'e' }
    else { 'f' }
}

pub(crate) fn hex_digit_char(d: u64) -> (c: char)
    requires
        d < 16,
    ensures
        c == hex_char(d as nat),
{
    if d < 10 { digit(d) }
    else if d == 10 { 'a' }
    else if d == 11 { 'b' }
    else if d == 12 { 'c' }
    else if d == 13 { 'd' }
    else if d == 14 { 'e' }
    else { 'f' }
}

/// Appends the lower-case hexadecimal form of `n` to `s`.
pub fn push_hex(s: &mut String, n: u64)
    ensures
        final(s)@ == old(s)@ + hex_text(n as nat),
    decreases n,
{
    if n < 16 {
        push_char(s, hex_digit_char(n));
        assert(old(s)@.push(hex_char(n as nat)) =~= old(s)@ + seq![hex_char(n as nat)]);
    } else {
        push_hex(s, n / 16);
        push_char(s, hex_digit_char(n % 16));
        assert(old(s)@ + hex_text((n / 16) as nat) + seq![hex_char((n % 16) as nat)]
            =~= old(s)@ + hex_text((n / 16) as nat).push(hex_char((n % 16) as nat)));
    }
}

} // verus!
