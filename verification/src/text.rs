//! Text as sequences of characters: conversions between strings and
//! character vectors, and the small pieces that the parsers share.

use vstd::prelude::*;
use vstd::utf8::{encode_scalar, encode_utf8};

verus! {

/// Whether a character has the Unicode property `White_Space`.
pub uninterp spec fn spec_is_whitespace(c: char) -> bool;

/// `char::is_whitespace`: tells whether the character has the Unicode
/// property `White_Space`. The contract gives that answer a name and says
/// nothing of which characters have the property.
pub assume_specification[ char::is_whitespace ](c: char) -> (b: bool)
    ensures
        b == spec_is_whitespace(c),
;

/// `String::push`: the character is appended and nothing else changes.
pub assume_specification[ String::push ](s: &mut String, c: char)
    ensures
        final(s)@ == old(s)@.push(c),
;

/// The characters of a string, in order.
pub fn chars_of(s: &str) -> (v: Vec<char>)
    ensures
        v@ == s@,
{
    let mut v: Vec<char> = Vec::new();
    for c in iter: s.chars()
        invariant
            iter.seq() == s@,
            v@ == iter.seq().take(iter.index() as int),
    {
        v.push(c);
        assert(v@ =~= iter.seq().take(iter.index() + 1));
    }
    assert(v@ =~= s@);
    v
}

/// The string made of the given characters, in order.
pub fn string_of(chars: &[char]) -> (s: String)
    ensures
        s@ == chars@,
{
    let mut s = String::new();
    let mut i: usize = 0;
    while i < chars.len()
        invariant
            i <= chars@.len(),
            s@ == chars@.take(i as int),
        decreases chars@.len() - i,
    {
        s.push(chars[i]);
        i += 1;
        assert(s@ =~= chars@.take(i as int));
    }
    assert(chars@.take(chars@.len() as int) =~= chars@);
    s
}

/// The value of a hexadecimal digit, in either case.
pub open spec fn spec_hex_digit(c: char) -> Option<u8> {
    if '0' <= c <= '9' {
        Some((c as u32 - '0' as u32) as u8)
    } else if 'a' <= c <= 'f' {
        Some((c as u32 - 'a' as u32 + 10) as u8)
    } else if 'A' <= c <= 'F' {
        Some((c as u32 - 'A' as u32 + 10) as u8)
    } else {
        None
    }
}

/// The byte that two characters spell in hexadecimal: two digits, or a
/// plus sign and one digit.
pub open spec fn spec_hex_pair(hi: char, lo: char) -> Option<u8> {
    if hi == '+' {
        spec_hex_digit(lo)
    } else {
        match (spec_hex_digit(hi), spec_hex_digit(lo)) {
            (Some(h), Some(l)) => Some((h * 16 + l) as u8),
            _ => None,
        }
    }
}

/// The value of a hexadecimal digit, in either case.
pub fn hex_digit(c: char) -> (r: Option<u8>)
    ensures
        r == spec_hex_digit(c),
        r matches Some(d) ==> d < 16,
{
    if '0' <= c && c <= '9' {
        Some((c as u32 - '0' as u32) as u8)
    } else if 'a' <= c && c <= 'f' {
        Some((c as u32 - 'a' as u32 + 10) as u8)
    } else if 'A' <= c && c <= 'F' {
        Some((c as u32 - 'A' as u32 + 10) as u8)
    } else {
        None
    }
}

/// The byte that two characters spell in hexadecimal.
pub fn hex_pair(hi: char, lo: char) -> (r: Option<u8>)
    ensures
        r == spec_hex_pair(hi, lo),
{
    if hi == '+' {
        hex_digit(lo)
    } else {
        match (hex_digit(hi), hex_digit(lo)) {
            (Some(h), Some(l)) => Some(h * 16 + l),
            _ => None,
        }
    }
}

/// The lower-case form of a text, as Unicode defines it.
pub uninterp spec fn spec_lowercase(s: Seq<char>) -> Seq<char>;

/// `str::to_lowercase`: the lower-case form of the text, which depends on
/// the text alone. The contract gives it a name and says nothing more.
pub assume_specification[ str::to_lowercase ](s: &str) -> (r: String)
    ensures
        r@ == spec_lowercase(s@),
;

/// Whether a slice of characters spells the given text.
pub fn same_text(a: &[char], text: &str) -> (b: bool)
    ensures
        b == (a@ == text@),
{
    let t = chars_of(text);
    if a.len() != t.len() {
        return false;
    }
    let mut i: usize = 0;
    while i < a.len()
        invariant
            i <= a@.len(),
            a@.len() == t@.len(),
            t@ == text@,
            forall|k: int| 0 <= k < i ==> a@[k] == t@[k],
        decreases a@.len() - i,
    {
        if a[i] != t[i] {
            return false;
        }
        i += 1;
    }
    assert(a@ =~= t@);
    true
}

/// A text followed by more characters, as a string.
pub fn text_then(text: &str, more: &[char]) -> (s: String)
    ensures
        s@ == text@ + more@,
{
    let mut s = text.to_owned();
    let mut i: usize = 0;
    assert(s@ =~= text@ + more@.take(0));
    while i < more.len()
        invariant
            i <= more@.len(),
            s@ == text@ + more@.take(i as int),
        decreases more@.len() - i,
    {
        s.push(more[i]);
        i += 1;
        assert(s@ =~= text@ + more@.take(i as int));
    }
    assert(more@.take(more@.len() as int) =~= more@);
    s
}

/// The number of characters at the front of `s` that are white space.
pub open spec fn spec_leading_whitespace(s: Seq<char>) -> nat
    decreases s.len(),
{
    if s.len() > 0 && spec_is_whitespace(s[0]) {
        1 + spec_leading_whitespace(s.skip(1))
    } else {
        0
    }
}

/// The number of characters at the front of `s` that are not white space.
pub open spec fn spec_leading_word(s: Seq<char>) -> nat
    decreases s.len(),
{
    if s.len() > 0 && !spec_is_whitespace(s[0]) {
        1 + spec_leading_word(s.skip(1))
    } else {
        0
    }
}

/// The number of characters at the end of `s` that are white space.
pub open spec fn spec_trailing_whitespace(s: Seq<char>) -> nat
    decreases s.len(),
{
    if s.len() > 0 && spec_is_whitespace(s.last()) {
        1 + spec_trailing_whitespace(s.drop_last())
    } else {
        0
    }
}

/// The text without the white space at its front.
pub open spec fn spec_trim_start(s: Seq<char>) -> Seq<char> {
    s.skip(spec_leading_whitespace(s) as int)
}

/// The text without the white space at its end.
pub open spec fn spec_trim_end(s: Seq<char>) -> Seq<char> {
    s.take(s.len() - spec_trailing_whitespace(s))
}

/// The text without the white space at its front and at its end.
pub open spec fn spec_trim(s: Seq<char>) -> Seq<char> {
    spec_trim_end(spec_trim_start(s))
}

/// The runs are never longer than the text.
pub proof fn lemma_runs_within(s: Seq<char>)
    ensures
        spec_leading_whitespace(s) <= s.len(),
        spec_leading_word(s) <= s.len(),
        spec_trailing_whitespace(s) <= s.len(),
    decreases s.len(),
{
    if s.len() > 0 {
        lemma_runs_within(s.skip(1));
        lemma_runs_within(s.drop_last());
    }
}

/// The number of white space characters in `s` from `at` on, before the
/// first other character.
pub fn leading_whitespace(s: &[char], at: usize) -> (n: usize)
    requires
        at <= s@.len(),
    ensures
        n == spec_leading_whitespace(s@.skip(at as int)),
        at + n <= s@.len(),
{
    let mut i: usize = at;
    while i < s.len() && s[i].is_whitespace()
        invariant
            at <= i <= s@.len(),
            spec_leading_whitespace(s@.skip(at as int)) == (i - at) + spec_leading_whitespace(
                s@.skip(i as int),
            ),
        decreases s@.len() - i,
    {
        assert(s@.skip(i as int)[0] == s@[i as int]);
        assert(s@.skip(i as int).skip(1) =~= s@.skip(i + 1));
        i += 1;
    }
    proof {
        if i < s.len() {
            assert(s@.skip(i as int)[0] == s@[i as int]);
        }
    }
    i - at
}

/// The number of characters in `s` from `at` on, before the first white
/// space.
pub fn leading_word(s: &[char], at: usize) -> (n: usize)
    requires
        at <= s@.len(),
    ensures
        n == spec_leading_word(s@.skip(at as int)),
        at + n <= s@.len(),
{
    let mut i: usize = at;
    while i < s.len() && !s[i].is_whitespace()
        invariant
            at <= i <= s@.len(),
            spec_leading_word(s@.skip(at as int)) == (i - at) + spec_leading_word(
                s@.skip(i as int),
            ),
        decreases s@.len() - i,
    {
        assert(s@.skip(i as int)[0] == s@[i as int]);
        assert(s@.skip(i as int).skip(1) =~= s@.skip(i + 1));
        i += 1;
    }
    proof {
        if i < s.len() {
            assert(s@.skip(i as int)[0] == s@[i as int]);
        }
    }
    i - at
}

/// The number of white space characters at the end of `s`.
pub fn trailing_whitespace(s: &[char]) -> (n: usize)
    ensures
        n == spec_trailing_whitespace(s@),
        n <= s@.len(),
{
    let mut end: usize = s.len();
    assert(s@.take(end as int) =~= s@);
    while end > 0 && s[end - 1].is_whitespace()
        invariant
            end <= s@.len(),
            spec_trailing_whitespace(s@) == (s@.len() - end) + spec_trailing_whitespace(
                s@.take(end as int),
            ),
        decreases end,
    {
        assert(s@.take(end as int).last() == s@[end - 1]);
        assert(s@.take(end as int).drop_last() =~= s@.take(end - 1));
        end -= 1;
    }
    proof {
        if end > 0 {
            assert(s@.take(end as int).last() == s@[end - 1]);
        }
    }
    s.len() - end
}

/// The text without the white space at its front and at its end.
pub fn trim(s: &[char]) -> (t: &[char])
    ensures
        t@ == spec_trim(s@),
{
    let start = leading_whitespace(s, 0);
    assert(s@.skip(0) =~= s@);
    let tail = &s[start..s.len()];
    assert(tail@ =~= spec_trim_start(s@));
    let end = tail.len() - trailing_whitespace(tail);
    &tail[0..end]
}

/// The words of a text: its longest runs of characters that are not white
/// space, in order.
pub open spec fn spec_split_whitespace(s: Seq<char>) -> Seq<Seq<char>>
    decreases s.len(),
    via spec_split_whitespace_decreases
{
    let t = spec_trim_start(s);
    if t.len() == 0 {
        Seq::empty()
    } else {
        let n = spec_leading_word(t) as int;
        seq![t.take(n)] + spec_split_whitespace(t.skip(n))
    }
}

#[via_fn]
proof fn spec_split_whitespace_decreases(s: Seq<char>) {
    let t = spec_trim_start(s);
    lemma_runs_within(s);
    lemma_runs_within(t);
    if t.len() != 0 {
        lemma_trim_start_first(s);
        assert(spec_leading_word(t) >= 1);
    }
}

/// The texts that a vector of character vectors holds.
pub open spec fn spec_texts(parts: Seq<Vec<char>>) -> Seq<Seq<char>> {
    parts.map_values(|p: Vec<char>| p@)
}

/// A copy of the characters from `from` up to `to`.
pub fn copy_range(s: &[char], from: usize, to: usize) -> (v: Vec<char>)
    requires
        from <= to <= s@.len(),
    ensures
        v@ == s@.subrange(from as int, to as int),
{
    let mut v: Vec<char> = Vec::new();
    let mut i: usize = from;
    while i < to
        invariant
            from <= i <= to <= s@.len(),
            v@ == s@.subrange(from as int, i as int),
        decreases to - i,
    {
        v.push(s[i]);
        i += 1;
        assert(v@ =~= s@.subrange(from as int, i as int));
    }
    v
}

/// The words of a text, in order.
pub fn split_whitespace(s: &[char]) -> (parts: Vec<Vec<char>>)
    ensures
        spec_texts(parts@) == spec_split_whitespace(s@),
{
    let mut parts: Vec<Vec<char>> = Vec::new();
    let mut at: usize = 0;
    let len = s.len();
    assert(s@.skip(0) =~= s@);
    assert(spec_texts(parts@) + spec_split_whitespace(s@) =~= spec_split_whitespace(s@));
    loop
        invariant_except_break
            at <= s@.len(),
            len == s@.len(),
            spec_texts(parts@) + spec_split_whitespace(s@.skip(at as int))
                == spec_split_whitespace(s@),
        ensures
            spec_texts(parts@) == spec_split_whitespace(s@),
        decreases s@.len() - at,
    {
        let ghost here = s@.skip(at as int);
        let ghost done = spec_texts(parts@);
        let start = at + leading_whitespace(s, at);
        if start >= len {
            assert(spec_trim_start(here) =~= Seq::<char>::empty());
            assert(done + Seq::<Seq<char>>::empty() =~= done);
            break;
        }
        let n = leading_word(s, start);
        let ghost t = spec_trim_start(here);
        assert(t =~= s@.skip(start as int));
        assert(n >= 1) by {
            assert(t[0] == s@[start as int]);
            assert(!spec_is_whitespace(t[0])) by {
                lemma_trim_start_first(here);
            }
        }
        let word = copy_range(s, start, start + n);
        assert(word@ =~= t.take(n as int));
        assert(t.skip(n as int) =~= s@.skip(start + n));
        parts.push(word);
        assert(spec_texts(parts@) =~= done.push(word@));
        at = start + n;
        assert(done.push(word@) + spec_split_whitespace(s@.skip(at as int)) =~= done + (seq![
            word@,
        ] + spec_split_whitespace(s@.skip(at as int))));
    }
    parts
}

/// A trimmed text does not start with white space.
pub proof fn lemma_trim_start_first(s: Seq<char>)
    ensures
        spec_trim_start(s).len() > 0 ==> !spec_is_whitespace(spec_trim_start(s)[0]),
    decreases s.len(),
{
    lemma_runs_within(s);
    if s.len() > 0 && spec_is_whitespace(s[0]) {
        lemma_trim_start_first(s.skip(1));
        lemma_runs_within(s.skip(1));
        assert(spec_trim_start(s) =~= spec_trim_start(s.skip(1)));
    }
}

/// The number of characters of `s` in front of the first `mark`, or the
/// length of `s` if there is none.
pub open spec fn spec_find(s: Seq<char>, mark: char) -> nat
    decreases s.len(),
{
    if s.len() > 0 && s[0] != mark {
        1 + spec_find(s.skip(1), mark)
    } else {
        0
    }
}

/// What lies in front of the first `mark` and what lies behind it, if the
/// text holds one.
pub open spec fn spec_split_once(s: Seq<char>, mark: char) -> Option<(Seq<char>, Seq<char>)> {
    let i = spec_find(s, mark) as int;
    if i < s.len() {
        Some((s.take(i), s.skip(i + 1)))
    } else {
        None
    }
}

/// The position of the first `mark` at or behind `at`, or the length of
/// `s` if there is none.
pub fn find(s: &[char], at: usize, mark: char) -> (i: usize)
    requires
        at <= s@.len(),
    ensures
        at <= i <= s@.len(),
        i - at == spec_find(s@.skip(at as int), mark),
{
    let mut i: usize = at;
    while i < s.len() && s[i] != mark
        invariant
            at <= i <= s@.len(),
            spec_find(s@.skip(at as int), mark) == (i - at) + spec_find(s@.skip(i as int), mark),
        decreases s@.len() - i,
    {
        assert(s@.skip(i as int)[0] == s@[i as int]);
        assert(s@.skip(i as int).skip(1) =~= s@.skip(i + 1));
        i += 1;
    }
    proof {
        if i < s.len() {
            assert(s@.skip(i as int)[0] == s@[i as int]);
        }
    }
    i
}

/// Splits a text at its first `mark`.
pub fn split_once(s: &[char], mark: char) -> (r: Option<(&[char], &[char])>)
    ensures
        match r {
            Some((front, back)) => spec_split_once(s@, mark) == Some((front@, back@)),
            None => spec_split_once(s@, mark) is None,
        },
{
    assert(s@.skip(0) =~= s@);
    let i = find(s, 0, mark);
    if i < s.len() {
        let front = &s[0..i];
        let back = &s[i + 1..s.len()];
        assert(front@ =~= s@.take(i as int));
        assert(back@ =~= s@.skip(i + 1));
        Some((front, back))
    } else {
        None
    }
}

/// The pieces of a text between its `mark`s, empty pieces included; a text
/// without a `mark` is one piece.
pub open spec fn spec_split(s: Seq<char>, mark: char) -> Seq<Seq<char>>
    decreases s.len(),
    via spec_split_decreases
{
    let i = spec_find(s, mark) as int;
    if i < s.len() {
        seq![s.take(i)] + spec_split(s.skip(i + 1), mark)
    } else {
        seq![s]
    }
}

#[via_fn]
proof fn spec_split_decreases(s: Seq<char>, mark: char) {
}

/// Appends the pieces of `s` between its `mark`s to `out`.
pub fn split_into(s: &[char], mark: char, out: &mut Vec<Vec<char>>)
    ensures
        spec_texts(final(out)@) == spec_texts(old(out)@) + spec_split(s@, mark),
{
    let mut at: usize = 0;
    assert(s@.skip(0) =~= s@);
    loop
        invariant_except_break
            at <= s@.len(),
            spec_texts(out@) + spec_split(s@.skip(at as int), mark) == spec_texts(old(out)@)
                + spec_split(s@, mark),
        ensures
            spec_texts(out@) == spec_texts(old(out)@) + spec_split(s@, mark),
        decreases s@.len() - at,
    {
        let ghost here = s@.skip(at as int);
        let ghost done = spec_texts(out@);
        let i = find(s, at, mark);
        let piece = copy_range(s, at, i);
        assert(piece@ =~= here.take(i - at));
        out.push(piece);
        assert(spec_texts(out@) =~= done.push(piece@));
        if i >= s.len() {
            assert(here.take(here.len() as int) =~= here);
            assert(done.push(piece@) =~= done + seq![here]);
            break;
        }
        assert(here.skip(i - at + 1) =~= s@.skip(i + 1));
        assert(done.push(piece@) + spec_split(s@.skip(i + 1), mark) =~= done + (seq![piece@]
            + spec_split(s@.skip(i + 1), mark)));
        at = i + 1;
    }
}

/// The texts one behind the other, with `mark` between each two.
pub open spec fn spec_join(parts: Seq<Seq<char>>, mark: char) -> Seq<char>
    decreases parts.len(),
{
    if parts.len() == 0 {
        Seq::empty()
    } else if parts.len() == 1 {
        parts[0]
    } else {
        spec_join(parts.drop_last(), mark) + seq![mark] + parts.last()
    }
}

/// The texts one behind the other, with `mark` between each two.
pub fn join(parts: &Vec<Vec<char>>, mark: char) -> (joined: Vec<char>)
    ensures
        joined@ == spec_join(spec_texts(parts@), mark),
{
    let mut joined: Vec<char> = Vec::new();
    let mut i: usize = 0;
    assert(spec_texts(parts@).take(0) =~= Seq::<Seq<char>>::empty());
    while i < parts.len()
        invariant
            i <= parts@.len(),
            joined@ == spec_join(spec_texts(parts@).take(i as int), mark),
        decreases parts@.len() - i,
    {
        let ghost before = joined@;
        let ghost texts = spec_texts(parts@);
        if i > 0 {
            joined.push(mark);
        }
        let part = &parts[i];
        let mut k: usize = 0;
        let ghost base = joined@;
        assert(base + part@.take(0) =~= base);
        while k < part.len()
            invariant
                k <= part@.len(),
                joined@ == base + part@.take(k as int),
            decreases part@.len() - k,
        {
            joined.push(part[k]);
            k += 1;
            assert(joined@ =~= base + part@.take(k as int));
        }
        assert(part@.take(part@.len() as int) =~= part@);
        assert(texts.take(i + 1).drop_last() =~= texts.take(i as int));
        assert(texts.take(i + 1).last() == part@);
        assert(joined@ =~= spec_join(texts.take(i + 1), mark)) by {
            if i == 0 {
                assert(before =~= Seq::<char>::empty());
            }
        }
        i += 1;
    }
    assert(spec_texts(parts@).take(parts@.len() as int) =~= spec_texts(parts@));
    joined
}

/// Whether `s` starts with `prefix`.
pub open spec fn spec_starts_with(s: Seq<char>, prefix: Seq<char>) -> bool {
    prefix.len() <= s.len() && s.take(prefix.len() as int) == prefix
}

/// Whether `s` ends with `suffix`.
pub open spec fn spec_ends_with(s: Seq<char>, suffix: Seq<char>) -> bool {
    suffix.len() <= s.len() && s.skip(s.len() - suffix.len()) == suffix
}

/// Whether `s` starts with `prefix`.
pub fn starts_with(s: &[char], prefix: &str) -> (b: bool)
    ensures
        b == spec_starts_with(s@, prefix@),
{
    let p = chars_of(prefix);
    if p.len() > s.len() {
        return false;
    }
    let front = &s[0..p.len()];
    assert(front@ =~= s@.take(p@.len() as int));
    same_text(front, prefix)
}

/// Whether `s` ends with `suffix`.
pub fn ends_with(s: &[char], suffix: &str) -> (b: bool)
    ensures
        b == spec_ends_with(s@, suffix@),
{
    let p = chars_of(suffix);
    if p.len() > s.len() {
        return false;
    }
    let back = &s[s.len() - p.len()..s.len()];
    assert(back@ =~= s@.skip(s@.len() - p@.len()));
    same_text(back, suffix)
}

/// The value of a decimal digit.
pub open spec fn spec_digit(c: char) -> Option<u8> {
    if '0' <= c <= '9' {
        Some((c as u32 - '0' as u32) as u8)
    } else {
        None
    }
}

/// The number that a run of decimal digits spells; none for an empty run
/// or one that holds anything but digits.
pub open spec fn spec_decimal_value(s: Seq<char>) -> Option<nat>
    decreases s.len(),
{
    if s.len() == 0 {
        None
    } else {
        match spec_digit(s.last()) {
            None => None,
            Some(d) => if s.len() == 1 {
                Some(d as nat)
            } else {
                match spec_decimal_value(s.drop_last()) {
                    None => None,
                    Some(v) => Some(v * 10 + d as nat),
                }
            },
        }
    }
}

/// The 16-bit number that a text spells in decimal: digits, with or
/// without a plus sign in front, whose value is at most 65535.
pub open spec fn spec_parse_u16(s: Seq<char>) -> Option<u16> {
    let digits = if s.len() > 0 && s[0] == '+' {
        s.skip(1)
    } else {
        s
    };
    match spec_decimal_value(digits) {
        Some(v) => if v <= u16::MAX {
            Some(v as u16)
        } else {
            None
        },
        None => None,
    }
}

/// A run of digits spells no less than any of its non-empty fronts.
pub proof fn lemma_decimal_value_front(s: Seq<char>, n: int)
    requires
        1 <= n <= s.len(),
        spec_decimal_value(s) is Some,
    ensures
        spec_decimal_value(s.take(n)) is Some,
        spec_decimal_value(s.take(n)).unwrap() <= spec_decimal_value(s).unwrap(),
    decreases s.len() - n,
{
    if n == s.len() {
        assert(s.take(n) =~= s);
    } else {
        lemma_decimal_value_front(s.drop_last(), n);
        assert(s.drop_last().take(n) =~= s.take(n));
    }
}

/// The 16-bit number that a text spells in decimal.
pub fn parse_u16(s: &[char]) -> (r: Option<u16>)
    ensures
        r == spec_parse_u16(s@),
{
    let start: usize = if s.len() > 0 && s[0] == '+' {
        1
    } else {
        0
    };
    let digits = &s[start..s.len()];
    assert(digits@ =~= (if s@.len() > 0 && s@[0] == '+' {
        s@.skip(1)
    } else {
        s@
    }));
    if digits.len() == 0 {
        return None;
    }
    let mut value: u32 = 0;
    let mut i: usize = 0;
    while i < digits.len()
        invariant
            i <= digits@.len(),
            value <= u16::MAX,
            digits@.len() > 0,
            digits@ == (if s@.len() > 0 && s@[0] == '+' {
                s@.skip(1)
            } else {
                s@
            }),
            i > 0 ==> spec_decimal_value(digits@.take(i as int)) == Some(value as nat),
            i == 0 ==> value == 0,
        decreases digits@.len() - i,
    {
        let c = digits[i];
        let ghost front = digits@.take(i + 1);
        assert(front.last() == c);
        assert(front.drop_last() =~= digits@.take(i as int));
        if !('0' <= c && c <= '9') {
            proof {
                if spec_decimal_value(digits@) is Some {
                    lemma_decimal_value_front(digits@, i + 1);
                }
            }
            return None;
        }
        let d: u32 = c as u32 - '0' as u32;
        let next: u32 = value * 10 + d;
        if next > 65535 {
            proof {
                if spec_decimal_value(digits@) is Some {
                    lemma_decimal_value_front(digits@, i + 1);
                }
            }
            return None;
        }
        value = next;
        i += 1;
    }
    assert(digits@.take(i as int) =~= digits@);
    Some(value as u16)
}

/// The character that stands for a digit below sixteen, in lower case.
pub open spec fn spec_digit_char(d: int) -> char {
    if d < 10 {
        ((d + '0' as u32) as u32) as char
    } else {
        ((d - 10 + 'a' as u32) as u32) as char
    }
}

/// The character that stands for a digit below sixteen, in upper case.
pub open spec fn spec_digit_char_upper(d: int) -> char {
    if d < 10 {
        ((d + '0' as u32) as u32) as char
    } else {
        ((d - 10 + 'A' as u32) as u32) as char
    }
}

/// A number in decimal, without leading zeros.
pub open spec fn spec_decimal(n: nat) -> Seq<char>
    decreases n,
{
    if n < 10 {
        seq![spec_digit_char(n as int)]
    } else {
        spec_decimal(n / 10).push(spec_digit_char((n % 10) as int))
    }
}

/// A byte as two hexadecimal digits in lower case.
pub open spec fn spec_hex_byte(b: u8) -> Seq<char> {
    seq![spec_digit_char(b as int / 16), spec_digit_char(b as int % 16)]
}

/// A byte as two hexadecimal digits in upper case.
pub open spec fn spec_hex_byte_upper(b: u8) -> Seq<char> {
    seq![spec_digit_char_upper(b as int / 16), spec_digit_char_upper(b as int % 16)]
}

/// The character that stands for a digit below sixteen.
pub fn digit_char(d: u8, upper: bool) -> (c: char)
    requires
        d < 16,
    ensures
        c == (if upper {
            spec_digit_char_upper(d as int)
        } else {
            spec_digit_char(d as int)
        }),
{
    if d < 10 {
        char_of_code(d as u32 + '0' as u32)
    } else if upper {
        char_of_code(d as u32 - 10 + 'A' as u32)
    } else {
        char_of_code(d as u32 - 10 + 'a' as u32)
    }
}

/// The character with the given code, for a code below 128.
fn char_of_code(code: u32) -> (c: char)
    requires
        code < 128,
    ensures
        c == code as char,
{
    (code as u8) as char
}

/// Appends a number in decimal.
pub fn push_decimal(out: &mut Vec<char>, n: usize)
    ensures
        final(out)@ == old(out)@ + spec_decimal(n as nat),
    decreases n,
{
    if n >= 10 {
        push_decimal(out, n / 10);
    }
    out.push(digit_char((n % 10) as u8, false));
    assert(out@ =~= old(out)@ + spec_decimal(n as nat));
}

/// Appends a byte as two hexadecimal digits.
pub fn push_hex_byte(out: &mut Vec<char>, b: u8, upper: bool)
    ensures
        final(out)@ == old(out)@ + (if upper {
            spec_hex_byte_upper(b)
        } else {
            spec_hex_byte(b)
        }),
{
    out.push(digit_char(b / 16, upper));
    out.push(digit_char(b % 16, upper));
    assert(out@ =~= old(out)@ + (if upper {
        spec_hex_byte_upper(b)
    } else {
        spec_hex_byte(b)
    }));
}

/// Appends the characters of a text.
pub fn push_text(out: &mut Vec<char>, text: &str)
    ensures
        final(out)@ == old(out)@ + text@,
{
    let t = chars_of(text);
    push_chars(out, t.as_slice());
}

/// Appends characters.
pub fn push_chars(out: &mut Vec<char>, more: &[char])
    ensures
        final(out)@ == old(out)@ + more@,
{
    let mut i: usize = 0;
    assert(out@ =~= old(out)@ + more@.take(0));
    while i < more.len()
        invariant
            i <= more@.len(),
            out@ == old(out)@ + more@.take(i as int),
        decreases more@.len() - i,
    {
        out.push(more[i]);
        i += 1;
        assert(out@ =~= old(out)@ + more@.take(i as int));
    }
    assert(more@.take(more@.len() as int) =~= more@);
}

/// The number of bytes in the UTF-8 encoding of a character.
pub fn utf8_width(c: char) -> (n: usize)
    ensures
        n == encode_scalar(c as u32).len(),
        1 <= n <= 4,
{
    let v = c as u32;
    if v < 0x80 {
        1
    } else if v < 0x800 {
        2
    } else if v < 0x10000 {
        3
    } else {
        4
    }
}

/// The number of characters at the front of `s` whose UTF-8 encodings
/// take at most `limit` bytes together.
pub open spec fn spec_fitting(s: Seq<char>, limit: int) -> nat
    decreases s.len(),
{
    if s.len() > 0 && encode_scalar(s[0] as u32).len() <= limit {
        1 + spec_fitting(s.skip(1), limit - encode_scalar(s[0] as u32).len())
    } else {
        0
    }
}

/// A text for display: as it is if its UTF-8 encoding takes at most
/// `longest` bytes; else as many whole characters from its front as take
/// at most `keep` bytes, and three dots.
pub open spec fn spec_shorten(s: Seq<char>, longest: int, keep: int) -> Seq<char> {
    if encode_utf8(s).len() > longest {
        s.take(spec_fitting(s, keep) as int) + "..."@
    } else {
        s
    }
}

/// The number of characters at the front of `s` whose UTF-8 encodings take
/// at most `limit` bytes together.
pub fn fitting(s: &[char], limit: usize) -> (n: usize)
    ensures
        n == spec_fitting(s@, limit as int),
        n <= s@.len(),
{
    let mut n: usize = 0;
    let mut left: usize = limit;
    assert(s@.skip(0) =~= s@);
    while n < s.len() && utf8_width(s[n]) <= left
        invariant
            n <= s@.len(),
            spec_fitting(s@, limit as int) == n + spec_fitting(s@.skip(n as int), left as int),
        decreases s@.len() - n,
    {
        assert(s@.skip(n as int)[0] == s@[n as int]);
        assert(s@.skip(n as int).skip(1) =~= s@.skip(n + 1));
        left -= utf8_width(s[n]);
        n += 1;
    }
    proof {
        if n < s.len() {
            assert(s@.skip(n as int)[0] == s@[n as int]);
        }
    }
    n
}

/// A text for display, shortened if its UTF-8 encoding takes more than
/// `longest` bytes.
pub fn shorten(s: &str, longest: usize, keep: usize) -> (r: String)
    ensures
        r@ == spec_shorten(s@, longest as int, keep as int),
{
    if s.as_bytes().len() > longest {
        let chars = chars_of(s);
        let n = fitting(chars.as_slice(), keep);
        let mut out = copy_range(chars.as_slice(), 0, n);
        assert(out@ =~= s@.take(n as int));
        push_text(&mut out, "...");
        string_of(out.as_slice())
    } else {
        s.to_owned()
    }
}

} // verus!
