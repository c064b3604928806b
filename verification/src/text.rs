//! Text as a sequence of characters: whitespace, searching, lines and pieces,
//! and decimal numbers.

use vstd::prelude::*;
use vstd::slice::slice_subrange;

verus! {

/// `String::push` appends one character.
pub assume_specification[ String::push ](s: &mut String, ch: char)
    ensures
        final(s)@ == old(s)@.push(ch),
;

/// The characters of `s`.
pub(crate) fn chars_of(s: &str) -> (r: Vec<char>)
    ensures
        r@ == s@,
{
    let mut out: Vec<char> = Vec::new();
    for c in it: s.chars()
        invariant
            out@ == it.seq().take(it.index()),
            it.seq() == s@,
    {
        out.push(c);
    }
    out
}

/// Appends the characters of `tail` to `out`.
pub(crate) fn push_chars(out: &mut String, tail: &[char])
    ensures
        final(out)@ == old(out)@ + tail@,
{
    let mut i: usize = 0;
    while i < tail.len()
        invariant
            i <= tail@.len(),
            out@ =~= old(out)@ + tail@.take(i as int),
        decreases tail.len() - i,
    {
        out.push(tail[i]);
        i += 1;
    }
}

/// Whether `c` has the Unicode property `White_Space`.
pub open spec fn is_white(c: char) -> bool {
    ||| '\u{9}' <= c <= '\u{d}'
    ||| c == '\u{20}' || c == '\u{85}' || c == '\u{a0}' || c == '\u{1680}'
    ||| '\u{2000}' <= c <= '\u{200a}'
    ||| c == '\u{2028}' || c == '\u{2029}' || c == '\u{202f}' || c == '\u{205f}' || c == '\u{3000}'
}

/// Whether `c` has the Unicode property `White_Space`.
pub fn is_whitespace(c: char) -> (r: bool)
    ensures
        r == is_white(c),
{
    ('\u{9}' <= c && c <= '\u{d}') || c == '\u{20}' || c == '\u{85}' || c == '\u{a0}' || c
        == '\u{1680}' || ('\u{2000}' <= c && c <= '\u{200a}') || c == '\u{2028}' || c == '\u{2029}'
        || c == '\u{202f}' || c == '\u{205f}' || c == '\u{3000}'
}

/// `s` without leading whitespace.
pub open spec fn trimmed_start(s: Seq<char>) -> Seq<char>
    decreases s.len(),
{
    if s.len() > 0 && is_white(s[0]) {
        trimmed_start(s.drop_first())
    } else {
        s
    }
}

/// `s` without trailing whitespace.
pub open spec fn trimmed_end(s: Seq<char>) -> Seq<char>
    decreases s.len(),
{
    if s.len() > 0 && is_white(s.last()) {
        trimmed_end(s.drop_last())
    } else {
        s
    }
}

/// `s` without whitespace at either end.
pub open spec fn trimmed(s: Seq<char>) -> Seq<char> {
    trimmed_end(trimmed_start(s))
}

/// `s` without leading whitespace.
pub fn trim_start(s: &[char]) -> (r: &[char])
    ensures
        r@ == trimmed_start(s@),
{
    let n: usize = s.len();
    let mut i: usize = 0;
    assert(s@.subrange(0, n as int) =~= s@);
    while i < n && is_whitespace(s[i])
        invariant
            n == s@.len(),
            i <= n,
            trimmed_start(s@) == trimmed_start(s@.subrange(i as int, n as int)),
        decreases n - i,
    {
        assert(s@.subrange(i as int, n as int).drop_first() =~= s@.subrange(i + 1, n as int));
        i += 1;
    }
    slice_subrange(s, i, n)
}

/// `s` without trailing whitespace.
pub fn trim_end(s: &[char]) -> (r: &[char])
    ensures
        r@ == trimmed_end(s@),
{
    let mut n: usize = s.len();
    assert(s@.subrange(0, n as int) =~= s@);
    while n > 0 && is_whitespace(s[n - 1])
        invariant
            n <= s@.len(),
            trimmed_end(s@) == trimmed_end(s@.subrange(0, n as int)),
        decreases n,
    {
        assert(s@.subrange(0, n as int).drop_last() =~= s@.subrange(0, n - 1));
        n -= 1;
    }
    slice_subrange(s, 0, n)
}

/// `s` without whitespace at either end.
pub fn trim(s: &[char]) -> (r: &[char])
    ensures
        r@ == trimmed(s@),
{
    trim_end(trim_start(s))
}

/// Whether `pattern` stands in `s` at position `i`.
pub open spec fn stands_at(s: Seq<char>, pattern: Seq<char>, i: int) -> bool {
    &&& 0 <= i
    &&& i + pattern.len() <= s.len()
    &&& s.subrange(i, i + pattern.len()) == pattern
}

/// Whether `pattern` stands anywhere in `s`.
pub open spec fn occurs(s: Seq<char>, pattern: Seq<char>) -> bool {
    exists|i: int| stands_at(s, pattern, i)
}

/// Whether `i` is the first position of `pattern` in `s`.
pub open spec fn is_first(s: Seq<char>, pattern: Seq<char>, i: int) -> bool {
    stands_at(s, pattern, i) && forall|j: int| j < i ==> !stands_at(s, pattern, j)
}

/// What stands before and what stands behind the first occurrence of `pattern`
/// in `s`.
pub open spec fn halves(s: Seq<char>, pattern: Seq<char>) -> Option<(Seq<char>, Seq<char>)> {
    if occurs(s, pattern) {
        let i = choose|i: int| is_first(s, pattern, i);
        Some((s.take(i), s.skip(i + pattern.len())))
    } else {
        None
    }
}

/// Whether `s` begins with `pattern`.
pub open spec fn begins(s: Seq<char>, pattern: Seq<char>) -> bool {
    stands_at(s, pattern, 0)
}

/// Whether `s` ends with `pattern`.
pub open spec fn ends(s: Seq<char>, pattern: Seq<char>) -> bool {
    stands_at(s, pattern, s.len() - pattern.len())
}

/// Whether two texts are the same.
pub fn same(s: &[char], t: &[char]) -> (r: bool)
    ensures
        r == (s@ == t@),
{
    if s.len() != t.len() {
        return false;
    }
    let mut i: usize = 0;
    while i < s.len()
        invariant
            i <= s@.len(),
            s@.len() == t@.len(),
            forall|j: int| 0 <= j < i ==> s@[j] == t@[j],
        decreases s.len() - i,
    {
        if s[i] != t[i] {
            return false;
        }
        i += 1;
    }
    assert(s@ =~= t@);
    true
}

/// Whether `pattern` stands in `s` at position `i`.
fn matches_at(s: &[char], pattern: &[char], i: usize) -> (r: bool)
    ensures
        r == stands_at(s@, pattern@, i as int),
{
    if i > s.len() || pattern.len() > s.len() - i {
        return false;
    }
    same(slice_subrange(s, i, i + pattern.len()), pattern)
}

/// Whether `s` begins with `pattern`.
pub fn starts_with(s: &[char], pattern: &[char]) -> (r: bool)
    ensures
        r == begins(s@, pattern@),
{
    matches_at(s, pattern, 0)
}

/// Whether `s` ends with `pattern`.
pub fn ends_with(s: &[char], pattern: &[char]) -> (r: bool)
    ensures
        r == ends(s@, pattern@),
{
    if pattern.len() > s.len() {
        return false;
    }
    matches_at(s, pattern, s.len() - pattern.len())
}

/// What follows `prefix` in `s`, if `s` begins with it.
pub fn strip_prefix<'a>(s: &'a [char], prefix: &[char]) -> (r: Option<&'a [char]>)
    ensures
        match r {
            Some(rest) => begins(s@, prefix@) && rest@ == s@.skip(prefix@.len() as int),
            None => !begins(s@, prefix@),
        },
{
    if starts_with(s, prefix) {
        let rest = slice_subrange(s, prefix.len(), s.len());
        Some(rest)
    } else {
        None
    }
}

/// The first position of `pattern` in `s`, if it stands there.
pub fn find(s: &[char], pattern: &[char]) -> (r: Option<usize>)
    ensures
        match r {
            Some(i) => is_first(s@, pattern@, i as int) && i + pattern@.len() <= s@.len(),
            None => !occurs(s@, pattern@),
        },
{
    if pattern.len() > s.len() {
        return None;
    }
    let last: usize = s.len() - pattern.len();
    let mut i: usize = 0;
    while i <= last
        invariant
            last == s@.len() - pattern@.len(),
            i <= last,
            forall|j: int| j < i ==> !stands_at(s@, pattern@, j),
        decreases last - i,
    {
        if matches_at(s, pattern, i) {
            return Some(i);
        }
        if i == last {
            return None;
        }
        i += 1;
    }
    None
}

/// Whether `pattern` stands anywhere in `s`.
pub fn contains(s: &[char], pattern: &[char]) -> (r: bool)
    ensures
        r == occurs(s@, pattern@),
{
    match find(s, pattern) {
        Some(i) => {
            true
        },
        None => false,
    }
}

/// What stands before and what stands behind the first occurrence of `pattern`.
pub fn split_once<'a>(s: &'a [char], pattern: &[char]) -> (r: Option<(&'a [char], &'a [char])>)
    ensures
        match r {
            Some((a, b)) => halves(s@, pattern@) == Some((a@, b@)),
            None => halves(s@, pattern@) is None,
        },
{
    match find(s, pattern) {
        Some(i) => {
            let n: usize = s.len();
            let a = slice_subrange(s, 0, i);
            let b = slice_subrange(s, i + pattern.len(), n);
            Some((a, b))
        },
        None => None,
    }
}

/// The pieces of `s` between the occurrences of `separator`, one more than
/// there are of those.
pub open spec fn pieces_of(s: Seq<char>, separator: char) -> Seq<Seq<char>>
    decreases s.len(),
{
    if s.len() == 0 {
        seq![s]
    } else {
        let front = pieces_of(s.drop_last(), separator);
        if s.last() == separator {
            front.push(Seq::empty())
        } else {
            front.drop_last().push(front.last().push(s.last()))
        }
    }
}

/// `pieces` with `separator` between them.
pub open spec fn joined(pieces: Seq<Seq<char>>, separator: char) -> Seq<char>
    decreases pieces.len(),
{
    if pieces.len() == 0 {
        Seq::empty()
    } else if pieces.len() == 1 {
        pieces[0]
    } else {
        joined(pieces.drop_last(), separator).push(separator) + pieces.last()
    }
}

/// `s` without one carriage return at its end.
pub open spec fn without_cr(s: Seq<char>) -> Seq<char> {
    if s.len() > 0 && s.last() == '\r' {
        s.drop_last()
    } else {
        s
    }
}

/// The lines of `s`. A line ends in a line feed, or in a carriage return and a
/// line feed, which are not part of it. What follows the last line feed is a
/// line too, unless it is empty.
pub open spec fn lines_of(s: Seq<char>) -> Seq<Seq<char>> {
    let pieces = pieces_of(s, '\n');
    let ended = pieces.drop_last().map_values(|p: Seq<char>| without_cr(p));
    if pieces.last().len() == 0 {
        ended
    } else {
        ended.push(pieces.last())
    }
}

/// The texts that slices hold.
pub open spec fn texts(slices: Seq<&[char]>) -> Seq<Seq<char>> {
    slices.map_values(|t: &[char]| t@)
}

/// The texts of strings.
pub open spec fn string_texts(strings: Seq<String>) -> Seq<Seq<char>> {
    strings.map_values(|s: String| s@)
}

/// The pieces of `s` between the occurrences of `separator`.
pub fn split<'a>(s: &'a [char], separator: char) -> (r: Vec<&'a [char]>)
    ensures
        texts(r@) == pieces_of(s@, separator),
        r@.len() > 0,
{
    let n: usize = s.len();
    let mut out: Vec<&'a [char]> = Vec::new();
    let mut start: usize = 0;
    let mut i: usize = 0;
    while i < n
        invariant
            n == s@.len(),
            start <= i <= n,
            texts(out@).push(s@.subrange(start as int, i as int)) == pieces_of(
                s@.take(i as int),
                separator,
            ),
        decreases n - i,
    {
        let piece = slice_subrange(s, start, i);
        assert(s@.take(i + 1).drop_last() =~= s@.take(i as int));
        if s[i] == separator {
            out.push(piece);
            start = i + 1;
            assert(s@.subrange(start as int, i + 1) =~= Seq::empty());
        } else {
            assert(piece@.push(s@[i as int]) =~= s@.subrange(start as int, i + 1));
        }
        i += 1;
    }
    assert(s@.take(n as int) =~= s@);
    let piece = slice_subrange(s, start, n);
    out.push(piece);
    out
}

/// The lines of `s`.
pub fn lines<'a>(s: &'a [char]) -> (r: Vec<&'a [char]>)
    ensures
        texts(r@) == lines_of(s@),
{
    let pieces = split(s, '\n');
    let ghost all = pieces_of(s@, '\n');
    let last: usize = pieces.len() - 1;
    let mut out: Vec<&'a [char]> = Vec::new();
    let mut i: usize = 0;
    while i < last
        invariant
            i <= last,
            last == pieces@.len() - 1,
            texts(pieces@) == all,
            texts(out@) == all.take(i as int).map_values(|p: Seq<char>| without_cr(p)),
        decreases last - i,
    {
        let piece = pieces[i];
        let n: usize = piece.len();
        let line = if n > 0 && piece[n - 1] == '\r' {
            slice_subrange(piece, 0, n - 1)
        } else {
            piece
        };
        let ghost before = texts(out@);
        out.push(line);
        assert(all.take(i + 1).map_values(|p: Seq<char>| without_cr(p)) =~= before.push(line@));
        i += 1;
    }
    let piece = pieces[last];
    if piece.len() > 0 {
        out.push(piece);
    }
    out
}

/// Joining the pieces of a text gives the text back, and no piece holds the
/// separator.
pub proof fn law_pieces_join(s: Seq<char>, separator: char)
    ensures
        pieces_of(s, separator).len() > 0,
        joined(pieces_of(s, separator), separator) == s,
        forall|k: int|
            0 <= k < pieces_of(s, separator).len() ==> !(#[trigger] pieces_of(
                s,
                separator,
            )[k]).contains(separator),
    decreases s.len(),
{
    let pieces = pieces_of(s, separator);
    if s.len() > 0 {
        let front = pieces_of(s.drop_last(), separator);
        law_pieces_join(s.drop_last(), separator);
        if s.last() == separator {
            assert(pieces.drop_last() =~= front);
        } else {
            assert(pieces.drop_last() =~= front.drop_last());
            assert(joined(pieces, separator) =~= joined(front, separator).push(s.last()));
        }
    }
}

/// Whether `c` is a decimal digit.
pub open spec fn is_digit(c: char) -> bool {
    '0' <= c <= '9'
}

/// Whether all of `s` are decimal digits.
pub open spec fn all_digits(s: Seq<char>) -> bool {
    forall|i: int| 0 <= i < s.len() ==> is_digit(#[trigger] s[i])
}

/// The number that decimal digits stand for.
pub open spec fn decimal_value(s: Seq<char>) -> nat
    decreases s.len(),
{
    if s.len() == 0 {
        0
    } else {
        (10 * decimal_value(s.drop_last()) + (s.last() as int - '0' as int)) as nat
    }
}

/// The decimal digits of `n`, without leading zeros.
pub open spec fn decimal(n: nat) -> Seq<char>
    decreases n,
{
    if n < 10 {
        seq![digit(n)]
    } else {
        decimal(n / 10).push(digit(n % 10))
    }
}

/// The digit for `d`.
pub open spec fn digit(d: nat) -> char {
    ('0' as int + d) as char
}

/// The digits of a number text: what follows an optional plus sign.
pub open spec fn after_plus(s: Seq<char>) -> Seq<char> {
    if s.len() > 0 && s[0] == '+' {
        s.drop_first()
    } else {
        s
    }
}

/// The `u32` that `s` spells: an optional plus sign and at least one digit.
pub open spec fn spelled_u32(s: Seq<char>) -> Option<u32> {
    let digits = after_plus(s);
    if digits.len() > 0 && all_digits(digits) && decimal_value(digits) <= u32::MAX {
        Some(decimal_value(digits) as u32)
    } else {
        None
    }
}

/// Reads a `u32`.
pub fn parse_u32(s: &[char]) -> (r: Option<u32>)
    ensures
        r == spelled_u32(s@),
{
    let n: usize = s.len();
    let start: usize = if n > 0 && s[0] == '+' {
        1
    } else {
        0
    };
    let ghost digits = after_plus(s@);
    if start == n {
        return None;
    }
    let mut value: u64 = 0;
    let mut i: usize = start;
    while i < n
        invariant
            start <= i <= n,
            n == s@.len(),
            digits == after_plus(s@),
            digits == s@.subrange(start as int, n as int),
            all_digits(digits.take(i - start)),
            value == decimal_value(digits.take(i - start)),
            value <= u32::MAX,
        decreases n - i,
    {
        let c = s[i];
        let ghost upto = digits.take(i + 1 - start);
        assert(upto.drop_last() =~= digits.take(i - start));
        if c < '0' || c > '9' {
            assert(!is_digit(digits[i - start]));
            return None;
        }
        value = 10 * value + (c as u64 - '0' as u64);
        if value > u32::MAX as u64 {
            proof {
                if all_digits(digits) {
                    lemma_decimal_value_of_prefix(digits, i + 1 - start);
                }
            }
            return None;
        }
        i += 1;
    }
    assert(digits.take(n - start) =~= digits);
    Some(value as u32)
}

/// Appends the decimal digits of `n` to `out`.
pub fn push_decimal(out: &mut String, n: u64)
    ensures
        final(out)@ == old(out)@ + decimal(n as nat),
    decreases n,
{
    if n >= 10 {
        push_decimal(out, n / 10);
    }
    let d: u8 = (n % 10) as u8;
    out.push((0x30 + d) as char);
}

/// Digits that come first stand for no more than all of them.
proof fn lemma_decimal_value_of_prefix(s: Seq<char>, i: int)
    requires
        all_digits(s),
        0 <= i <= s.len(),
    ensures
        decimal_value(s.take(i)) <= decimal_value(s),
    decreases s.len(),
{
    if i == s.len() {
        assert(s.take(i) =~= s);
    } else {
        let front = s.drop_last();
        lemma_decimal_value_of_prefix(front, i);
        assert(front.take(i) =~= s.take(i));
    }
}

/// The decimal digits of a number stand for that number.
pub proof fn law_decimal_reads_back(n: nat)
    ensures
        decimal(n).len() > 0,
        all_digits(decimal(n)),
        decimal_value(decimal(n)) == n,
    decreases n,
{
    if n >= 10 {
        law_decimal_reads_back(n / 10);
        let front = decimal(n / 10);
        assert(decimal(n).drop_last() =~= front);
    } else {
        assert(decimal(n).drop_last() =~= Seq::empty());
        assert(decimal_value(Seq::empty()) == 0);
    }
}

/// Reading the decimal digits of a `u32`, with or without a plus sign, gives
/// that `u32`.
pub proof fn law_u32_round_trip(n: u32)
    ensures
        spelled_u32(decimal(n as nat)) == Some(n),
        spelled_u32(seq!['+'] + decimal(n as nat)) == Some(n),
{
    law_decimal_reads_back(n as nat);
    let s = decimal(n as nat);
    assert((seq!['+'] + s).drop_first() =~= s);
}

/// Trimming takes whitespace away at the ends and nothing else, and leaves none
/// there.
pub proof fn law_trimming(s: Seq<char>)
    ensures
        ({
            let t = trimmed_start(s);
            &&& t.len() <= s.len()
            &&& s.skip(s.len() - t.len()) == t
            &&& forall|i: int| 0 <= i < s.len() - t.len() ==> is_white(#[trigger] s[i])
            &&& t.len() > 0 ==> !is_white(t[0])
        }),
        ({
            let t = trimmed_end(s);
            &&& t.len() <= s.len()
            &&& s.take(t.len() as int) == t
            &&& forall|i: int| t.len() <= i < s.len() ==> is_white(#[trigger] s[i])
            &&& t.len() > 0 ==> !is_white(t.last())
        }),
        trimmed(s) == trimmed_end(trimmed_start(s)),
    decreases s.len(),
{
    if s.len() > 0 {
        if is_white(s[0]) {
            law_trimming(s.drop_first());
            let t = trimmed_start(s);
            let rest = s.drop_first();
            assert(s.skip(s.len() - t.len()) =~= rest.skip(rest.len() - t.len()));
            assert forall|i: int| 0 <= i < s.len() - t.len() implies is_white(#[trigger] s[i]) by {
                if i > 0 {
                    assert(s[i] == rest[i - 1]);
                }
            }
        }
        if is_white(s.last()) {
            law_trimming(s.drop_last());
            let t = trimmed_end(s);
            let rest = s.drop_last();
            assert(s.take(t.len() as int) =~= rest.take(t.len() as int));
            assert forall|i: int| t.len() <= i < s.len() implies is_white(#[trigger] s[i]) by {
                if i < rest.len() {
                    assert(s[i] == rest[i]);
                }
            }
        } else {
            assert(s.take(s.len() as int) =~= s);
        }
    }
}

/// Whitespace in front of a text is trimmed away, whatever it is.
pub proof fn law_indentation_is_trimmed(white: Seq<char>, s: Seq<char>)
    requires
        forall|i: int| 0 <= i < white.len() ==> is_white(#[trigger] white[i]),
    ensures
        trimmed_start(white + s) == trimmed_start(s),
    decreases white.len(),
{
    if white.len() == 0 {
        assert(white + s =~= s);
    } else {
        let rest = white.drop_first();
        assert((white + s)[0] == white[0]);
        assert((white + s).drop_first() =~= rest + s);
        assert forall|i: int| 0 <= i < rest.len() implies is_white(#[trigger] rest[i]) by {
            assert(rest[i] == white[i + 1]);
        }
        law_indentation_is_trimmed(rest, s);
    }
}

/// Whether a text begins or ends with another.
pub proof fn law_begins_and_ends(p: Seq<char>, s: Seq<char>)
    ensures
        begins(p + s, p),
        ends(s + p, p),
        begins(s, p) ==> s == p + s.skip(p.len() as int),
        ends(s, p) ==> s == s.take(s.len() - p.len()) + p,
{
    assert((p + s).subrange(0, p.len() as int) =~= p);
    assert((s + p).subrange(s.len() as int, (s + p).len() as int) =~= p);
    if begins(s, p) {
        assert(s =~= s.subrange(0, p.len() as int) + s.skip(p.len() as int));
    }
    if ends(s, p) {
        assert(s =~= s.take(s.len() - p.len()) + s.subrange(s.len() - p.len(), s.len() as int));
    }
}

/// A text that holds a pattern is what stands before it, the pattern, and what
/// stands behind it, at the first place where it occurs. A text that does not
/// hold it is not split.
pub proof fn law_halves(s: Seq<char>, p: Seq<char>)
    requires
        p.len() > 0,
    ensures
        match halves(s, p) {
            Some((a, b)) => s == a + p + b && !occurs((a + p).drop_last(), p),
            None => !occurs(s, p),
        },
{
    if occurs(s, p) {
        let w = choose|w: int| stands_at(s, p, w);
        lemma_first_position(s, p, w);
        let i = choose|i: int| is_first(s, p, i);
        assert(is_first(s, p, i));
        let (a, b) = halves(s, p)->0;
        assert(s =~= s.take(i) + s.subrange(i, i + p.len()) + s.skip(i + p.len()));
        let short = (a + p).drop_last();
        if occurs(short, p) {
            let j = choose|j: int| stands_at(short, p, j);
            assert(s.subrange(j, j + p.len()) =~= short.subrange(j, j + p.len()));
            assert(stands_at(s, p, j));
        }
    }
}

/// What a text is put together of, it is split into, if the pattern does not
/// occur earlier.
pub proof fn law_split_of_joined(a: Seq<char>, p: Seq<char>, b: Seq<char>)
    requires
        p.len() > 0,
        !occurs((a + p).drop_last(), p),
    ensures
        occurs(a + p + b, p),
        halves(a + p + b, p) == Some((a, b)),
{
    let s = a + p + b;
    let n = a.len() as int;
    assert(s.subrange(n, n + p.len()) =~= p);
    assert(stands_at(s, p, n));
    assert forall|j: int| j < n implies !stands_at(s, p, j) by {
        if stands_at(s, p, j) {
            let short = (a + p).drop_last();
            assert(short.subrange(j, j + p.len()) =~= s.subrange(j, j + p.len()));
            assert(stands_at(short, p, j));
        }
    }
    assert(is_first(s, p, n));
    let i = choose|i: int| is_first(s, p, i);
    assert(is_first(s, p, i));
    assert(i == n);
    assert(s.take(n) =~= a);
    assert(s.skip(n + p.len()) =~= b);
}

/// A text holds a pattern exactly if the pattern stands in it somewhere.
pub proof fn law_occurs(a: Seq<char>, p: Seq<char>, b: Seq<char>, s: Seq<char>)
    ensures
        occurs(a + p + b, p),
        occurs(s, p) ==> exists|i: int|
            0 <= i <= s.len() - p.len() && #[trigger] s.subrange(i, i + p.len()) == p,
{
    let whole = a + p + b;
    assert(whole.subrange(a.len() as int, (a.len() + p.len()) as int) =~= p);
    assert(stands_at(whole, p, a.len() as int));
}

/// What occurs has a first position.
pub(crate) proof fn lemma_first_position(s: Seq<char>, pattern: Seq<char>, i: int)
    requires
        stands_at(s, pattern, i),
    ensures
        exists|j: int| is_first(s, pattern, j),
    decreases i,
{
    if exists|j: int| j < i && stands_at(s, pattern, j) {
        let j = choose|j: int| j < i && stands_at(s, pattern, j);
        lemma_first_position(s, pattern, j);
    } else {
        assert(is_first(s, pattern, i));
    }
}

/// Joining puts a separator between two pieces and nothing elsewhere.
pub proof fn law_joining(pieces: Seq<Seq<char>>, piece: Seq<char>, separator: char)
    ensures
        joined(Seq::empty(), separator).len() == 0,
        joined(seq![piece], separator) == piece,
        pieces.len() > 0 ==> joined(pieces.push(piece), separator) == joined(
            pieces,
            separator,
        ).push(separator) + piece,
{
    assert(pieces.push(piece).drop_last() =~= pieces);
}

/// A text that ends in a separator, and another behind it, have the pieces of
/// both.
pub proof fn law_pieces_of_two(s: Seq<char>, t: Seq<char>, separator: char)
    ensures
        pieces_of(s + seq![separator] + t, separator) == pieces_of(s, separator) + pieces_of(
            t,
            separator,
        ),
    decreases t.len(),
{
    let whole = s + seq![separator] + t;
    law_pieces_join(t, separator);
    if t.len() == 0 {
        assert(t =~= Seq::empty());
        assert(whole.drop_last() =~= s);
        assert(pieces_of(whole, separator) =~= pieces_of(s, separator) + pieces_of(t, separator));
    } else {
        law_pieces_of_two(s, t.drop_last(), separator);
        law_pieces_join(t.drop_last(), separator);
        assert(whole.drop_last() =~= s + seq![separator] + t.drop_last());
        assert(pieces_of(whole, separator) =~= pieces_of(s, separator) + pieces_of(t, separator));
    }
}

/// A text without the separator is its own only piece.
pub proof fn law_single_piece(s: Seq<char>, separator: char)
    requires
        !s.contains(separator),
    ensures
        pieces_of(s, separator) == seq![s],
    decreases s.len(),
{
    if s.len() > 0 {
        let front = s.drop_last();
        assert forall|i: int| 0 <= i < front.len() implies front[i] != separator by {
            assert(front[i] == s[i]);
        }
        law_single_piece(front, separator);
        assert(s[s.len() - 1] == s.last());
        assert(front.push(s.last()) =~= s);
        assert(pieces_of(s, separator) =~= seq![s]);
    }
}

/// Splitting what was joined gives the pieces back, if none holds the separator.
pub proof fn law_joined_pieces(pieces: Seq<Seq<char>>, separator: char)
    requires
        pieces.len() > 0,
        forall|k: int| 0 <= k < pieces.len() ==> !(#[trigger] pieces[k]).contains(separator),
    ensures
        pieces_of(joined(pieces, separator), separator) == pieces,
    decreases pieces.len(),
{
    let last = pieces.last();
    law_single_piece(last, separator);
    if pieces.len() == 1 {
        assert(pieces =~= seq![last]);
    } else {
        let front = pieces.drop_last();
        law_joined_pieces(front, separator);
        law_pieces_of_two(joined(front, separator), last, separator);
        assert(joined(pieces, separator) =~= joined(front, separator) + seq![separator] + last);
        assert(pieces =~= front + seq![last]);
    }
}

/// A line feed ends a line, and takes one carriage return before it along. What
/// follows the last line feed is a line as it stands, unless it is empty.
pub proof fn law_lines(line: Seq<char>, rest: Seq<char>)
    requires
        !line.contains('\n'),
    ensures
        lines_of(line + seq!['\n'] + rest) == seq![
            if line.len() > 0 && line.last() == '\r' {
                line.drop_last()
            } else {
                line
            },
        ] + lines_of(rest),
        lines_of(line) == if line.len() == 0 {
            Seq::empty()
        } else {
            seq![line]
        },
{
    let whole = line + seq!['\n'] + rest;
    law_single_piece(line, '\n');
    law_pieces_of_two(line, rest, '\n');
    law_pieces_join(rest, '\n');
    let all = pieces_of(whole, '\n');
    let tail = pieces_of(rest, '\n');
    assert(all.last() == tail.last());
    assert(all.drop_last() =~= seq![line] + tail.drop_last());
    assert(lines_of(whole) =~= seq![without_cr(line)] + lines_of(rest));
    assert(lines_of(line) =~= if line.len() == 0 {
        Seq::empty()
    } else {
        seq![line]
    });
}

/// Digits count by their place: one more digit makes ten times the number and
/// its own value. A number's own digits begin with none that is 0, but for 0
/// itself.
pub proof fn law_digits_count_by_place(s: Seq<char>, d: nat, n: nat)
    requires
        d < 10,
    ensures
        decimal_value(Seq::empty()) == 0,
        digit(d) as int == 0x30 + d,
        decimal_value(s.push(digit(d))) == 10 * decimal_value(s) + d,
        n < 10 ==> decimal(n) == seq![digit(n)],
        n > 0 ==> decimal(n)[0] != '0',
        n > 0 ==> decimal(10 * n + d) == decimal(n).push(digit(d)),
    decreases n,
{
    assert(s.push(digit(d)).drop_last() =~= s);
    if n >= 10 {
        law_digits_count_by_place(s, d, n / 10);
        law_decimal_reads_back(n / 10);
    }
}

/// What is read as a number: digits, with a plus sign in front or without, if
/// the number is a `u32`. Nothing else is.
pub proof fn law_spelled_numbers(s: Seq<char>)
    ensures
        s.len() > 0 && (forall|i: int| 0 <= i < s.len() ==> '0' <= #[trigger] s[i] <= '9') ==> {
            &&& spelled_u32(s) == spelled_u32(seq!['+'] + s)
            &&& spelled_u32(s) is Some <==> decimal_value(s) <= u32::MAX
            &&& spelled_u32(s) matches Some(n) ==> n == decimal_value(s)
        },
        spelled_u32(Seq::empty()) is None,
        spelled_u32(seq!['+']) is None,
        forall|i: int|
            0 < i < s.len() && !('0' <= #[trigger] s[i] <= '9') ==> spelled_u32(s) is None,
        s.len() > 0 && s[0] != '+' && !('0' <= s[0] <= '9') ==> spelled_u32(s) is None,
{
    assert((seq!['+'] + s).drop_first() =~= s);
    if s.len() > 0 && (forall|i: int| 0 <= i < s.len() ==> '0' <= #[trigger] s[i] <= '9') {
        assert('0' <= s[0] <= '9');
        assert(all_digits(s));
    }
    assert(after_plus(seq!['+']).len() == 0);
    assert forall|i: int| 0 < i < s.len() && !('0' <= #[trigger] s[i] <= '9') implies spelled_u32(s)
        is None by {
        if s[0] == '+' {
            assert(s.drop_first()[i - 1] == s[i]);
        }
    }
}

/// A first position is one where the pattern stands and before which it stands
/// nowhere.
pub proof fn law_first_position(s: Seq<char>, p: Seq<char>, i: int)
    ensures
        is_first(s, p, i) <==> {
            &&& 0 <= i <= s.len() - p.len()
            &&& s.subrange(i, i + p.len()) == p
            &&& forall|j: int| 0 <= j < i ==> #[trigger] s.subrange(j, j + p.len()) != p
        },
{
    if 0 <= i <= s.len() - p.len() && s.subrange(i, i + p.len()) == p && (forall|j: int|
        0 <= j < i ==> #[trigger] s.subrange(j, j + p.len()) != p) {
        assert forall|j: int| j < i implies !stands_at(s, p, j) by {
            if 0 <= j {
                assert(s.subrange(j, j + p.len()) != p);
            }
        }
    }
    if is_first(s, p, i) {
        assert forall|j: int| 0 <= j < i implies #[trigger] s.subrange(j, j + p.len()) != p by {
            assert(!stands_at(s, p, j));
        }
    }
}

/// Slices stand for the texts that they hold.
pub proof fn law_texts_of_slices(slices: Seq<&[char]>, i: int)
    ensures
        texts(slices).len() == slices.len(),
        0 <= i < slices.len() ==> texts(slices)[i] == slices[i]@,
{
}

} // verus!
