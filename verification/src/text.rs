//! Character-level text handling: searching, splitting, trimming, ASCII case
//! and decimal numbers, each stated over `Seq<char>`.

use vstd::prelude::*;
use vstd::slice::{slice_subrange, slice_to_vec};

verus! {

/// `needle` occurs in `hay` at position `i`.
pub open spec fn occurs_at<A>(hay: Seq<A>, needle: Seq<A>, i: int) -> bool {
    &&& 0 <= i
    &&& i + needle.len() <= hay.len()
    &&& hay.subrange(i, i + needle.len()) == needle
}

/// `i` is the first position at which `needle` occurs in `hay`.
pub open spec fn first_at<A>(hay: Seq<A>, needle: Seq<A>, i: int) -> bool {
    &&& occurs_at(hay, needle, i)
    &&& forall|j: int| 0 <= j < i ==> !#[trigger] occurs_at(hay, needle, j)
}

/// The first position of `needle` in `hay`, if it occurs at all.
pub open spec fn first_of<A>(hay: Seq<A>, needle: Seq<A>) -> Option<int> {
    if exists|i: int| first_at(hay, needle, i) {
        Some(choose|i: int| first_at(hay, needle, i))
    } else {
        None
    }
}

/// A position that is first is the one that `first_of` names.
pub proof fn lemma_first_is<A>(hay: Seq<A>, needle: Seq<A>, i: int)
    requires
        first_at(hay, needle, i),
    ensures
        first_of(hay, needle) == Some(i),
{
    let k = choose|k: int| first_at(hay, needle, k);
    assert(first_at(hay, needle, k));
    if k < i {
        assert(!occurs_at(hay, needle, k));
    } else if i < k {
        assert(!occurs_at(hay, needle, i));
    }
}

/// The characters of `s`.
pub fn chars_of(s: &str) -> (out: Vec<char>)
    ensures
        out@ == s@,
{
    let mut out: Vec<char> = Vec::new();
    for c in it: s.chars()
        invariant
            out@ == s@.take(it.index()),
            it.seq() == s@,
    {
        assert(s@.take(it.index() + 1) =~= s@.take(it.index()).push(c));
        out.push(c);
    }
    assert(s@.take(s@.len() as int) =~= s@);
    out
}

/// `std`'s `String::push` appends one character.
pub assume_specification[ String::push ](s: &mut String, c: char)
    ensures
        final(s)@ == old(s)@.push(c),
;

/// The string that holds exactly `chars`.
pub fn string_of(chars: &[char]) -> (out: String)
    ensures
        out@ == chars@,
{
    let mut out = String::new();
    let n: usize = chars.len();
    let mut i: usize = 0;
    while i < n
        invariant
            i <= n,
            n == chars@.len(),
            out@ == chars@.take(i as int),
        decreases n - i,
    {
        assert(chars@.take(i + 1) =~= chars@.take(i as int).push(chars@[i as int]));
        out.push(chars[i]);
        i = i + 1;
    }
    assert(chars@.take(n as int) =~= chars@);
    out
}

/// Whether `chars` spells exactly `word`.
pub fn spells(chars: &[char], word: &str) -> (same: bool)
    ensures
        same == (chars@ == word@),
{
    let other = chars_of(word);
    let n: usize = chars.len();
    if n != other.len() {
        return false;
    }
    let mut i: usize = 0;
    while i < n
        invariant
            i <= n,
            n == chars@.len(),
            n == other@.len(),
            other@ == word@,
            chars@.take(i as int) == other@.take(i as int),
        decreases n - i,
    {
        if chars[i] != other[i] {
            assert(chars@[i as int] != word@[i as int]);
            return false;
        }
        assert(chars@.take(i + 1) =~= chars@.take(i as int).push(chars@[i as int]));
        assert(other@.take(i + 1) =~= other@.take(i as int).push(other@[i as int]));
        i = i + 1;
    }
    assert(chars@.take(n as int) =~= chars@);
    assert(other@.take(n as int) =~= other@);
    true
}

/// Whether `s` spells `word`.
pub fn same(s: &String, word: &str) -> (yes: bool)
    ensures
        yes == (s@ == word@),
{
    let chars = chars_of(s.as_str());
    spells(&chars, word)
}

/// Whether `needle` occurs in `hay` at position `at`.
fn occurs_here(hay: &[char], needle: &[char], at: usize) -> (yes: bool)
    requires
        at + needle@.len() <= hay@.len(),
    ensures
        yes == occurs_at(hay@, needle@, at as int),
{
    let total: usize = hay.len();
    let n: usize = needle.len();
    let mut k: usize = 0;
    while k < n
        invariant
            k <= n,
            n == needle@.len(),
            at + n <= total,
            total == hay@.len(),
            forall|j: int| 0 <= j < k ==> hay@[at + j] == needle@[j],
        decreases n - k,
    {
        if hay[at + k] != needle[k] {
            assert(hay@.subrange(at as int, at + n)[k as int] != needle@[k as int]);
            return false;
        }
        k = k + 1;
    }
    assert(hay@.subrange(at as int, at + n) =~= needle@);
    true
}

/// The first position of `needle` in `hay` at or after `from`.
fn find_after(hay: &[char], needle: &[char], from: usize) -> (found: Option<usize>)
    requires
        from <= hay@.len(),
        needle@.len() > 0,
    ensures
        found == match first_of(hay@.skip(from as int), needle@) {
            Some(i) => Some((from + i) as usize),
            None => None,
        },
        found matches Some(i) ==> from <= i && i + needle@.len() <= hay@.len(),
{
    let n: usize = hay.len();
    let m: usize = needle.len();
    let ghost rest = hay@.skip(from as int);
    let mut i: usize = from;
    while m <= n - i
        invariant
            from <= i <= n,
            n == hay@.len(),
            m == needle@.len(),
            m > 0,
            rest == hay@.skip(from as int),
            forall|j: int| 0 <= j < i - from ==> !#[trigger] occurs_at(rest, needle@, j),
        decreases n - i,
    {
        assert(rest.subrange(i - from, i - from + m) =~= hay@.subrange(i as int, i + m));
        if occurs_here(hay, needle, i) {
            proof {
                assert(first_at(rest, needle@, i - from));
                lemma_first_is(rest, needle@, i - from);
            }
            return Some(i);
        }
        i = i + 1;
    }
    assert forall|k: int| !first_at(rest, needle@, k) by {
        if occurs_at(rest, needle@, k) {
            assert(k < i - from);
        }
    }
    None
}

/// The first position of `needle` in `hay`.
pub fn find_chars(hay: &[char], needle: &[char]) -> (found: Option<usize>)
    requires
        needle@.len() > 0,
    ensures
        found == match first_of(hay@, needle@) {
            Some(i) => Some(i as usize),
            None => None,
        },
        found matches Some(i) ==> i + needle@.len() <= hay@.len(),
{
    assert(hay@.skip(0) =~= hay@);
    find_after(hay, needle, 0)
}

/// The pieces of `text` between the occurrences of `sep`, found from left to
/// right: one more piece than there are separators.
pub open spec fn split_on(text: Seq<char>, sep: Seq<char>) -> Seq<Seq<char>>
    decreases text.len(),
{
    match first_of(text, sep) {
        Some(i) => if sep.len() > 0 && 0 <= i && i + sep.len() <= text.len() {
            seq![text.take(i)] + split_on(text.skip(i + sep.len()), sep)
        } else {
            seq![text]
        },
        None => seq![text],
    }
}

/// The contents of a list of texts.
pub open spec fn texts(pieces: Seq<Vec<char>>) -> Seq<Seq<char>> {
    Seq::new(pieces.len(), |i: int| pieces[i]@)
}

/// Splits `text` at every occurrence of `sep`.
pub fn split_chars(text: &[char], sep: &[char]) -> (pieces: Vec<Vec<char>>)
    requires
        sep@.len() > 0,
    ensures
        texts(pieces@) == split_on(text@, sep@),
{
    let mut pieces: Vec<Vec<char>> = Vec::new();
    let mut from: usize = 0;
    let n: usize = text.len();
    let m: usize = sep.len();
    assert(text@.skip(0) =~= text@);
    assert(texts(pieces@) + split_on(text@, sep@) =~= split_on(text@, sep@));
    loop
        invariant
            from <= n,
            n == text@.len(),
            m == sep@.len(),
            m > 0,
            texts(pieces@) + split_on(text@.skip(from as int), sep@) == split_on(text@, sep@),
        decreases n - from,
    {
        let ghost rest = text@.skip(from as int);
        let ghost before = texts(pieces@);
        match find_after(text, sep, from) {
            Some(i) => {
                let piece = slice_to_vec(slice_subrange(text, from, i));
                proof {
                    let k = first_of(rest, sep@).unwrap();
                    assert(0 <= k && k + m <= rest.len()) by {
                        assert(exists|q: int| first_at(rest, sep@, q));
                    }
                    assert(rest.take(k) =~= text@.subrange(from as int, i as int));
                    assert(rest.skip(k + m) =~= text@.skip(i + m));
                }
                pieces.push(piece);
                proof {
                    assert(texts(pieces@) =~= before.push(text@.subrange(from as int, i as int)));
                    assert(texts(pieces@) + split_on(text@.skip(i + m), sep@) =~= before + (seq![
                        text@.subrange(from as int, i as int),
                    ] + split_on(text@.skip(i + m), sep@)));
                }
                from = i + m;
            },
            None => {
                let piece = slice_to_vec(slice_subrange(text, from, n));
                assert(text@.subrange(from as int, n as int) =~= rest);
                pieces.push(piece);
                assert(texts(pieces@) =~= before + seq![rest]);
                return pieces;
            },
        }
    }
}

/// The White_Space characters of Unicode, which `str::trim` removes.
pub open spec fn is_space(c: char) -> bool {
    ||| '\u{9}' <= c <= '\u{d}'
    ||| c == ' '
    ||| c == '\u{85}'
    ||| c == '\u{a0}'
    ||| c == '\u{1680}'
    ||| '\u{2000}' <= c <= '\u{200a}'
    ||| c == '\u{2028}'
    ||| c == '\u{2029}'
    ||| c == '\u{202f}'
    ||| c == '\u{205f}'
    ||| c == '\u{3000}'
}

/// Whether `c` is white space.
pub fn whitespace(c: char) -> (yes: bool)
    ensures
        yes == is_space(c),
{
    ('\u{9}' <= c && c <= '\u{d}') || c == ' ' || c == '\u{85}' || c == '\u{a0}' || c == '\u{1680}'
        || ('\u{2000}' <= c && c <= '\u{200a}') || c == '\u{2028}' || c == '\u{2029}' || c
        == '\u{202f}' || c == '\u{205f}' || c == '\u{3000}'
}

/// `text` without its leading and trailing white space.
pub open spec fn trimmed(text: Seq<char>) -> Seq<char>
    decreases text.len(),
{
    if text.len() > 0 && is_space(text.first()) {
        trimmed(text.drop_first())
    } else if text.len() > 0 && is_space(text.last()) {
        trimmed(text.drop_last())
    } else {
        text
    }
}

/// Trims white space from both ends of `text`.
pub fn trim_chars(text: &[char]) -> (out: &[char])
    ensures
        out@ == trimmed(text@),
{
    let mut lo: usize = 0;
    let mut hi: usize = text.len();
    assert(text@.subrange(0, hi as int) =~= text@);
    while lo < hi && whitespace(text[lo])
        invariant
            lo <= hi == text@.len(),
            trimmed(text@.subrange(lo as int, hi as int)) == trimmed(text@),
        decreases hi - lo,
    {
        let ghost cur = text@.subrange(lo as int, hi as int);
        assert(cur.drop_first() =~= text@.subrange(lo + 1, hi as int));
        lo = lo + 1;
    }
    while lo < hi && whitespace(text[hi - 1])
        invariant
            lo <= hi <= text@.len(),
            lo < hi ==> !is_space(text@[lo as int]),
            trimmed(text@.subrange(lo as int, hi as int)) == trimmed(text@),
        decreases hi - lo,
    {
        let ghost cur = text@.subrange(lo as int, hi as int);
        assert(cur.drop_last() =~= text@.subrange(lo as int, hi - 1));
        hi = hi - 1;
    }
    slice_subrange(text, lo, hi)
}

/// The ASCII lower case of `c`; other characters are their own lower case.
pub open spec fn lower(c: char) -> char {
    if 'A' <= c <= 'Z' {
        ((c as u8) + 32) as u8 as char
    } else {
        c
    }
}

/// The ASCII lower case of `text`.
pub open spec fn lowered(text: Seq<char>) -> Seq<char> {
    Seq::new(text.len(), |i: int| lower(text[i]))
}

/// Lowers one character.
pub fn lower_char(c: char) -> (out: char)
    ensures
        out == lower(c),
{
    if 'A' <= c && c <= 'Z' {
        let b: u8 = c as u8;
        (b + 32) as char
    } else {
        c
    }
}

/// Lowers every character of `text`.
pub fn lower_chars(text: &[char]) -> (out: Vec<char>)
    ensures
        out@ == lowered(text@),
{
    let n: usize = text.len();
    let mut out: Vec<char> = Vec::new();
    let mut i: usize = 0;
    while i < n
        invariant
            i <= n,
            n == text@.len(),
            out@ == lowered(text@).take(i as int),
        decreases n - i,
    {
        out.push(lower_char(text[i]));
        assert(lowered(text@).take(i + 1) =~= lowered(text@).take(i as int).push(
            lower(text@[i as int]),
        ));
        i = i + 1;
    }
    assert(lowered(text@).take(n as int) =~= lowered(text@));
    out
}

/// Whether `c` is an ASCII letter or digit.
pub open spec fn is_alphanumeric(c: char) -> bool {
    'A' <= c <= 'Z' || 'a' <= c <= 'z' || '0' <= c <= '9'
}

/// Tests for an ASCII letter or digit.
pub fn alphanumeric(c: char) -> (yes: bool)
    ensures
        yes == is_alphanumeric(c),
{
    ('A' <= c && c <= 'Z') || ('a' <= c && c <= 'z') || ('0' <= c && c <= '9')
}

/// Whether `c` is an ASCII digit.
pub open spec fn is_digit(c: char) -> bool {
    '0' <= c <= '9'
}

/// The number that a run of digits denotes.
pub open spec fn digits_value(digits: Seq<char>) -> nat
    decreases digits.len(),
{
    if digits.len() == 0 {
        0
    } else {
        digits_value(digits.drop_last()) * 10 + (digits.last() as nat - '0' as nat) as nat
    }
}

/// `text` after an optional leading `+`.
pub open spec fn unsigned_part(text: Seq<char>) -> Seq<char> {
    if text.len() > 0 && text[0] == '+' {
        text.skip(1)
    } else {
        text
    }
}

/// The unsigned decimal number that `text` spells: an optional `+`, then one or
/// more digits and nothing else.
pub open spec fn decimal_of(text: Seq<char>) -> Option<nat> {
    let digits = unsigned_part(text);
    if digits.len() > 0 && (forall|i: int| 0 <= i < digits.len() ==> is_digit(digits[i])) {
        Some(digits_value(digits))
    } else {
        None
    }
}

/// A longer run of digits denotes no smaller number.
proof fn lemma_digits_monotone(digits: Seq<char>, k: int)
    requires
        0 <= k <= digits.len(),
        forall|i: int| 0 <= i < digits.len() ==> is_digit(digits[i]),
    ensures
        digits_value(digits.take(k)) <= digits_value(digits),
    decreases digits.len() - k,
{
    if k == digits.len() {
        assert(digits.take(k) =~= digits);
    } else {
        lemma_digits_monotone(digits, k + 1);
        assert(digits.take(k + 1).drop_last() =~= digits.take(k));
    }
}

/// Reads an unsigned decimal number of at most `max`.
pub fn parse_decimal(text: &[char], max: u64) -> (out: Option<u64>)
    ensures
        out == match decimal_of(text@) {
            Some(n) => if n <= max {
                Some(n as u64)
            } else {
                None
            },
            None => None,
        },
{
    let n: usize = text.len();
    let start: usize = if n > 0 && text[0] == '+' {
        1
    } else {
        0
    };
    let ghost digits = text@.skip(start as int);
    assert(text@.skip(0) =~= text@);
    assert(digits == unsigned_part(text@));
    if start == n {
        return None;
    }
    // Every character must be a digit, whatever the number's size.
    let mut i: usize = start;
    while i < n
        invariant
            start <= i <= n,
            n == text@.len(),
            digits == text@.skip(start as int),
            digits == unsigned_part(text@),
            forall|k: int| 0 <= k < i - start ==> is_digit(digits[k]),
        decreases n - i,
    {
        let c: char = text[i];
        if c < '0' || c > '9' {
            assert(!is_digit(digits[i - start]));
            return None;
        }
        i = i + 1;
    }
    let mut value: u64 = 0;
    i = start;
    while i < n
        invariant
            start <= i <= n,
            n == text@.len(),
            digits == text@.skip(start as int),
            digits.len() == n - start,
            forall|k: int| 0 <= k < digits.len() ==> is_digit(digits[k]),
            value == digits_value(digits.take(i - start)),
            value <= max,
            decimal_of(text@) == Some(digits_value(digits)),
        decreases n - i,
    {
        let c: char = text[i];
        assert(digits[i - start] == c);
        let d: u64 = c as u64 - '0' as u64;
        proof {
            let k = i - start;
            assert(digits.take(k + 1).drop_last() =~= digits.take(k));
            lemma_digits_monotone(digits, k + 1);
        }
        if value > max / 10 {
            return None;
        }
        let tens: u64 = value * 10;
        if d > max - tens {
            return None;
        }
        value = tens + d;
        i = i + 1;
    }
    assert(digits.take(n - start) =~= digits);
    Some(value)
}

/// The decimal digit that stands for `d`.
pub open spec fn digit_char(d: nat) -> char {
    ('0' as u8 + d) as u8 as char
}

/// `n` in decimal, without leading zeros.
pub open spec fn decimal_text(n: nat) -> Seq<char>
    decreases n,
{
    if n < 10 {
        seq![digit_char(n)]
    } else {
        decimal_text(n / 10).push(digit_char(n % 10))
    }
}

/// Appends `n` in decimal to `out`.
pub fn push_decimal(out: &mut String, n: u64)
    ensures
        final(out)@ == old(out)@ + decimal_text(n as nat),
    decreases n,
{
    let d: u8 = (n % 10) as u8;
    if n >= 10 {
        push_decimal(out, n / 10);
    }
    let c: char = (48 + d) as char;
    assert('0' as u8 == 48);
    out.push(c);
    assert(out@ =~= old(out)@ + decimal_text(n as nat));
}

/// Reading back a number that was written in decimal gives that number.
pub proof fn decimal_round_trips(n: nat)
    ensures
        decimal_of(decimal_text(n)) == Some(n),
    decreases n,
{
    lemma_decimal_text(n);
    assert(decimal_text(n)[0] != '+');
}

proof fn lemma_decimal_text(n: nat)
    ensures
        decimal_text(n).len() > 0,
        forall|i: int| 0 <= i < decimal_text(n).len() ==> is_digit(decimal_text(n)[i]),
        digits_value(decimal_text(n)) == n,
    decreases n,
{
    assert('0' as u8 == 48);
    if n < 10 {
        let s = seq![digit_char(n)];
        assert(s.drop_last() =~= Seq::<char>::empty());
        assert(digits_value(Seq::<char>::empty()) == 0);
    } else {
        lemma_decimal_text(n / 10);
        assert(decimal_text(n).drop_last() =~= decimal_text(n / 10));
    }
}

/// What [`first_of`] finds is an occurrence, there is none before it, and where it
/// finds nothing there is none at all.
pub proof fn first_of_finds_the_first<A>(hay: Seq<A>, needle: Seq<A>)
    ensures
        match first_of(hay, needle) {
            Some(i) => {
                &&& 0 <= i <= i + needle.len() <= hay.len()
                &&& hay.subrange(i, i + needle.len()) == needle
                &&& forall|j: int|
                    0 <= j < i ==> #[trigger] hay.subrange(j, j + needle.len()) != needle
            },
            None => forall|j: int|
                0 <= j <= hay.len() - needle.len() ==> #[trigger] hay.subrange(
                    j,
                    j + needle.len(),
                ) != needle,
        },
{
    match first_of(hay, needle) {
        Some(i) => {
            assert(first_at(hay, needle, i));
            assert forall|j: int| 0 <= j < i implies #[trigger] hay.subrange(
                j,
                j + needle.len(),
            ) != needle by {
                assert(!occurs_at(hay, needle, j));
            }
        },
        None => {
            assert forall|j: int| 0 <= j <= hay.len() - needle.len() implies #[trigger] hay.subrange(
                j,
                j + needle.len(),
            ) != needle by {
                if occurs_at(hay, needle, j) {
                    lemma_some_first(hay, needle, j);
                }
            }
        },
    }
}

/// Where something occurs, there is a first occurrence.
proof fn lemma_some_first<A>(hay: Seq<A>, needle: Seq<A>, i: int)
    requires
        occurs_at(hay, needle, i),
    ensures
        exists|k: int| first_at(hay, needle, k),
    decreases i,
{
    if exists|j: int| 0 <= j < i && occurs_at(hay, needle, j) {
        let j = choose|j: int| 0 <= j < i && occurs_at(hay, needle, j);
        lemma_some_first(hay, needle, j);
    } else {
        assert(first_at(hay, needle, i));
    }
}

/// Trimming takes white space from both ends and nothing else: the text is what was
/// taken and what is left, and what is left neither starts nor ends with white space.
pub proof fn trimming_takes_white_space_only(text: Seq<char>)
    ensures
        exists|a: Seq<char>, b: Seq<char>|
            {
                &&& #[trigger] (a + trimmed(text) + b) == text
                &&& forall|i: int| 0 <= i < a.len() ==> is_space(#[trigger] a[i])
                &&& forall|i: int| 0 <= i < b.len() ==> is_space(#[trigger] b[i])
            },
        trimmed(text).len() > 0 ==> !is_space(trimmed(text).first()) && !is_space(
            trimmed(text).last(),
        ),
    decreases text.len(),
{
    let t = trimmed(text);
    if text.len() > 0 && is_space(text.first()) {
        let rest = text.drop_first();
        trimming_takes_white_space_only(rest);
        let (a, b) = choose|a: Seq<char>, b: Seq<char>|
            {
                &&& #[trigger] (a + trimmed(rest) + b) == rest
                &&& forall|i: int| 0 <= i < a.len() ==> is_space(#[trigger] a[i])
                &&& forall|i: int| 0 <= i < b.len() ==> is_space(#[trigger] b[i])
            };
        let a2 = seq![text.first()] + a;
        assert(a + t + b == rest);
        assert(a2 + t + b =~= seq![text.first()] + (a + t + b));
        assert(seq![text.first()] + rest =~= text);
    } else if text.len() > 0 && is_space(text.last()) {
        let rest = text.drop_last();
        trimming_takes_white_space_only(rest);
        let (a, b) = choose|a: Seq<char>, b: Seq<char>|
            {
                &&& #[trigger] (a + trimmed(rest) + b) == rest
                &&& forall|i: int| 0 <= i < a.len() ==> is_space(#[trigger] a[i])
                &&& forall|i: int| 0 <= i < b.len() ==> is_space(#[trigger] b[i])
            };
        let b2 = b.push(text.last());
        assert(a + t + b == rest);
        assert(a + t + b2 =~= (a + t + b).push(text.last()));
        assert(rest.push(text.last()) =~= text);
    } else {
        let none = Seq::<char>::empty();
        assert(none + t + none =~= text);
    }
}

/// Space, tab and the line ends are white space; the visible ASCII characters are not.
pub proof fn visible_characters_are_no_space(c: char)
    ensures
        c == ' ' || c == '\t' || c == '\r' || c == '\n' ==> is_space(c),
        '\u{21}' <= c <= '\u{7e}' ==> !is_space(c),
{
}

/// Lower case changes the 26 upper-case letters of ASCII, each to its own lower-case
/// letter, and nothing else.
pub proof fn lowering_changes_upper_case_letters_only(text: Seq<char>)
    ensures
        lowered(text).len() == text.len(),
        forall|i: int|
            0 <= i < text.len() ==> if 65 <= text[i] as int <= 90 {
                (#[trigger] lowered(text)[i]) as int == text[i] as int + 32
            } else {
                lowered(text)[i] == text[i]
            },
{
}

/// Decimal numbers are read digit by digit: one digit is its own value, one more digit
/// is ten times what was read and that digit, and a sign in front changes nothing.
pub proof fn decimals_are_read_digit_by_digit(digits: Seq<char>, c: char)
    requires
        '0' <= c <= '9',
        forall|i: int| 0 <= i < digits.len() ==> '0' <= #[trigger] digits[i] <= '9',
    ensures
        decimal_of(seq![c]) == Some((c as int - '0' as int) as nat),
        digits.len() > 0 ==> decimal_of(digits) is Some,
        digits.len() > 0 ==> decimal_of(digits.push(c)) == Some(
            (decimal_of(digits)->0 * 10 + (c as int - '0' as int)) as nat,
        ),
        digits.len() > 0 ==> decimal_of(seq!['+'] + digits) == decimal_of(digits),
{
    let one = seq![c];
    assert(one.drop_last() =~= Seq::<char>::empty());
    assert(digits_value(Seq::<char>::empty()) == 0);
    assert(one[0] == c);
    if digits.len() > 0 {
        assert(digits[0] != '+');
        let more = digits.push(c);
        assert(more[0] == digits[0]);
        assert(more.drop_last() =~= digits);
        assert forall|i: int| 0 <= i < more.len() implies is_digit(more[i]) by {
            if i < digits.len() {
                assert('0' <= digits[i] <= '9');
            }
        }
        assert((seq!['+'] + digits).skip(1) =~= digits);
    }
}

/// Nothing but an optional sign and one digit or more is read as a number.
pub proof fn other_texts_are_no_decimals(text: Seq<char>)
    ensures
        text.len() == 0 ==> decimal_of(text) is None,
        (exists|i: int|
            0 <= i < text.len() && !('0' <= #[trigger] text[i] <= '9') && !(i == 0 && text[i] == '+'))
            ==> decimal_of(text) is None,
        text == seq!['+'] ==> decimal_of(text) is None,
{
    let digits = unsigned_part(text);
    if exists|i: int|
        0 <= i < text.len() && !('0' <= #[trigger] text[i] <= '9') && !(i == 0 && text[i] == '+') {
        let i = choose|i: int|
            0 <= i < text.len() && !('0' <= #[trigger] text[i] <= '9') && !(i == 0 && text[i]
                == '+');
        if text[0] == '+' {
            assert(digits[i - 1] == text[i]);
        } else {
            assert(digits[i] == text[i]);
        }
    }
}

/// Numbers are written with digits only and without leading zeros.
pub proof fn decimals_are_written_without_leading_zeros(n: nat)
    ensures
        decimal_text(n).len() > 0,
        forall|i: int| 0 <= i < decimal_text(n).len() ==> '0' <= #[trigger] decimal_text(n)[i] <= '9',
        n > 0 ==> decimal_text(n)[0] != '0',
        n == 0 ==> decimal_text(n) == seq!['0'],
    decreases n,
{
    lemma_decimal_text(n);
    assert('0' as u8 == 48);
    assert forall|i: int| 0 <= i < decimal_text(n).len() implies '0' <= #[trigger] decimal_text(
        n,
    )[i] <= '9' by {
        assert(is_digit(decimal_text(n)[i]));
    }
    if n >= 10 {
        decimals_are_written_without_leading_zeros(n / 10);
        assert(decimal_text(n)[0] == decimal_text(n / 10)[0]);
    }
}

/// The pieces of a list, with a separator between each two of them.
pub open spec fn joined_with(pieces: Seq<Seq<char>>, sep: Seq<char>) -> Seq<char>
    decreases pieces.len(),
{
    if pieces.len() == 0 {
        Seq::empty()
    } else if pieces.len() == 1 {
        pieces[0]
    } else {
        pieces[0] + sep + joined_with(pieces.drop_first(), sep)
    }
}

/// Nothing is lost in splitting: the pieces with the separators between them are the
/// text, and there is always a piece.
pub proof fn split_pieces_make_the_text(text: Seq<char>, sep: Seq<char>)
    requires
        sep.len() > 0,
    ensures
        split_on(text, sep).len() > 0,
        joined_with(split_on(text, sep), sep) == text,
        forall|i: int|
            0 <= i < split_on(text, sep).len() ==> first_of(
                #[trigger] split_on(text, sep)[i],
                sep,
            ) is None,
    decreases text.len(),
{
    first_of_finds_the_first(text, sep);
    let all = split_on(text, sep);
    match first_of(text, sep) {
        Some(i) => {
            let rest = text.skip(i + sep.len());
            split_pieces_make_the_text(rest, sep);
            assert(all.drop_first() =~= split_on(rest, sep));
            assert(all[0] =~= text.take(i));
            assert(text =~= text.take(i) + sep + rest);
            assert forall|k: int| 0 <= k < all.len() implies first_of(
                #[trigger] all[k],
                sep,
            ) is None by {
                if k == 0 {
                    let head = text.take(i);
                    first_of_finds_the_first(head, sep);
                    if let Some(j) = first_of(head, sep) {
                        assert(head.subrange(j, j + sep.len()) =~= text.subrange(
                            j,
                            j + sep.len(),
                        ));
                    }
                } else {
                    assert(all[k] == split_on(rest, sep)[k - 1]);
                }
            }
        },
        None => {
            assert(all =~= seq![text]);
        },
    }
}

/// Pieces that are joined by a separator are found again by splitting, where none of
/// them holds the character that the separator starts with.
pub proof fn joined_pieces_are_split_again(pieces: Seq<Seq<char>>, sep: Seq<char>)
    requires
        pieces.len() > 0,
        sep.len() > 0,
        forall|i: int, j: int|
            0 <= i < pieces.len() && 0 <= j < pieces[i].len() ==> #[trigger] pieces[i][j] != sep[0],
    ensures
        split_on(joined_with(pieces, sep), sep) == pieces,
    decreases pieces.len(),
{
    let all = joined_with(pieces, sep);
    let first = pieces[0];
    if pieces.len() == 1 {
        assert forall|k: int| !first_at(all, sep, k) by {
            if occurs_at(all, sep, k) {
                assert(all.subrange(k, k + sep.len())[0] == pieces[0][k]);
            }
        }
        assert(split_on(all, sep) =~= pieces);
    } else {
        let others = pieces.drop_first();
        let tail = joined_with(others, sep);
        assert forall|i: int, j: int|
            0 <= i < others.len() && 0 <= j < others[i].len() implies #[trigger] others[i][j]
            != sep[0] by {
            assert(others[i] == pieces[i + 1]);
            assert(pieces[i + 1][j] != sep[0]);
        }
        joined_pieces_are_split_again(others, sep);
        let at = first.len() as int;
        assert(all.subrange(at, at + sep.len()) =~= sep);
        assert forall|k: int| 0 <= k < at implies !#[trigger] occurs_at(all, sep, k) by {
            if occurs_at(all, sep, k) {
                assert(all.subrange(k, k + sep.len())[0] == pieces[0][k]);
            }
        }
        lemma_first_is(all, sep, at);
        assert(all.take(at) =~= first);
        assert(all.skip(at + sep.len()) =~= tail);
        assert(seq![first] + others =~= pieces);
    }
}

} // verus!
