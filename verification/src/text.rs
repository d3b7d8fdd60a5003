//! Text as sequences of characters: trimming, splitting, matching, numbers in decimal notation.

use vstd::prelude::*;

#[allow(unused_imports)]
use vstd::arithmetic::power::pow;

verus! {

// ---------------------------------------------------------------------------
// Model
// ---------------------------------------------------------------------------

/// The characters with the Unicode property `White_Space`.
pub open spec fn is_white_space(c: char) -> bool {
    ||| '\u{9}' <= c <= '\u{d}'
    ||| c == '\u{20}'
    ||| c == '\u{85}'
    ||| c == '\u{a0}'
    ||| c == '\u{1680}'
    ||| '\u{2000}' <= c <= '\u{200a}'
    ||| c == '\u{2028}'
    ||| c == '\u{2029}'
    ||| c == '\u{202f}'
    ||| c == '\u{205f}'
    ||| c == '\u{3000}'
}

/// `s` without its leading white space.
pub open spec fn trimmed_start(s: Seq<char>) -> Seq<char>
    decreases s.len(),
{
    if s.len() > 0 && is_white_space(s[0]) {
        trimmed_start(s.skip(1))
    } else {
        s
    }
}

/// `s` without its trailing white space.
pub open spec fn trimmed_end(s: Seq<char>) -> Seq<char>
    decreases s.len(),
{
    if s.len() > 0 && is_white_space(s.last()) {
        trimmed_end(s.drop_last())
    } else {
        s
    }
}

/// `s` without white space at either end.
pub open spec fn trimmed(s: Seq<char>) -> Seq<char> {
    trimmed_end(trimmed_start(s))
}

/// `s` with `suffix` taken off its end as often as it stands there.
pub open spec fn without_suffixes(s: Seq<char>, suffix: Seq<char>) -> Seq<char>
    decreases s.len(),
{
    if suffix.len() > 0 && suffix.is_suffix_of(s) {
        without_suffixes(s.take(s.len() - suffix.len()), suffix)
    } else {
        s
    }
}

/// `needle` stands somewhere in `s`.
pub open spec fn contains_text(s: Seq<char>, needle: Seq<char>) -> bool {
    exists|i: int|
        0 <= i <= s.len() - needle.len() && #[trigger] s.subrange(i, i + needle.len()) == needle
}

/// The pieces of `s` between the occurrences of `sep`, in order; one piece more than separators.
pub open spec fn split_on(s: Seq<char>, sep: char) -> Seq<Seq<char>>
    decreases s.len(),
{
    if s.len() == 0 {
        seq![Seq::<char>::empty()]
    } else {
        let pieces = split_on(s.drop_last(), sep);
        if s.last() == sep {
            pieces.push(Seq::<char>::empty())
        } else {
            pieces.drop_last().push(pieces.last().push(s.last()))
        }
    }
}

pub open spec fn is_digit(c: char) -> bool {
    '0' <= c <= '9'
}

pub open spec fn digit_value(c: char) -> nat {
    (c as int - '0' as int) as nat
}

/// The decimal digit for a number below ten.
pub open spec fn digit_char(d: nat) -> char {
    ('0' as int + d) as char
}

/// The number that a sequence of decimal digits stands for.
pub open spec fn digits_value(s: Seq<char>) -> nat
    decreases s.len(),
{
    if s.len() == 0 {
        0
    } else {
        10 * digits_value(s.drop_last()) + digit_value(s.last())
    }
}

pub open spec fn all_digits(s: Seq<char>) -> bool {
    forall|i: int| 0 <= i < s.len() ==> is_digit(#[trigger] s[i])
}

/// `n` in decimal notation, without leading zeros.
pub open spec fn decimal_text(n: nat) -> Seq<char>
    decreases n,
{
    if n < 10 {
        seq![digit_char(n)]
    } else {
        decimal_text(n / 10).push(digit_char(n % 10))
    }
}

/// `s` without the plus sign that it may begin with.
pub open spec fn unsigned_part(s: Seq<char>) -> Seq<char> {
    if s.len() > 0 && s[0] == '+' {
        s.skip(1)
    } else {
        s
    }
}

/// The number that `s` writes, an optional plus sign followed by decimal digits, if it is one and
/// is not above `max`.
pub open spec fn parsed_number(s: Seq<char>, max: nat) -> Option<nat> {
    let digits = unsigned_part(s);
    if digits.len() > 0 && all_digits(digits) && digits_value(digits) <= max {
        Some(digits_value(digits))
    } else {
        None
    }
}

/// The texts of a sequence of strings.
pub open spec fn texts(v: Seq<String>) -> Seq<Seq<char>> {
    v.map_values(|s: String| s@)
}

/// The text of an optional string.
pub open spec fn text_opt(o: Option<String>) -> Option<Seq<char>> {
    match o {
        Some(s) => Some(s@),
        None => None,
    }
}

/// `s` with each occurrence of `from` replaced by `to`.
pub open spec fn char_replaced(s: Seq<char>, from: char, to: Seq<char>) -> Seq<char>
    decreases s.len(),
{
    if s.len() == 0 {
        s
    } else {
        char_replaced(s.drop_last(), from, to) + (if s.last() == from {
            to
        } else {
            seq![s.last()]
        })
    }
}

// ---------------------------------------------------------------------------
// Strings and characters
// ---------------------------------------------------------------------------

/// `String::push` of std appends the character to the end of the string.
pub assume_specification[ String::push ](s: &mut String, ch: char)
    ensures
        final(s)@ == old(s)@.push(ch),
;

/// The characters of a string, in order.
pub fn chars_of(s: &str) -> (r: Vec<char>)
    ensures
        r@ == s@,
{
    let mut r: Vec<char> = Vec::new();
    for c in it: s.chars()
        invariant
            it.seq() == s@,
            r@ == s@.take(it.index()),
    {
        r.push(c);
    }
    assert(s@.take(s@.len() as int) == s@);
    r
}

/// The string made of the characters of `v` from `from` up to `to`.
pub fn string_of(v: &Vec<char>, from: usize, to: usize) -> (r: String)
    requires
        from <= to <= v@.len(),
    ensures
        r@ == v@.subrange(from as int, to as int),
{
    let mut r = String::new();
    let mut i: usize = from;
    while i < to
        invariant
            from <= i <= to <= v@.len(),
            r@ == v@.subrange(from as int, i as int),
        decreases to - i,
    {
        r.push(v[i]);
        i += 1;
    }
    r
}

/// `c` in lower case, where it is an ASCII letter.
pub open spec fn ascii_lower(c: char) -> char {
    if 'A' <= c <= 'Z' {
        (c as int + 32) as char
    } else {
        c
    }
}

/// `c` in upper case, where it is an ASCII letter.
pub open spec fn ascii_upper(c: char) -> char {
    if 'a' <= c <= 'z' {
        (c as int - 32) as char
    } else {
        c
    }
}

/// What `str::to_lowercase` of std makes of a text.
pub uninterp spec fn lowercase_text(s: Seq<char>) -> Seq<char>;

/// Calls `str::to_lowercase` of std, which maps a text to its Unicode lower case. Its result is
/// named for every text, and spelled out for ASCII text, where each letter is mapped by itself.
#[verifier::external_body]
pub(crate) fn to_lowercase(s: &str) -> (r: String)
    ensures
        r@ == lowercase_text(s@),
        vstd::utf8::is_ascii_chars(s@) ==> r@ == s@.map_values(|c: char| ascii_lower(c)),
{
    s.to_lowercase()
}

/// What `str::to_uppercase` of std makes of a text.
pub uninterp spec fn uppercase_text(s: Seq<char>) -> Seq<char>;

/// Calls `str::to_uppercase` of std, which maps a text to its Unicode upper case. Its result is
/// named for every text, and spelled out for ASCII text, where each letter is mapped by itself.
#[verifier::external_body]
pub(crate) fn to_uppercase(s: &str) -> (r: String)
    ensures
        r@ == uppercase_text(s@),
        vstd::utf8::is_ascii_chars(s@) ==> r@ == s@.map_values(|c: char| ascii_upper(c)),
{
    s.to_uppercase()
}

/// Whether `char::is_numeric` of std holds of a character.
pub uninterp spec fn is_numeric_char(c: char) -> bool;

/// Calls `char::is_numeric` of std, which tells the characters of Unicode's numeric categories.
/// Its result is named for every character; among the ASCII characters it holds of the decimal
/// digits alone.
#[verifier::external_body]
pub(crate) fn is_numeric(c: char) -> (r: bool)
    ensures
        r == is_numeric_char(c),
        c <= '\u{7f}' ==> r == is_digit(c),
{
    c.is_numeric()
}

/// What `Debug` of std writes for a text: the text in quotes, with escapes.
pub uninterp spec fn quoted_text(s: Seq<char>) -> Seq<char>;

/// Formats a string with `Debug` of std, which puts it in double quotes and escapes what is not
/// printable. Its result is named; which characters are escaped is left unsaid.
#[verifier::external_body]
pub(crate) fn quote(s: &str) -> (r: String)
    ensures
        r@ == quoted_text(s@),
{
    format!("{:?}", s)
}

/// The two texts are the same.
pub fn same_text(a: &str, b: &str) -> (r: bool)
    ensures
        r == (a@ == b@),
{
    a.to_owned() == b.to_owned()
}

// ---------------------------------------------------------------------------
// Trimming and matching
// ---------------------------------------------------------------------------

fn is_white_space_char(c: char) -> (r: bool)
    ensures
        r == is_white_space(c),
{
    ('\u{9}' <= c && c <= '\u{d}') || c == '\u{20}' || c == '\u{85}' || c == '\u{a0}' || c
        == '\u{1680}' || ('\u{2000}' <= c && c <= '\u{200a}') || c == '\u{2028}' || c == '\u{2029}'
        || c == '\u{202f}' || c == '\u{205f}' || c == '\u{3000}'
}

/// `s` without white space at either end.
pub fn trim(s: &str) -> (r: String)
    ensures
        r@ == trimmed(s@),
{
    let v = chars_of(s);
    let mut from: usize = 0;
    proof {
        assert(v@.skip(0) == v@);
    }
    while from < v.len() && is_white_space_char(v[from])
        invariant
            from <= v@.len(),
            trimmed_start(v@) == trimmed_start(v@.skip(from as int)),
        decreases v@.len() - from,
    {
        proof {
            assert(v@.skip(from as int).skip(1) == v@.skip(from + 1));
        }
        from += 1;
    }
    let mut to: usize = v.len();
    proof {
        assert(v@.subrange(from as int, to as int) == v@.skip(from as int));
    }
    while to > from && is_white_space_char(v[to - 1])
        invariant
            from <= to <= v@.len(),
            trimmed(v@) == trimmed_end(v@.subrange(from as int, to as int)),
        decreases to,
    {
        proof {
            assert(v@.subrange(from as int, to as int).drop_last() == v@.subrange(
                from as int,
                to - 1,
            ));
        }
        to -= 1;
    }
    string_of(&v, from, to)
}

fn range_matches(v: &Vec<char>, at: usize, needle: &Vec<char>) -> (r: bool)
    requires
        at + needle@.len() <= v@.len(),
    ensures
        r == (v@.subrange(at as int, at + needle@.len()) == needle@),
{
    let size: usize = v.len();
    let mut i: usize = 0;
    while i < needle.len()
        invariant
            size == v@.len(),
            i <= needle@.len(),
            at + needle@.len() <= v@.len(),
            forall|j: int| 0 <= j < i ==> v@[at + j] == #[trigger] needle@[j],
        decreases needle@.len() - i,
    {
        if v[at + i] != needle[i] {
            proof {
                assert(v@.subrange(at as int, at + needle@.len())[i as int] == v@[at + i]);
            }
            return false;
        }
        i += 1;
    }
    proof {
        assert(v@.subrange(at as int, at + needle@.len()) =~= needle@);
    }
    true
}

/// `s` begins with `prefix`.
pub fn starts_with(s: &str, prefix: &str) -> (r: bool)
    ensures
        r == prefix@.is_prefix_of(s@),
{
    let v = chars_of(s);
    let p = chars_of(prefix);
    v.len() >= p.len() && range_matches(&v, 0, &p)
}

/// `s` ends with `suffix`.
pub fn ends_with(s: &str, suffix: &str) -> (r: bool)
    ensures
        r == suffix@.is_suffix_of(s@),
{
    let v = chars_of(s);
    let p = chars_of(suffix);
    v.len() >= p.len() && range_matches(&v, v.len() - p.len(), &p)
}

/// `needle` stands somewhere in `s`.
pub fn contains(s: &str, needle: &str) -> (r: bool)
    ensures
        r == contains_text(s@, needle@),
{
    let v = chars_of(s);
    let p = chars_of(needle);
    if p.len() > v.len() {
        return false;
    }
    let mut i: usize = 0;
    while i <= v.len() - p.len()
        invariant
            p@ == needle@,
            v@ == s@,
            p@.len() <= v@.len(),
            i <= v@.len() - p@.len() + 1,
            forall|j: int| 0 <= j < i ==> #[trigger] s@.subrange(j, j + needle@.len()) != needle@,
        decreases v@.len() + 1 - i,
    {
        if range_matches(&v, i, &p) {
            proof {
                assert(s@.subrange(i as int, i + needle@.len()) == needle@);
            }
            return true;
        }
        if i == v.len() - p.len() {
            return false;
        }
        i += 1;
    }
    false
}

/// `s` with `suffix` taken off its end as often as it stands there.
pub fn trim_end_matches(s: &str, suffix: &str) -> (r: String)
    ensures
        r@ == without_suffixes(s@, suffix@),
{
    let v = chars_of(s);
    let p = chars_of(suffix);
    let mut to: usize = v.len();
    proof {
        assert(v@.take(to as int) == v@);
    }
    while p.len() > 0 && to >= p.len() && range_matches(&v, to - p.len(), &p)
        invariant
            to <= v@.len(),
            p@ == suffix@,
            without_suffixes(s@, suffix@) == without_suffixes(v@.take(to as int), suffix@),
        decreases to,
    {
        proof {
            let cur = v@.take(to as int);
            assert(cur.subrange(cur.len() - p@.len(), cur.len() as int) == v@.subrange(
                to - p@.len(),
                to as int,
            ));
            assert(cur.take(cur.len() - p@.len()) == v@.take(to - p@.len()));
        }
        to -= p.len();
    }
    proof {
        let cur = v@.take(to as int);
        if p@.len() > 0 && p@.len() <= to {
            assert(cur.subrange(cur.len() - p@.len(), cur.len() as int) == v@.subrange(
                to - p@.len(),
                to as int,
            ));
        }
        assert(v@.subrange(0, to as int) == cur);
    }
    string_of(&v, 0, to)
}

/// The pieces of `s` between the occurrences of `sep`.
pub fn split(s: &str, sep: char) -> (r: Vec<String>)
    ensures
        texts(r@) == split_on(s@, sep),
{
    let v = chars_of(s);
    let mut r: Vec<String> = Vec::new();
    let mut cur = String::new();
    let mut i: usize = 0;
    while i < v.len()
        invariant
            i <= v@.len(),
            v@ == s@,
            split_on(s@.take(i as int), sep) == texts(r@).push(cur@),
        decreases v@.len() - i,
    {
        let c = v[i];
        proof {
            let next = s@.take(i + 1);
            assert(next.drop_last() == s@.take(i as int));
            assert(texts(r@).push(cur@).drop_last() == texts(r@));
        }
        if c == sep {
            let ghost before = r@;
            r.push(cur);
            proof {
                assert(texts(r@) == texts(before).push(cur@));
            }
            cur = String::new();
        } else {
            cur.push(c);
        }
        i += 1;
    }
    proof {
        assert(s@.take(s@.len() as int) == s@);
    }
    let ghost before = r@;
    r.push(cur);
    proof {
        assert(texts(r@) == texts(before).push(cur@));
    }
    r
}

/// `s` with each occurrence of `from` replaced by `to`.
pub fn replace_char(s: &str, from: char, to: &str) -> (r: String)
    ensures
        r@ == char_replaced(s@, from, to@),
{
    let v = chars_of(s);
    let mut r = String::new();
    let mut i: usize = 0;
    while i < v.len()
        invariant
            i <= v@.len(),
            v@ == s@,
            r@ == char_replaced(s@.take(i as int), from, to@),
        decreases v@.len() - i,
    {
        proof {
            assert(s@.take(i + 1).drop_last() == s@.take(i as int));
        }
        if v[i] == from {
            r.append(to);
        } else {
            let ghost before = r@;
            r.push(v[i]);
            proof {
                assert(before.push(v@[i as int]) == before + seq![v@[i as int]]);
            }
        }
        i += 1;
    }
    proof {
        assert(s@.take(s@.len() as int) == s@);
    }
    r
}

// ---------------------------------------------------------------------------
// Numbers
// ---------------------------------------------------------------------------

/// `n` in decimal notation.
pub fn decimal(n: u128) -> (r: String)
    ensures
        r@ == decimal_text(n as nat),
    decreases n,
{
    let d: u8 = (n % 10) as u8;
    let c = (48 + d) as char;
    if n < 10 {
        let mut r = String::new();
        r.push(c);
        proof {
            assert(r@ == seq![digit_char(n as nat)]);
        }
        r
    } else {
        let mut r = decimal(n / 10);
        r.push(c);
        r
    }
}

/// The number that `s` writes, unless it is none or is above `max`.
pub fn parse_number(s: &str, max: u64) -> (r: Option<u64>)
    ensures
        match r {
            Some(n) => parsed_number(s@, max as nat) == Some(n as nat),
            None => parsed_number(s@, max as nat) is None,
        },
{
    let v = chars_of(s);
    let from: usize = if v.len() > 0 && v[0] == '+' {
        1
    } else {
        0
    };
    let ghost digits = unsigned_part(s@);
    proof {
        assert(digits == v@.skip(from as int));
    }
    if from == v.len() {
        return None;
    }
    let mut n: u64 = 0;
    let mut over: bool = false;
    let mut i: usize = from;
    while i < v.len()
        invariant
            from <= i <= v@.len(),
            digits == unsigned_part(s@),
            digits == v@.skip(from as int),
            all_digits(digits.take(i - from)),
            over ==> digits_value(digits.take(i - from)) > max,
            !over ==> n == digits_value(digits.take(i - from)) && n <= max,
        decreases v@.len() - i,
    {
        let c = v[i];
        let ghost k = i - from;
        proof {
            assert(digits[k] == c);
            assert(digits.take(k + 1).drop_last() == digits.take(k));
            assert(digits.take(k + 1).last() == c);
        }
        if c < '0' || '9' < c {
            proof {
                assert(!is_digit(digits[k]));
            }
            return None;
        }
        let d: u64 = c as u64 - 48;
        if !over {
            if d > max || n > (max - d) / 10 {
                over = true;
            } else {
                n = n * 10 + d;
            }
        }
        proof {
            assert forall|j: int| 0 <= j < k + 1 implies is_digit(
                #[trigger] digits.take(k + 1)[j],
            ) by {
                if j < k {
                    assert(digits.take(k)[j] == digits.take(k + 1)[j]);
                }
            }
        }
        i += 1;
    }
    proof {
        assert(digits.take(v@.len() - from) == digits);
    }
    if over {
        None
    } else {
        Some(n)
    }
}

// ---------------------------------------------------------------------------
// Laws
// ---------------------------------------------------------------------------

/// The pieces with the separator between them.
pub open spec fn joined(pieces: Seq<Seq<char>>, sep: char) -> Seq<char>
    decreases pieces.len(),
{
    if pieces.len() == 0 {
        Seq::empty()
    } else if pieces.len() == 1 {
        pieces[0]
    } else {
        joined(pieces.drop_last(), sep).push(sep) + pieces.last()
    }
}

/// Splitting a text gives at least one piece; no piece holds the separator, and with separators
/// between them the pieces are the text again.
pub proof fn law_split(s: Seq<char>, sep: char)
    ensures
        split_on(s, sep).len() > 0,
        joined(split_on(s, sep), sep) == s,
        forall|i: int|
            0 <= i < split_on(s, sep).len() ==> !(#[trigger] split_on(s, sep)[i]).contains(sep),
    decreases s.len(),
{
    if s.len() > 0 {
        let before = split_on(s.drop_last(), sep);
        law_split(s.drop_last(), sep);
        let after = split_on(s, sep);
        if s.last() == sep {
            assert(after.drop_last() =~= before);
            assert(joined(after, sep) =~= s);
        } else {
            let last = before.last();
            assert(after.drop_last() =~= before.drop_last());
            assert(!before[before.len() - 1].contains(sep));
            assert forall|i: int| 0 <= i < after.len() implies !(#[trigger] after[i]).contains(
                sep,
            ) by {
                if i < before.len() - 1 {
                    assert(after[i] == before[i]);
                } else if after[i].contains(sep) {
                    let k = choose|k: int| 0 <= k < after[i].len() && after[i][k] == sep;
                    assert(last[k] == sep);
                }
            }
            assert(joined(after, sep) =~= joined(before, sep).push(s.last()));
            assert(joined(after, sep) =~= s);
        }
    }
}

/// Reading a number in decimal notation gives the number, and the notation is made of digits alone,
/// with a zero in front only where the number is zero.
pub proof fn law_decimal(n: nat, max: nat)
    requires
        n <= max,
    ensures
        parsed_number(decimal_text(n), max) == Some(n),
        forall|i: int| 0 <= i < decimal_text(n).len() ==> '0' <= #[trigger] decimal_text(n)[i]
            <= '9',
        digits_value(decimal_text(n)) == n,
        n > 0 ==> decimal_text(n)[0] != '0',
        n == 0 ==> decimal_text(n) == seq!['0'],
{
    lemma_decimal_digits(n);
}

/// The digits of a number in decimal notation.
pub proof fn lemma_decimal_digits(n: nat)
    ensures
        decimal_text(n).len() > 0,
        all_digits(decimal_text(n)),
        digits_value(decimal_text(n)) == n,
        decimal_text(n)[0] != '+',
        n > 0 ==> decimal_text(n)[0] != '0',
    decreases n,
{
    let s = decimal_text(n);
    if n < 10 {
        assert(s.drop_last() =~= Seq::empty());
        assert(digits_value(s.drop_last()) == 0);
    } else {
        lemma_decimal_digits(n / 10);
        assert(s.drop_last() =~= decimal_text(n / 10));
    }
}

/// A text without the separator is its only piece.
pub proof fn lemma_split_none(s: Seq<char>, sep: char)
    requires
        !s.contains(sep),
    ensures
        split_on(s, sep) == seq![s],
    decreases s.len(),
{
    if s.len() > 0 {
        let before = s.drop_last();
        assert forall|k: int| 0 <= k < before.len() implies before[k] != sep by {
            assert(before[k] == s[k]);
        }
        lemma_split_none(before, sep);
        assert(s[s.len() - 1] != sep);
        assert(before.push(s.last()) =~= s);
        assert(split_on(s, sep) =~= seq![s]);
    } else {
        assert(s =~= Seq::empty());
    }
}

/// A text that does not begin with the separator begins its first piece.
pub proof fn lemma_first_piece(s: Seq<char>, sep: char)
    requires
        s.len() > 0,
        s[0] != sep,
    ensures
        split_on(s, sep).len() > 0,
        split_on(s, sep)[0].len() > 0,
        split_on(s, sep)[0][0] == s[0],
    decreases s.len(),
{
    if s.len() > 1 {
        lemma_first_piece(s.drop_last(), sep);
    } else {
        assert(s.drop_last() =~= Seq::empty());
        assert(split_on(s.drop_last(), sep) =~= seq![Seq::<char>::empty()]);
    }
}

/// What follows a separator and holds no other is the last piece.
pub proof fn lemma_split_last(a: Seq<char>, sep: char, b: Seq<char>)
    requires
        !b.contains(sep),
    ensures
        split_on(a.push(sep) + b, sep) == split_on(a, sep).push(b),
    decreases b.len(),
{
    let s = a.push(sep) + b;
    if b.len() > 0 {
        let before = b.drop_last();
        assert forall|k: int| 0 <= k < before.len() implies before[k] != sep by {
            assert(before[k] == b[k]);
        }
        lemma_split_last(a, sep, before);
        assert(s.drop_last() =~= a.push(sep) + before);
        assert(b[b.len() - 1] != sep);
        assert(before.push(b.last()) =~= b);
        assert(split_on(s, sep) =~= split_on(a, sep).push(b));
    } else {
        assert(s =~= a.push(sep));
        assert(s.drop_last() =~= a);
        assert(b =~= Seq::empty());
    }
}

/// Trimming takes white space off the two ends of a text and nothing else: what is left is a
/// stretch of it with white space alone before and after, and neither begins nor ends with any.
pub proof fn law_trimmed(s: Seq<char>)
    ensures
        trimmed(s).len() <= s.len(),
        trimmed(s).len() > 0 ==> !is_white_space(trimmed(s)[0]) && !is_white_space(
            trimmed(s).last(),
        ),
        exists|i: int, j: int|
            {
                &&& 0 <= i <= j <= s.len()
                &&& trimmed(s) == #[trigger] s.subrange(i, j)
                &&& forall|k: int| 0 <= k < i ==> is_white_space(#[trigger] s[k])
                &&& forall|k: int| j <= k < s.len() ==> is_white_space(#[trigger] s[k])
            },
{
    let i = lemma_trimmed_start(s);
    let j = lemma_trimmed_end(trimmed_start(s));
    assert(s.subrange(i, i + j) =~= trimmed(s));
    assert forall|k: int| i + j <= k < s.len() implies is_white_space(#[trigger] s[k]) by {
        assert(trimmed_start(s)[k - i] == s[k]);
    }
}

proof fn lemma_trimmed_start(s: Seq<char>) -> (i: int)
    ensures
        0 <= i <= s.len(),
        trimmed_start(s) == s.skip(i),
        forall|k: int| 0 <= k < i ==> is_white_space(#[trigger] s[k]),
        i < s.len() ==> !is_white_space(s[i]),
    decreases s.len(),
{
    if s.len() > 0 && is_white_space(s[0]) {
        let i = lemma_trimmed_start(s.skip(1));
        assert(s.skip(1).skip(i) =~= s.skip(i + 1));
        assert forall|k: int| 0 <= k < i + 1 implies is_white_space(#[trigger] s[k]) by {
            if k > 0 {
                assert(s.skip(1)[k - 1] == s[k]);
            }
        }
        i + 1
    } else {
        assert(s.skip(0) =~= s);
        0
    }
}

proof fn lemma_trimmed_end(s: Seq<char>) -> (j: int)
    ensures
        0 <= j <= s.len(),
        trimmed_end(s) == s.take(j),
        forall|k: int| j <= k < s.len() ==> is_white_space(#[trigger] s[k]),
        j > 0 ==> !is_white_space(s[j - 1]),
    decreases s.len(),
{
    if s.len() > 0 && is_white_space(s.last()) {
        let j = lemma_trimmed_end(s.drop_last());
        assert(s.drop_last().take(j) =~= s.take(j));
        assert forall|k: int| j <= k < s.len() implies is_white_space(#[trigger] s[k]) by {
            if k < s.len() - 1 {
                assert(s.drop_last()[k] == s[k]);
            }
        }
        j
    } else {
        assert(s.take(s.len() as int) =~= s);
        s.len() as int
    }
}

/// The white space characters by their code points, and the decimal digits by theirs.
pub proof fn law_character_classes(c: char)
    ensures
        ({
            let n = c as int;
            &&& is_white_space(c) <==> 9 <= n <= 13 || n == 32 || n == 133 || n == 160 || n == 5760
                || 8192 <= n <= 8202 || n == 8232 || n == 8233 || n == 8239 || n == 8287 || n
                == 12288
            &&& is_digit(c) <==> 48 <= n <= 57
        }),
{
}

/// A text written so many times in a row.
pub open spec fn repeated(s: Seq<char>, times: nat) -> Seq<char>
    decreases times,
{
    if times == 0 {
        Seq::empty()
    } else {
        repeated(s, (times - 1) as nat) + s
    }
}

/// Taking a suffix off leaves what does not end with it, and what was taken off is that suffix,
/// some number of times.
pub proof fn law_without_suffixes(s: Seq<char>, suffix: Seq<char>)
    ensures
        suffix.len() > 0 ==> !suffix.is_suffix_of(without_suffixes(s, suffix)),
        exists|n: nat| s == without_suffixes(s, suffix) + #[trigger] repeated(suffix, n),
    decreases s.len(),
{
    let r = without_suffixes(s, suffix);
    if suffix.len() > 0 && suffix.is_suffix_of(s) {
        let before = s.take(s.len() - suffix.len());
        law_without_suffixes(before, suffix);
        let n = choose|n: nat| before == r + #[trigger] repeated(suffix, n);
        assert(s =~= before + suffix);
        assert(s =~= r + repeated(suffix, n + 1));
    } else {
        assert(s =~= r + repeated(suffix, 0));
    }
}

/// A text stands in another if and only if that one is made of it and of something before and
/// after it.
pub proof fn law_contains_text(s: Seq<char>, a: Seq<char>, needle: Seq<char>, b: Seq<char>)
    ensures
        contains_text(a + needle + b, needle),
        contains_text(s, needle) ==> exists|x: Seq<char>, y: Seq<char>| s == #[trigger] (x + needle
            + y),
{
    let t = a + needle + b;
    let at = a.len() as int;
    assert(t.subrange(at, at + needle.len()) =~= needle);
    if contains_text(s, needle) {
        let i = choose|i: int|
            0 <= i <= s.len() - needle.len() && #[trigger] s.subrange(i, i + needle.len())
                == needle;
        let (x, y) = (s.take(i), s.skip(i + needle.len()));
        assert(s =~= x + needle + y);
    }
}

/// Replacing goes character by character: a text is replaced piece by piece, one character by the
/// replacement where it is the one looked for, and by itself otherwise.
pub proof fn law_char_replaced(a: Seq<char>, b: Seq<char>, c: char, from: char, to: Seq<char>)
    ensures
        char_replaced(a + b, from, to) == char_replaced(a, from, to) + char_replaced(b, from, to),
        char_replaced(seq![from], from, to) == to,
        c != from ==> char_replaced(seq![c], from, to) == seq![c],
        char_replaced(Seq::empty(), from, to) == Seq::<char>::empty(),
    decreases b.len(),
{
    reveal_with_fuel(char_replaced, 2);
    assert(seq![from].drop_last() =~= Seq::<char>::empty());
    assert(seq![c].drop_last() =~= Seq::<char>::empty());
    assert(char_replaced(seq![from], from, to) =~= to);
    assert(c != from ==> char_replaced(seq![c], from, to) =~= seq![c]);
    if b.len() > 0 {
        law_char_replaced(a, b.drop_last(), c, from, to);
        assert((a + b).drop_last() =~= a + b.drop_last());
        assert(char_replaced(a + b, from, to) =~= char_replaced(a, from, to) + char_replaced(
            b,
            from,
            to,
        ));
    } else {
        assert(a + b =~= a);
        assert(char_replaced(a, from, to) + char_replaced(b, from, to) =~= char_replaced(
            a,
            from,
            to,
        ));
    }
}

/// Digits count by place: what stands before is worth ten times as much for each digit behind it,
/// and a single digit is worth its distance from zero.
pub proof fn law_digits_value(a: Seq<char>, b: Seq<char>, c: char)
    requires
        is_digit(c),
    ensures
        digits_value(a + b) == digits_value(a) * pow(10, b.len()) + digits_value(b),
        digits_value(seq![c]) == c as int - 48,
        digits_value(Seq::empty()) == 0,
    decreases b.len(),
{
    reveal_with_fuel(digits_value, 2);
    assert(seq![c].drop_last() =~= Seq::<char>::empty());
    reveal(pow);
    if b.len() > 0 {
        let before = b.drop_last();
        law_digits_value(a, before, c);
        assert((a + b).drop_last() =~= a + before);
        let (x, y, p) = (digits_value(a) as int, digits_value(before) as int, pow(10, before.len()));
        assert(pow(10, b.len()) == 10 * p);
        assert(10 * (x * p + y) == x * (10 * p) + 10 * y) by (nonlinear_arith);
        assert(digits_value(a + b) == 10 * digits_value(a + before) + digit_value(b.last()));
        assert(digits_value(b) == 10 * digits_value(before) + digit_value(b.last()));
    } else {
        assert(a + b =~= a);
        vstd::arithmetic::power::lemma_pow0(10);
        assert(digits_value(b) == 0);
        assert(digits_value(a) * 1 == digits_value(a));
    }
}

/// What a text writes as a number: an empty one and one with a character other than a digit write
/// none, a plus sign before it makes no difference, and digits write their value, unless it is too
/// large.
pub proof fn law_parsed_number(s: Seq<char>, max: nat)
    ensures
        parsed_number(Seq::empty(), max) is None,
        s.len() == 0 || s[0] != '+' ==> parsed_number(seq!['+'] + s, max) == parsed_number(s, max),
        s.len() > 0 && s[0] != '+' && (exists|i: int|
            0 <= i < s.len() && !('0' <= #[trigger] s[i] <= '9')) ==> parsed_number(s, max) is None,
        s.len() > 0 && (forall|i: int| 0 <= i < s.len() ==> '0' <= #[trigger] s[i] <= '9')
            ==> parsed_number(s, max) == (if digits_value(s) <= max {
            Some(digits_value(s))
        } else {
            None
        }),
{
    let plus = seq!['+'] + s;
    assert(unsigned_part(plus) =~= s);
    assert(unsigned_part(Seq::<char>::empty()) =~= Seq::<char>::empty());
}

/// Lower and upper case of ASCII letters are each other's inverse and thirty-two apart; every
/// other character stays.
pub proof fn law_ascii_case(c: char)
    ensures
        ({
            let n = c as int;
            &&& ascii_lower(c) as int == (if 65 <= n <= 90 {
                n + 32
            } else {
                n
            })
            &&& ascii_upper(c) as int == (if 97 <= n <= 122 {
                n - 32
            } else {
                n
            })
            &&& 65 <= n <= 90 ==> ascii_upper(ascii_lower(c)) == c
            &&& 97 <= n <= 122 ==> ascii_lower(ascii_upper(c)) == c
        }),
{
}

/// The texts of strings are those of each of them, in place, and there is one where there is one.
pub proof fn law_texts(v: Seq<String>, o: Option<String>)
    ensures
        texts(v).len() == v.len(),
        forall|i: int| 0 <= i < v.len() ==> #[trigger] texts(v)[i] == v[i]@,
        o is Some <==> text_opt(o) is Some,
        o matches Some(s) ==> text_opt(o) == Some(s@),
{
}

} // verus!
