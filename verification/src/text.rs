//! Text helpers shared by the synthesizers: comparison, decimal rendering and
//! parsing of counts.

use vstd::prelude::*;
use vstd::string::*;
use vstd::std_specs::iter::IteratorSpec;
use vstd::utf8::*;

verus! {

/// Tells whether two texts hold the same characters.
pub fn text_eq(a: &str, b: &str) -> (same: bool)
    ensures
        same == (a@ == b@),
{
    let x = a.as_bytes();
    let y = b.as_bytes();
    proof {
        encode_utf8_decode_utf8(a@);
        encode_utf8_decode_utf8(b@);
    }
    if x.len() != y.len() {
        return false;
    }
    let mut i: usize = 0;
    while i < x.len()
        invariant
            i <= x.len(),
            x.len() == y.len(),
            x@ == a.spec_bytes(),
            y@ == b.spec_bytes(),
            forall|k: int| 0 <= k < i ==> x@[k] == y@[k],
        decreases x.len() - i,
    {
        if x[i] != y[i] {
            return false;
        }
        i += 1;
    }
    assert(x@ =~= y@);
    true
}

/// The character that writes the decimal digit `d`.
pub open spec fn digit_char(d: nat) -> char {
    if d == 0 {
        '0'
    } else if d == 1 {
        '1'
    } else if d == 2 {
        '2'
    } else if d == 3 {
        '3'
    } else if d == 4 {
        '4'
    } else if d == 5 {
        '5'
    } else if d == 6 {
        '6'
    } else if d == 7 {
        '7'
    } else if d == 8 {
        '8'
    } else {
        '9'
    }
}

/// The decimal numeral of `n`, without sign or leading zeros.
pub open spec fn decimal(n: nat) -> Seq<char>
    decreases n,
{
    if n < 10 {
        seq![digit_char(n)]
    } else {
        decimal(n / 10).push(digit_char(n % 10))
    }
}

fn digit_text(d: usize) -> (text: &'static str)
    requires
        d < 10,
    ensures
        text@ == seq![digit_char(d as nat)],
{
    proof {
        reveal_strlit("0");
        reveal_strlit("1");
        reveal_strlit("2");
        reveal_strlit("3");
        reveal_strlit("4");
        reveal_strlit("5");
        reveal_strlit("6");
        reveal_strlit("7");
        reveal_strlit("8");
        reveal_strlit("9");
    }
    let text = if d == 0 {
        "0"
    } else if d == 1 {
        "1"
    } else if d == 2 {
        "2"
    } else if d == 3 {
        "3"
    } else if d == 4 {
        "4"
    } else if d == 5 {
        "5"
    } else if d == 6 {
        "6"
    } else if d == 7 {
        "7"
    } else if d == 8 {
        "8"
    } else {
        "9"
    };
    assert(text@ =~= seq![digit_char(d as nat)]);
    text
}

/// Writes `n` as a decimal numeral.
pub fn decimal_text(n: usize) -> (text: String)
    ensures
        text@ == decimal(n as nat),
    decreases n,
{
    if n < 10 {
        String::from_str(digit_text(n))
    } else {
        let mut text = decimal_text(n / 10);
        text.append(digit_text(n % 10));
        assert(text@ =~= decimal(n as nat));
        text
    }
}

/// The value of a decimal digit, if `c` is one.
pub open spec fn digit_value(c: char) -> Option<nat> {
    if '0' <= c <= '9' {
        Some((c as nat - '0' as nat) as nat)
    } else {
        None
    }
}

/// Every character of `s` is a decimal digit.
pub open spec fn all_digits(s: Seq<char>) -> bool {
    forall|i: int| 0 <= i < s.len() ==> (#[trigger] digit_value(s[i])) is Some
}

/// The number that a run of decimal digits writes.
pub open spec fn digits_value(s: Seq<char>) -> nat
    decreases s.len(),
{
    if s.len() == 0 {
        0
    } else {
        digits_value(s.drop_last()) * 10 + match digit_value(s.last()) {
            Some(d) => d,
            None => 0,
        }
    }
}

/// The digits of a count: the text itself, less one leading `+`.
pub open spec fn unsigned_part(s: Seq<char>) -> Seq<char> {
    if s.len() > 0 && s[0] == '+' {
        s.subrange(1, s.len() as int)
    } else {
        s
    }
}

/// The count that a text writes: an optional `+`, then one or more decimal
/// digits whose value fits the machine word. Anything else writes no count.
pub open spec fn parsed_count(s: Seq<char>) -> Option<nat> {
    let digits = unsigned_part(s);
    if digits.len() > 0 && all_digits(digits) && digits_value(digits) <= usize::MAX {
        Some(digits_value(digits))
    } else {
        None
    }
}

proof fn lemma_digits_value_prefix(s: Seq<char>, k: int)
    requires
        0 <= k <= s.len(),
    ensures
        digits_value(s.take(k)) <= digits_value(s),
    decreases s.len() - k,
{
    if k == s.len() {
        assert(s.take(k) =~= s);
    } else {
        lemma_digits_value_prefix(s, k + 1);
        assert(s.take(k + 1).drop_last() =~= s.take(k));
    }
}

/// Reads a count from a text.
pub fn parse_count(s: &str) -> (count: Option<usize>)
    ensures
        match count {
            Some(n) => parsed_count(s@) == Some(n as nat),
            None => parsed_count(s@) is None,
        },
{
    broadcast use is_ascii_spec_bytes;

    if !s.is_ascii() {
        proof {
            let digits = unsigned_part(s@);
            if digits.len() > 0 && all_digits(digits) {
                assert forall|i: int| 0 <= i < s@.len() implies '\0' <= #[trigger] s@[i]
                    <= '\u{7f}' by {
                    if s@[0] == '+' {
                        if i > 0 {
                            assert(digit_value(digits[i - 1]) is Some);
                        }
                    } else {
                        assert(digit_value(digits[i]) is Some);
                    }
                }
                assert(false);
            }
        }
        return None;
    }
    let bytes = s.as_bytes();
    let n = bytes.len();
    assert(bytes@ =~= Seq::new(s@.len(), |i: int| s@.index(i) as u8));
    let start: usize = if n > 0 && bytes[0] == 43u8 {
        1
    } else {
        0
    };
    assert(n > 0 ==> (bytes@[0] == 43u8 <==> s@[0] == '+'));
    let ghost digits = unsigned_part(s@);
    assert(digits =~= s@.subrange(start as int, n as int));
    if start == n {
        return None;
    }
    let mut acc: usize = 0;
    let mut i: usize = start;
    while i < n
        invariant
            start <= i <= n,
            n == s@.len(),
            is_ascii(s),
            bytes@ == Seq::new(s@.len(), |i: int| s@.index(i) as u8),
            digits == s@.subrange(start as int, n as int),
            digits == unsigned_part(s@),
            digits.len() > 0,
            all_digits(digits.take(i - start)),
            acc as nat == digits_value(digits.take(i - start)),
        decreases n - i,
    {
        let b = bytes[i];
        let ghost c = s@[i as int];
        assert(c as u8 == b);
        assert(c == digits[i - start]);
        if b < 48u8 || b > 57u8 {
            assert(digit_value(digits[i - start]) is None);
            return None;
        }
        let d: usize = (b - 48u8) as usize;
        assert(digit_value(c) == Some(d as nat));
        proof {
            assert(digits.take(i - start + 1).drop_last() =~= digits.take(i - start));
            assert(digits.take(i - start + 1).last() == c);
            assert forall|k: int| 0 <= k < i - start + 1 implies (#[trigger] digit_value(
                digits.take(i - start + 1)[k],
            )) is Some by {
                if k < i - start {
                    assert(digit_value(digits.take(i - start)[k]) is Some);
                }
            }
            lemma_digits_value_prefix(digits, i - start + 1);
        }
        if acc > (usize::MAX - d) / 10 {
            assert(digits_value(digits.take(i - start + 1)) == acc * 10 + d);
            assert(acc * 10 + d > usize::MAX);
            return None;
        }
        acc = acc * 10 + d;
        i += 1;
    }
    assert(digits.take(n - start) =~= digits);
    Some(acc)
}

/// The characters of a text.
pub fn chars_of(s: &str) -> (chars: Vec<char>)
    ensures
        chars@ == s@,
{
    broadcast use group_string_axioms;

    let mut chars: Vec<char> = Vec::new();
    let mut it = s.chars();
    loop
        invariant
            chars@ + it.remaining() == s@,
            it.decrease() is Some,
        decreases it.decrease()->0,
    {
        match it.next() {
            Some(c) => {
                chars.push(c);
                assert(chars@ + it.remaining() =~= s@);
            },
            None => {
                assert(chars@ =~= s@);
                return chars;
            },
        }
    }
}

/// A class of characters that is trimmed from the ends of a text.
#[derive(Clone, Copy, Debug, PartialEq, Eq, Structural, Hash)]
pub enum CharClass {
    /// White space.
    Whitespace,
    /// The opening parenthesis.
    OpenParenthesis,
    /// The closing parenthesis.
    CloseParenthesis,
    /// The two angle brackets.
    AngleBracket,
}

/// The character is white space.
pub open spec fn is_whitespace(c: char) -> bool {
    ||| '\u{9}' <= c <= '\u{d}'
    ||| c == ' '
    ||| c == '\u{85}'
    ||| c == '\u{a0}'
    ||| c == '\u{1680}'
    ||| '\u{2000}' <= c <= '\u{200a}'
    ||| c == '\u{2028}'
    ||| c == '\u{2029}'
    ||| c == '\u{202f}'
    ||| c == '\u{205f}'
    ||| c == '\u{3000}'
}

impl CharClass {
    /// The character belongs to the class.
    pub open spec fn holds(self, c: char) -> bool {
        match self {
            CharClass::Whitespace => is_whitespace(c),
            CharClass::OpenParenthesis => c == '(',
            CharClass::CloseParenthesis => c == ')',
            CharClass::AngleBracket => c == '<' || c == '>',
        }
    }

    /// Tells whether the character belongs to the class.
    pub fn test(&self, c: char) -> (yes: bool)
        ensures
            yes == self.holds(c),
    {
        match self {
            CharClass::Whitespace => ('\u{9}' <= c && c <= '\u{d}') || c == ' ' || c == '\u{85}'
                || c == '\u{a0}' || c == '\u{1680}' || ('\u{2000}' <= c && c <= '\u{200a}') || c
                == '\u{2028}' || c == '\u{2029}' || c == '\u{202f}' || c == '\u{205f}' || c
                == '\u{3000}',
            CharClass::OpenParenthesis => c == '(',
            CharClass::CloseParenthesis => c == ')',
            CharClass::AngleBracket => c == '<' || c == '>',
        }
    }
}

/// How many characters at the start of `s` belong to the class.
pub open spec fn leading(s: Seq<char>, class: CharClass) -> nat
    decreases s.len(),
{
    if s.len() > 0 && class.holds(s[0]) {
        1 + leading(s.drop_first(), class)
    } else {
        0
    }
}

/// How many characters at the end of `s` belong to the class.
pub open spec fn trailing(s: Seq<char>, class: CharClass) -> nat
    decreases s.len(),
{
    if s.len() > 0 && class.holds(s.last()) {
        1 + trailing(s.drop_last(), class)
    } else {
        0
    }
}

/// `s` without the characters of the class at its start.
pub open spec fn trim_start(s: Seq<char>, class: CharClass) -> Seq<char> {
    s.skip(leading(s, class) as int)
}

/// `s` without the characters of the class at its end.
pub open spec fn trim_end(s: Seq<char>, class: CharClass) -> Seq<char> {
    s.take(s.len() - trailing(s, class))
}

/// `s` without the characters of the class at its start and at its end.
pub open spec fn trim(s: Seq<char>, class: CharClass) -> Seq<char> {
    trim_end(trim_start(s, class), class)
}

/// The leading run is the longest prefix whose characters all belong to
/// the class.
pub proof fn lemma_leading(s: Seq<char>, class: CharClass, k: int)
    requires
        0 <= k <= s.len(),
        forall|i: int| 0 <= i < k ==> class.holds(#[trigger] s[i]),
        k < s.len() ==> !class.holds(s[k]),
    ensures
        leading(s, class) == k,
    decreases s.len(),
{
    if k > 0 {
        let rest = s.drop_first();
        assert forall|i: int| 0 <= i < k - 1 implies class.holds(#[trigger] rest[i]) by {
            assert(rest[i] == s[i + 1]);
        }
        lemma_leading(rest, class, k - 1);
    }
}

/// The trailing run is the longest suffix whose characters all belong to
/// the class.
pub proof fn lemma_trailing(s: Seq<char>, class: CharClass, k: int)
    requires
        0 <= k <= s.len(),
        forall|i: int| s.len() - k <= i < s.len() ==> class.holds(#[trigger] s[i]),
        k < s.len() ==> !class.holds(s[s.len() - k - 1]),
    ensures
        trailing(s, class) == k,
    decreases s.len(),
{
    if k > 0 {
        let rest = s.drop_last();
        assert forall|i: int| rest.len() - (k - 1) <= i < rest.len() implies class.holds(
            #[trigger] rest[i],
        ) by {
            assert(rest[i] == s[i]);
        }
        lemma_trailing(rest, class, k - 1);
    }
}

/// The position after the leading run of the class within `chars[from..to]`.
pub fn skip_leading(chars: &Vec<char>, from: usize, to: usize, class: CharClass) -> (at: usize)
    requires
        from <= to <= chars.len(),
    ensures
        from <= at <= to,
        at - from == leading(chars@.subrange(from as int, to as int), class),
{
    let ghost window = chars@.subrange(from as int, to as int);
    let mut at: usize = from;
    while at < to && class.test(chars[at])
        invariant
            from <= at <= to <= chars.len(),
            window == chars@.subrange(from as int, to as int),
            forall|i: int| 0 <= i < at - from ==> class.holds(#[trigger] window[i]),
        decreases to - at,
    {
        at += 1;
    }
    proof {
        lemma_leading(window, class, at - from);
    }
    at
}

/// The position before the trailing run of the class within
/// `chars[from..to]`.
pub fn skip_trailing(chars: &Vec<char>, from: usize, to: usize, class: CharClass) -> (at: usize)
    requires
        from <= to <= chars.len(),
    ensures
        from <= at <= to,
        to - at == trailing(chars@.subrange(from as int, to as int), class),
{
    let ghost window = chars@.subrange(from as int, to as int);
    let mut at: usize = to;
    while at > from && class.test(chars[at - 1])
        invariant
            from <= at <= to <= chars.len(),
            window == chars@.subrange(from as int, to as int),
            forall|i: int| at - from <= i < to - from ==> class.holds(#[trigger] window[i]),
        decreases at - from,
    {
        at -= 1;
    }
    proof {
        lemma_trailing(window, class, to - at);
    }
    at
}

/// The bounds of `chars[from..to]` trimmed of the class at both ends.
pub fn trim_bounds(chars: &Vec<char>, from: usize, to: usize, class: CharClass) -> (bounds: (
    usize,
    usize,
))
    requires
        from <= to <= chars.len(),
    ensures
        from <= bounds.0 <= bounds.1 <= to,
        chars@.subrange(bounds.0 as int, bounds.1 as int) == trim(
            chars@.subrange(from as int, to as int),
            class,
        ),
{
    let start = skip_leading(chars, from, to, class);
    let end = skip_trailing(chars, start, to, class);
    proof {
        let window = chars@.subrange(from as int, to as int);
        assert(trim_start(window, class) =~= chars@.subrange(start as int, to as int));
        assert(chars@.subrange(start as int, end as int) =~= trim_end(
            chars@.subrange(start as int, to as int),
            class,
        ));
    }
    (start, end)
}

/// The pieces of `s` between occurrences of `separator`: one more than
/// there are occurrences, some of them perhaps empty.
pub open spec fn split(s: Seq<char>, separator: char) -> Seq<Seq<char>>
    decreases s.len(),
{
    if s.len() == 0 {
        seq![Seq::empty()]
    } else {
        let before = split(s.drop_last(), separator);
        if s.last() == separator {
            before.push(Seq::empty())
        } else {
            before.drop_last().push(before.last().push(s.last()))
        }
    }
}

/// The position of the first `::` in `s`, if there is one.
pub open spec fn path_separator(s: Seq<char>) -> Option<int>
    decreases s.len(),
{
    if s.len() < 2 {
        None
    } else {
        match path_separator(s.drop_last()) {
            Some(i) => Some(i),
            None => if s[s.len() - 2] == ':' && s.last() == ':' {
                Some(s.len() - 2)
            } else {
                None
            },
        }
    }
}

/// A path split at its first `::`: what stands before it, if there is one,
/// and what stands after it; a path without `::` is a bare name.
pub open spec fn split_path(s: Seq<char>) -> (Option<Seq<char>>, Seq<char>) {
    match path_separator(s) {
        Some(i) => (Some(s.take(i)), s.skip(i + 2)),
        None => (None, s),
    }
}

/// Splits a path at its first `::`.
pub fn resolve_path(path: &str) -> (parts: (Option<String>, String))
    ensures
        parts.deep_view() == split_path(path@),
{
    let chars = chars_of(path);
    let n = chars.len();
    if n < 2 {
        return (None, String::from_str(path));
    }
    let mut i: usize = 0;
    while i < n - 1
        invariant
            i <= n - 1,
            2 <= n,
            n == chars.len(),
            chars@ == path@,
            path_separator(chars@.take(i + 1)) is None,
        decreases n - i,
    {
        proof {
            assert(chars@.take(i + 2).drop_last() =~= chars@.take(i + 1));
        }
        if chars[i] == ':' && chars[i + 1] == ':' {
            proof {
                lemma_path_separator_stays(chars@, i as int);
            }
            let head = path.substring_char(0, i);
            let tail = path.substring_char(i + 2, n);
            assert(head@ =~= path@.take(i as int));
            assert(tail@ =~= path@.skip(i + 2));
            return (Some(String::from_str(head)), String::from_str(tail));
        }
        i += 1;
    }
    assert(chars@.take(n as int) =~= chars@);
    (None, String::from_str(path))
}

/// A `::` found at the end of a prefix is still the first in the whole.
proof fn lemma_path_separator_stays(s: Seq<char>, i: int)
    requires
        0 <= i,
        i + 2 <= s.len(),
        s[i] == ':',
        s[i + 1] == ':',
        path_separator(s.take(i + 1)) is None,
    ensures
        path_separator(s) == Some(i),
{
    assert(s.take(i + 2).drop_last() =~= s.take(i + 1));
    assert(path_separator(s.take(i + 2)) == Some(i));
    lemma_path_separator_prefix(s, i + 2, i);
}

proof fn lemma_path_separator_prefix(s: Seq<char>, k: int, i: int)
    requires
        0 <= k <= s.len(),
        path_separator(s.take(k)) == Some(i),
    ensures
        path_separator(s) == Some(i),
    decreases s.len() - k,
{
    if k == s.len() {
        assert(s.take(k) =~= s);
    } else {
        assert(s.take(k + 1).drop_last() =~= s.take(k));
        lemma_path_separator_prefix(s, k + 1, i);
    }
}

} // verus!
