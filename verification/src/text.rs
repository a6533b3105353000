//! The text handling that configuration values need: Unicode white space,
//! trimming, splitting on commas, and reading numbers and flags, each with
//! the meaning that Rust's standard library gives it.

use vstd::prelude::*;

verus! {

/// Characters with the Unicode `White_Space` property (what
/// `char::is_whitespace` accepts).
pub open spec fn spec_is_white_space(c: char) -> bool {
    ||| '\u{9}' <= c <= '\u{d}'
    ||| c == ' '
    ||| c == '\u{85}'
    ||| c == '\u{a0}'
    ||| c == '\u{1680}'
    ||| '\u{2000}' <= c <= '\u{200a}'
    ||| c == '\u{2028}'
    ||| c == '\u{2029}'
    ||| c == '\u{202f}'
    ||| c == '\u{205f}'
    ||| c == '\u{3000}'
}

/// Whether `c` has the Unicode `White_Space` property.
pub fn is_white_space(c: char) -> (b: bool)
    ensures
        b == spec_is_white_space(c),
{
    ('\u{9}' <= c && c <= '\u{d}') || c == ' ' || c == '\u{85}' || c == '\u{a0}' || c
        == '\u{1680}' || ('\u{2000}' <= c && c <= '\u{200a}') || c == '\u{2028}' || c
        == '\u{2029}' || c == '\u{202f}' || c == '\u{205f}' || c == '\u{3000}'
}

/// `s` without its leading white space.
pub open spec fn spec_trim_start(s: Seq<char>) -> Seq<char>
    decreases s.len(),
{
    if s.len() > 0 && spec_is_white_space(s[0]) {
        spec_trim_start(s.drop_first())
    } else {
        s
    }
}

/// `s` without its trailing white space.
pub open spec fn spec_trim_end(s: Seq<char>) -> Seq<char>
    decreases s.len(),
{
    if s.len() > 0 && spec_is_white_space(s.last()) {
        spec_trim_end(s.drop_last())
    } else {
        s
    }
}

/// `s` without leading and trailing white space (what `str::trim` gives).
pub open spec fn spec_trim(s: Seq<char>) -> Seq<char> {
    spec_trim_end(spec_trim_start(s))
}

/// The pieces of `s` between commas (what `str::split(',')` gives): one
/// more piece than there are commas.
pub open spec fn spec_split_commas(s: Seq<char>) -> Seq<Seq<char>>
    decreases s.len(),
{
    if s.len() == 0 {
        seq![Seq::<char>::empty()]
    } else {
        let pieces = spec_split_commas(s.drop_last());
        if s.last() == ',' {
            pieces.push(Seq::<char>::empty())
        } else {
            pieces.update(pieces.len() - 1, pieces.last().push(s.last()))
        }
    }
}

/// The pieces, trimmed, with the empty ones left out.
pub open spec fn spec_trimmed_nonempty(pieces: Seq<Seq<char>>) -> Seq<Seq<char>>
    decreases pieces.len(),
{
    if pieces.len() == 0 {
        Seq::empty()
    } else {
        let rest = spec_trimmed_nonempty(pieces.drop_last());
        let t = spec_trim(pieces.last());
        if t.len() > 0 {
            rest.push(t)
        } else {
            rest
        }
    }
}

/// `s` holds nothing but white space (it trims to nothing).
pub open spec fn spec_is_blank(s: Seq<char>) -> bool {
    forall|i: int| 0 <= i < s.len() ==> spec_is_white_space(#[trigger] s[i])
}

/// Leading white space is all there is exactly when `s` is blank.
proof fn lemma_trim_start_blank(s: Seq<char>)
    ensures
        (spec_trim_start(s).len() == 0) == spec_is_blank(s),
    decreases s.len(),
{
    if s.len() > 0 && spec_is_white_space(s[0]) {
        lemma_trim_start_blank(s.drop_first());
        if spec_is_blank(s.drop_first()) {
            assert forall|i: int| 0 <= i < s.len() implies spec_is_white_space(#[trigger] s[i]) by {
                if i > 0 {
                    assert(s[i] == s.drop_first()[i - 1]);
                }
            }
        }
        if spec_is_blank(s) {
            assert forall|i: int| 0 <= i < s.drop_first().len() implies spec_is_white_space(
                #[trigger] s.drop_first()[i],
            ) by {
                assert(s.drop_first()[i] == s[i + 1]);
            }
        }
    } else if s.len() > 0 {
        assert(!spec_is_white_space(s[0]));
    }
}

/// Trailing white space never reaches a first character that is not
/// white space.
proof fn lemma_trim_end_keeps_first(s: Seq<char>)
    requires
        s.len() > 0,
        !spec_is_white_space(s[0]),
    ensures
        spec_trim_end(s).len() > 0,
    decreases s.len(),
{
    if spec_is_white_space(s.last()) {
        assert(s.len() > 1);
        assert(s.drop_last()[0] == s[0]);
        lemma_trim_end_keeps_first(s.drop_last());
    }
}

/// `s` is blank exactly when trimming it leaves nothing.
pub proof fn lemma_blank_iff_trims_to_nothing(s: Seq<char>)
    ensures
        spec_is_blank(s) == (spec_trim(s).len() == 0),
    decreases s.len(),
{
    lemma_trim_start_blank(s);
    let t = spec_trim_start(s);
    if t.len() > 0 {
        lemma_trim_start_first(s);
        lemma_trim_end_keeps_first(t);
    } else {
        assert(spec_trim_end(t) == t);
    }
}

/// What trimming the start leaves, when anything, starts with a character
/// that is not white space.
proof fn lemma_trim_start_first(s: Seq<char>)
    ensures
        spec_trim_start(s).len() > 0 ==> !spec_is_white_space(spec_trim_start(s)[0]),
    decreases s.len(),
{
    if s.len() > 0 && spec_is_white_space(s[0]) {
        lemma_trim_start_first(s.drop_first());
    }
}

/// Whether `s` holds nothing but white space, that is whether
/// `s.trim().is_empty()`.
pub fn is_blank(s: &str) -> (b: bool)
    ensures
        b == spec_is_blank(s@),
        b == (spec_trim(s@).len() == 0),
{
    proof {
        lemma_blank_iff_trims_to_nothing(s@);
    }
    let n = s.unicode_len();
    let mut i: usize = 0;
    while i < n
        invariant
            n == s@.len(),
            i <= n,
            forall|j: int| 0 <= j < i ==> spec_is_white_space(#[trigger] s@[j]),
            spec_is_blank(s@) == (spec_trim(s@).len() == 0),
        decreases n - i,
    {
        if !is_white_space(s.get_char(i)) {
            return false;
        }
        i = i + 1;
    }
    true
}

/// The characters of `s`.
pub fn chars_of(s: &str) -> (v: Vec<char>)
    ensures
        v@ == s@,
{
    let n = s.unicode_len();
    let mut v: Vec<char> = Vec::new();
    let mut i: usize = 0;
    while i < n
        invariant
            n == s@.len(),
            i <= n,
            v@ == s@.take(i as int),
        decreases n - i,
    {
        v.push(s.get_char(i));
        i = i + 1;
        assert(v@ =~= s@.take(i as int));
    }
    assert(s@.take(n as int) =~= s@);
    v
}

/// The trimmed form of `chars[from..to]`, as positions: `chars[a..b]`.
fn trim_range(chars: &Vec<char>, from: usize, to: usize) -> (r: (usize, usize))
    requires
        from <= to <= chars@.len(),
    ensures
        from <= r.0 <= r.1 <= to,
        chars@.subrange(r.0 as int, r.1 as int) == spec_trim(chars@.subrange(from as int, to as int)),
{
    let mut a = from;
    while a < to && is_white_space(chars[a])
        invariant
            from <= a <= to <= chars@.len(),
            spec_trim_start(chars@.subrange(from as int, to as int)) == spec_trim_start(
                chars@.subrange(a as int, to as int),
            ),
        decreases to - a,
    {
        assert(chars@.subrange(a as int, to as int).drop_first() =~= chars@.subrange(
            a + 1,
            to as int,
        ));
        a = a + 1;
    }
    let mut b = to;
    while b > a && is_white_space(chars[b - 1])
        invariant
            from <= a <= b <= to <= chars@.len(),
            spec_trim_end(chars@.subrange(a as int, to as int)) == spec_trim_end(
                chars@.subrange(a as int, b as int),
            ),
        decreases b - a,
    {
        assert(chars@.subrange(a as int, b as int).drop_last() =~= chars@.subrange(
            a as int,
            b - 1,
        ));
        b = b - 1;
    }
    (a, b)
}

/// The comma-separated items of `s`, trimmed, empty items left out.
pub fn split_trimmed_nonempty(s: &str) -> (items: Vec<String>)
    ensures
        items@.map_values(|t: String| t@) == spec_trimmed_nonempty(spec_split_commas(s@)),
{
    let chars = chars_of(s);
    let n = chars.len();
    let mut items: Vec<String> = Vec::new();
    let ghost mut done: Seq<Seq<char>> = Seq::empty();
    let mut start: usize = 0;
    let mut i: usize = 0;
    assert(chars@.take(0) =~= Seq::<char>::empty());
    assert(done.push(chars@.subrange(0, 0)) =~= seq![Seq::<char>::empty()]);
    while i < n
        invariant
            n == chars@.len(),
            chars@ == s@,
            start <= i <= n,
            spec_split_commas(chars@.take(i as int)) == done.push(
                chars@.subrange(start as int, i as int),
            ),
            items@.map_values(|t: String| t@) == spec_trimmed_nonempty(done),
        decreases n - i,
    {
        let ghost piece = chars@.subrange(start as int, i as int);
        assert(chars@.take(i + 1).drop_last() =~= chars@.take(i as int));
        assert(chars@.take(i + 1).last() == chars@[i as int]);
        if chars[i] == ',' {
            let (a, b) = trim_range(&chars, start, i);
            if a < b {
                items.push(s.substring_char(a, b).to_owned());
            }
            proof {
                assert(done.push(piece).drop_last() =~= done);
                assert(items@.map_values(|t: String| t@) =~= spec_trimmed_nonempty(
                    done.push(piece),
                ));
                done = done.push(piece);
                assert(chars@.subrange((i + 1) as int, (i + 1) as int) =~= Seq::<char>::empty());
            }
            start = i + 1;
        } else {
            assert(chars@.subrange(start as int, i + 1) =~= piece.push(chars@[i as int]));
            assert(done.push(piece).update(done.len() as int, piece.push(chars@[i as int]))
                =~= done.push(chars@.subrange(start as int, i + 1)));
        }
        i = i + 1;
    }
    assert(chars@.take(n as int) =~= chars@);
    let ghost piece = chars@.subrange(start as int, n as int);
    let (a, b) = trim_range(&chars, start, n);
    if a < b {
        items.push(s.substring_char(a, b).to_owned());
    }
    proof {
        assert(done.push(piece).drop_last() =~= done);
        assert(items@.map_values(|t: String| t@) =~= spec_trimmed_nonempty(done.push(piece)));
    }
    items
}

/// Whether `c` is an ASCII decimal digit.
pub open spec fn spec_is_digit(c: char) -> bool {
    '0' <= c <= '9'
}

/// The number that a string of decimal digits spells.
pub open spec fn spec_digits_value(s: Seq<char>) -> nat
    decreases s.len(),
{
    if s.len() == 0 {
        0
    } else {
        spec_digits_value(s.drop_last()) * 10 + ((s.last() as nat) - ('0' as nat)) as nat
    }
}

/// The digits part of a number: without a leading `+`.
pub open spec fn spec_unsigned_digits(s: Seq<char>) -> Seq<char> {
    if s.len() > 0 && s[0] == '+' {
        s.drop_first()
    } else {
        s
    }
}

/// Every character of `d` is a decimal digit.
pub open spec fn spec_all_digits(d: Seq<char>) -> bool {
    forall|i: int| 0 <= i < d.len() ==> spec_is_digit(#[trigger] d[i])
}

/// What `s.parse::<u64>()` gives, successful or not: an optional `+`,
/// then one or more decimal digits whose value fits in a `u64`.
pub open spec fn spec_parse_u64(s: Seq<char>) -> Option<u64> {
    let digits = spec_unsigned_digits(s);
    if digits.len() > 0 && spec_all_digits(digits) && spec_digits_value(digits) <= u64::MAX {
        Some(spec_digits_value(digits) as u64)
    } else {
        None
    }
}

/// A longer run of digits never spells a smaller number.
proof fn lemma_digits_value_grows(s: Seq<char>, i: int)
    requires
        0 <= i <= s.len(),
        forall|j: int| 0 <= j < s.len() ==> spec_is_digit(#[trigger] s[j]),
    ensures
        spec_digits_value(s.take(i)) <= spec_digits_value(s),
    decreases s.len() - i,
{
    if i < s.len() {
        lemma_digits_value_grows(s, i + 1);
        assert(s.take(i + 1).drop_last() =~= s.take(i));
    } else {
        assert(s.take(i) =~= s);
    }
}

/// Reads a `u64` as `str::parse` does.
pub fn parse_u64(s: &str) -> (r: Option<u64>)
    ensures
        r == spec_parse_u64(s@),
{
    let chars = chars_of(s);
    let n = chars.len();
    let start: usize = if n > 0 && chars[0] == '+' {
        1
    } else {
        0
    };
    let ghost digits = spec_unsigned_digits(s@);
    assert(digits =~= chars@.skip(start as int));
    if start == n {
        return None;
    }
    let mut value: u64 = 0;
    let mut i: usize = start;
    while i < n
        invariant
            n == chars@.len(),
            chars@ == s@,
            start <= i <= n,
            digits == chars@.skip(start as int),
            digits == spec_unsigned_digits(s@),
            forall|j: int| 0 <= j < i - start ==> spec_is_digit(#[trigger] digits[j]),
            value == spec_digits_value(digits.take(i - start)),
        decreases n - i,
    {
        let c = chars[i];
        assert(digits[i - start] == c);
        if !('0' <= c && c <= '9') {
            assert(!spec_is_digit(digits[i - start]));
            return None;
        }
        let d = (c as u32 - '0' as u32) as u64;
        let ghost k = i - start + 1;
        assert(digits.take(k).drop_last() =~= digits.take(i - start));
        assert(digits.take(k).last() == c);
        assert(spec_digits_value(digits.take(k)) == value * 10 + d);
        match value.checked_mul(10) {
            None => {
                proof {
                    lemma_overflow_rejects(digits, k);
                }
                return None;
            },
            Some(v10) => match v10.checked_add(d) {
                None => {
                    proof {
                        lemma_overflow_rejects(digits, k);
                    }
                    return None;
                },
                Some(v) => {
                    value = v;
                },
            },
        }
        i = i + 1;
    }
    assert(digits.take(n - start) =~= digits);
    Some(value)
}

/// When a prefix of the digits already spells more than `u64::MAX`, no
/// `u64` is read.
proof fn lemma_overflow_rejects(digits: Seq<char>, k: int)
    requires
        0 <= k <= digits.len(),
        spec_digits_value(digits.take(k)) > u64::MAX,
    ensures
        !(spec_all_digits(digits) && spec_digits_value(digits) <= u64::MAX),
{
    if spec_all_digits(digits) {
        lemma_digits_value_grows(digits, k);
    }
}

/// What `s.parse::<bool>()` gives: `true` and `false` only.
pub open spec fn spec_parse_bool(s: Seq<char>) -> Option<bool> {
    if s == "true"@ {
        Some(true)
    } else if s == "false"@ {
        Some(false)
    } else {
        None
    }
}

/// Reads a `bool` as `str::parse` does.
pub fn parse_bool(s: &str) -> (r: Option<bool>)
    ensures
        r == spec_parse_bool(s@),
{
    let owned = s.to_owned();
    if owned == "true".to_owned() {
        Some(true)
    } else if owned == "false".to_owned() {
        Some(false)
    } else {
        None
    }
}

} // verus!
