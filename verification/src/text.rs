//! Character-level helpers: comparison, tokenisation and literal parsing.

use vstd::prelude::*;
use vstd::string::{StrSliceExecFns, StringExecFns};

verus! {

/// The characters of `text`, in order.
pub fn chars_of(text: &str) -> (chars: Vec<char>)
    ensures
        chars@ == text@,
{
    broadcast use vstd::string::group_string_axioms;

    let mut chars: Vec<char> = Vec::new();
    for c in it: text.chars()
        invariant
            it.seq() == text@,
            chars@ == it.seq().take(it.index()),
    {
        chars.push(c);
    }
    chars
}

/// The part of `text` from character `from` up to character `to`; `ascii`
/// says that the text is known to hold ASCII only, where the part is found
/// without a walk through the text.
fn part_of(text: &str, ascii: bool, from: usize, to: usize) -> (part: String)
    requires
        ascii ==> text.is_ascii(),
        from <= to <= text@.len(),
    ensures
        part@ == text@.subrange(from as int, to as int),
{
    if ascii {
        text.substring_ascii(from, to).to_owned()
    } else {
        text.substring_char(from, to).to_owned()
    }
}

/// The text made of the characters `from` up to `to` of `text`.
pub fn text_of(text: &str, from: usize, to: usize) -> (part: String)
    requires
        from <= to <= text@.len(),
    ensures
        part@ == text@.subrange(from as int, to as int),
{
    part_of(text, text.is_ascii(), from, to)
}

/// Whether two texts hold the same characters.
pub fn same_text(a: &str, b: &str) -> (same: bool)
    ensures
        same == (a@ == b@),
{
    let x = chars_of(a);
    let y = chars_of(b);
    if x.len() != y.len() {
        return false;
    }
    let mut i: usize = 0;
    while i < x.len()
        invariant
            i <= x@.len(),
            x@ == a@,
            y@ == b@,
            x@.len() == y@.len(),
            x@.take(i as int) == y@.take(i as int),
        decreases x@.len() - i,
    {
        if x[i] != y[i] {
            assert(a@[i as int] != b@[i as int]);
            return false;
        }
        i += 1;
    }
    assert(x@.take(i as int) == x@);
    assert(y@.take(i as int) == y@);
    true
}

/// The character of a decimal digit.
pub open spec fn digit_char(digit: nat) -> char {
    if digit == 0 {
        '0'
    } else if digit == 1 {
        '1'
    } else if digit == 2 {
        '2'
    } else if digit == 3 {
        '3'
    } else if digit == 4 {
        '4'
    } else if digit == 5 {
        '5'
    } else if digit == 6 {
        '6'
    } else if digit == 7 {
        '7'
    } else if digit == 8 {
        '8'
    } else {
        '9'
    }
}

/// The decimal digits of a number, the most significant first, without
/// leading zeros.
pub open spec fn decimal_digits(n: nat) -> Seq<char>
    decreases n,
{
    if n < 10 {
        seq![digit_char(n)]
    } else {
        decimal_digits(n / 10).push(digit_char(n % 10))
    }
}

/// The text of a decimal digit.
fn digit_text(digit: usize) -> (text: &'static str)
    requires
        digit < 10,
    ensures
        text@ == seq![digit_char(digit as nat)],
{
    proof {
        reveal_strlit("0");
        reveal_strlit("1");
        reveal_strlit("2");
        reveal_strlit("3");
        reveal_strlit("4");
        reveal_strlit("5");
        reveal_strlit("6");
        reveal_strlit("7");
        reveal_strlit("8");
        reveal_strlit("9");
    }
    let text = if digit == 0 {
        "0"
    } else if digit == 1 {
        "1"
    } else if digit == 2 {
        "2"
    } else if digit == 3 {
        "3"
    } else if digit == 4 {
        "4"
    } else if digit == 5 {
        "5"
    } else if digit == 6 {
        "6"
    } else if digit == 7 {
        "7"
    } else if digit == 8 {
        "8"
    } else {
        "9"
    };
    assert(text@ =~= seq![digit_char(digit as nat)]);
    text
}

/// Appends the decimal digits of `n` to `text`.
pub fn push_decimal(text: &mut String, n: usize)
    ensures
        final(text)@ == old(text)@ + decimal_digits(n as nat),
    decreases n,
{
    if n >= 10 {
        push_decimal(text, n / 10);
    }
    text.append(digit_text(n % 10));
    assert(text@ =~= old(text)@ + decimal_digits(n as nat));
}

/// Whether `whole` is `head` followed by `tail`.
pub fn is_joined(whole: &str, head: &str, tail: &str) -> (joined: bool)
    ensures
        joined == (whole@ == head@ + tail@),
{
    let w = chars_of(whole);
    let h = chars_of(head);
    let t = chars_of(tail);
    if h.len() > w.len() || w.len() - h.len() != t.len() {
        return false;
    }
    let mut i: usize = 0;
    while i < w.len()
        invariant
            i <= w@.len(),
            w@ == whole@,
            h@ == head@,
            t@ == tail@,
            w@.len() == h@.len() + t@.len(),
            w@.take(i as int) == (h@ + t@).take(i as int),
        decreases w@.len() - i,
    {
        let expected = if i < h.len() {
            h[i]
        } else {
            t[i - h.len()]
        };
        if w[i] != expected {
            assert(whole@[i as int] != (head@ + tail@)[i as int]);
            return false;
        }
        assert(w@.take(i + 1) =~= w@.take(i as int).push(w@[i as int]));
        assert((h@ + t@).take(i + 1) =~= (h@ + t@).take(i as int).push((h@ + t@)[i as int]));
        i += 1;
    }
    assert(w@.take(i as int) == w@);
    assert((h@ + t@).take(i as int) == h@ + t@);
    true
}

/// What an id reference points at: the reference without its leading marker
/// character.
pub open spec fn reference_target(reference: Seq<char>) -> Seq<char> {
    if reference.len() == 0 {
        reference
    } else {
        reference.skip(1)
    }
}

/// Strips the leading marker character of an id reference.
pub fn strip_marker(reference: &str) -> (target: String)
    ensures
        target@ == reference_target(reference@),
{
    let len = reference.unicode_len();
    if len == 0 {
        String::new()
    } else {
        text_of(reference, 1, len)
    }
}

/// Whether `reference`, once its marker is stripped, names `id`.
pub fn refers_to(reference: &str, id: &str) -> (hit: bool)
    ensures
        hit == (reference_target(reference@) == id@),
{
    let target = strip_marker(reference);
    same_text(target.as_str(), id)
}

/// The characters that separate the tokens of a literal list: the Unicode
/// `White_Space` code points.
pub open spec fn is_space(c: char) -> bool {
    let n = c as u32;
    ||| 0x9 <= n <= 0xd
    ||| n == 0x20
    ||| n == 0x85
    ||| n == 0xa0
    ||| n == 0x1680
    ||| 0x2000 <= n <= 0x200a
    ||| n == 0x2028
    ||| n == 0x2029
    ||| n == 0x202f
    ||| n == 0x205f
    ||| n == 0x3000
}

/// Whether `c` separates tokens.
pub fn is_separator(c: char) -> (space: bool)
    ensures
        space == is_space(c),
{
    let n: u32 = c as u32;
    (0x9 <= n && n <= 0xd) || n == 0x20 || n == 0x85 || n == 0xa0 || n == 0x1680 || (0x2000 <= n
        && n <= 0x200a) || n == 0x2028 || n == 0x2029 || n == 0x202f || n == 0x205f || n == 0x3000
}

/// The token list so far, closed off with the token in progress if there is
/// one.
pub open spec fn close_token(done: Seq<Seq<char>>, current: Seq<char>) -> Seq<Seq<char>> {
    if current.len() > 0 {
        done.push(current)
    } else {
        done
    }
}

/// The tokens of `text` from position `from` on, given the tokens already
/// finished and the token in progress.
pub open spec fn tokens_from(
    text: Seq<char>,
    from: int,
    done: Seq<Seq<char>>,
    current: Seq<char>,
) -> Seq<Seq<char>>
    decreases text.len() - from,
{
    if from < 0 || from >= text.len() {
        close_token(done, current)
    } else if is_space(text[from]) {
        tokens_from(text, from + 1, close_token(done, current), Seq::empty())
    } else {
        tokens_from(text, from + 1, done, current.push(text[from]))
    }
}

/// The whitespace-separated tokens of a literal list: its maximal runs of
/// characters that are no separators, in order.
pub open spec fn tokens(text: Seq<char>) -> Seq<Seq<char>> {
    tokens_from(text, 0, Seq::empty(), Seq::empty())
}

/// A token: one character or more, none of them a separator.
pub open spec fn is_word(token: Seq<char>) -> bool {
    token.len() > 0 && forall|i: int| 0 <= i < token.len() ==> !is_space(#[trigger] token[i])
}

/// Tokens found from unfinished words stay words.
pub proof fn lemma_tokens_from_are_words(
    text: Seq<char>,
    from: int,
    done: Seq<Seq<char>>,
    current: Seq<char>,
)
    requires
        0 <= from,
        forall|k: int| 0 <= k < done.len() ==> is_word(#[trigger] done[k]),
        forall|i: int| 0 <= i < current.len() ==> !is_space(#[trigger] current[i]),
    ensures
        forall|k: int|
            0 <= k < tokens_from(text, from, done, current).len() ==> is_word(
                #[trigger] tokens_from(text, from, done, current)[k],
            ),
    decreases text.len() - from,
{
    let closed = close_token(done, current);
    assert forall|k: int| 0 <= k < closed.len() implies is_word(#[trigger] closed[k]) by {
        if k < done.len() {
            assert(closed[k] == done[k]);
        } else {
            assert(closed[k] == current);
        }
    }
    let all = tokens_from(text, from, done, current);
    if from < text.len() {
        if is_space(text[from]) {
            lemma_tokens_from_are_words(text, from + 1, closed, Seq::empty());
            assert(all == tokens_from(text, from + 1, closed, Seq::empty()));
        } else {
            let longer = current.push(text[from]);
            assert forall|i: int| 0 <= i < longer.len() implies !is_space(#[trigger] longer[i]) by {
                if i < current.len() {
                    assert(longer[i] == current[i]);
                }
            }
            lemma_tokens_from_are_words(text, from + 1, done, longer);
            assert(all == tokens_from(text, from + 1, done, longer));
        }
    } else {
        assert(all == closed);
    }
    assert forall|k: int| 0 <= k < all.len() implies is_word(#[trigger] all[k]) by {}
}

/// Every token of a literal list has a character and holds no separator.
pub proof fn lemma_tokens_are_words(text: Seq<char>)
    ensures
        forall|k: int| 0 <= k < tokens(text).len() ==> is_word(#[trigger] tokens(text)[k]),
{
    lemma_tokens_from_are_words(text, 0, Seq::empty(), Seq::empty());
}

/// Splits a literal list into its tokens.
pub fn split_tokens(text: &str) -> (list: Vec<String>)
    ensures
        list@.len() == tokens(text@).len(),
        forall|i: int| 0 <= i < list@.len() ==> (#[trigger] list@[i])@ == tokens(text@)[i],
{
    let chars = chars_of(text);
    let ascii = text.is_ascii();
    let mut list: Vec<String> = Vec::new();
    let ghost mut done: Seq<Seq<char>> = Seq::empty();
    let mut start: usize = 0;
    let mut i: usize = 0;
    assert(chars@.subrange(0, 0) == Seq::<char>::empty());
    while i < chars.len()
        invariant
            chars@ == text@,
            ascii ==> text.is_ascii(),
            start <= i <= chars@.len(),
            list@.len() == done.len(),
            forall|k: int| 0 <= k < list@.len() ==> (#[trigger] list@[k])@ == done[k],
            tokens(text@) == tokens_from(text@, i as int, done, chars@.subrange(start as int, i as int)),
        decreases chars@.len() - i,
    {
        let ghost current = chars@.subrange(start as int, i as int);
        if is_separator(chars[i]) {
            if start < i {
                let token = part_of(text, ascii, start, i);
                list.push(token);
                proof {
                    done = done.push(current);
                }
            }
            start = i + 1;
            assert(chars@.subrange(start as int, start as int) == Seq::<char>::empty());
        } else {
            assert(chars@.subrange(start as int, i + 1) == current.push(chars@[i as int]));
        }
        i += 1;
    }
    if start < i {
        let token = part_of(text, ascii, start, i);
        list.push(token);
    }
    list
}

/// A text as contracts speak of it: the sequence of its characters.
pub type Text = Seq<char>;

/// A type whose values are written as single tokens of a literal list.
pub trait Literal: Sized {
    /// The value that a token stands for, or `None` where the token is no
    /// literal of this type. It is never run: contracts speak of it.
    spec fn value(token: Text) -> Option<Self>;

    /// Reads a token.
    fn parse(token: &str) -> (parsed: Option<Self>)
        ensures
            parsed == Self::value(token@),
    ;
}

/// The value of a decimal digit.
pub open spec fn digit_value(c: char) -> Option<nat> {
    if '0' <= c <= '9' {
        Some((c as u32 - '0' as u32) as nat)
    } else {
        None
    }
}

/// The number written by the digits of `token` from position `from` on,
/// after the digits before them gave `value`; `None` where a character is no
/// digit or the number leaves the range of `usize`.
pub open spec fn digits_from(token: Seq<char>, from: int, value: nat) -> Option<usize>
    decreases token.len() - from,
{
    if from < 0 || from >= token.len() {
        Some(value as usize)
    } else {
        match digit_value(token[from]) {
            None => None,
            Some(digit) => if value * 10 + digit > usize::MAX {
                None
            } else {
                digits_from(token, from + 1, value * 10 + digit)
            },
        }
    }
}

/// The number that an unsigned decimal token stands for: an optional `+`,
/// then one or more digits, within the range of `usize`.
pub open spec fn unsigned_value(token: Seq<char>) -> Option<usize> {
    let first: int = if token.len() > 0 && token[0] == '+' {
        1
    } else {
        0
    };
    if token.len() <= first {
        None
    } else {
        digits_from(token, first, 0)
    }
}

/// Reads an unsigned decimal token.
pub fn parse_unsigned(token: &str) -> (parsed: Option<usize>)
    ensures
        parsed == unsigned_value(token@),
{
    let chars = chars_of(token);
    let first: usize = if chars.len() > 0 && chars[0] == '+' {
        1
    } else {
        0
    };
    if chars.len() <= first {
        return None;
    }
    let mut value: usize = 0;
    let mut i: usize = first;
    while i < chars.len()
        invariant
            chars@ == token@,
            first <= i <= chars@.len(),
            unsigned_value(token@) == digits_from(token@, i as int, value as nat),
        decreases chars@.len() - i,
    {
        let c = chars[i];
        if !('0' <= c && c <= '9') {
            return None;
        }
        let digit: usize = (c as u32 - '0' as u32) as usize;
        if value > (usize::MAX - digit) / 10 {
            return None;
        }
        value = value * 10 + digit;
        i += 1;
    }
    Some(value)
}

impl Literal for usize {
    open spec fn value(token: Seq<char>) -> Option<usize> {
        unsigned_value(token)
    }

    fn parse(token: &str) -> (parsed: Option<usize>) {
        parse_unsigned(token)
    }
}

/// The magnitude written by the digits of `token` from position `from` on,
/// after the digits before them gave `value`; `None` where a character is
/// no digit or the magnitude exceeds 2^63.
pub open spec fn magnitude_from(token: Seq<char>, from: int, value: nat) -> Option<nat>
    decreases token.len() - from,
{
    if from < 0 || from >= token.len() {
        Some(value)
    } else {
        match digit_value(token[from]) {
            None => None,
            Some(digit) => if value * 10 + digit > 0x8000_0000_0000_0000 {
                None
            } else {
                magnitude_from(token, from + 1, value * 10 + digit)
            },
        }
    }
}

/// The number that a signed decimal token stands for: an optional `+` or
/// `-`, then one or more digits, within the range of `i64`.
pub open spec fn signed_value(token: Seq<char>) -> Option<i64> {
    let signed = token.len() > 0 && (token[0] == '+' || token[0] == '-');
    let first: int = if signed {
        1
    } else {
        0
    };
    if token.len() <= first {
        None
    } else {
        match magnitude_from(token, first, 0) {
            None => None,
            Some(magnitude) => if token[0] == '-' {
                Some((-magnitude) as i64)
            } else if magnitude <= i64::MAX {
                Some(magnitude as i64)
            } else {
                None
            },
        }
    }
}

/// Reads a signed decimal token.
#[verifier::loop_isolation(false)]
pub fn parse_signed(token: &str) -> (parsed: Option<i64>)
    ensures
        parsed == signed_value(token@),
{
    let chars = chars_of(token);
    let negative = chars.len() > 0 && chars[0] == '-';
    let first: usize = if chars.len() > 0 && (chars[0] == '+' || chars[0] == '-') {
        1
    } else {
        0
    };
    if chars.len() <= first {
        return None;
    }
    let limit: u64 = 0x8000_0000_0000_0000;
    let mut value: u64 = 0;
    let mut i: usize = first;
    while i < chars.len()
        invariant
            chars@ == token@,
            first <= i <= chars@.len(),
            limit == 0x8000_0000_0000_0000,
            value <= limit,
            magnitude_from(token@, first as int, 0) == magnitude_from(
                token@,
                i as int,
                value as nat,
            ),
        decreases chars@.len() - i,
    {
        let c = chars[i];
        if !('0' <= c && c <= '9') {
            return None;
        }
        let digit: u64 = (c as u32 - '0' as u32) as u64;
        if value > (limit - digit) / 10 {
            return None;
        }
        value = value * 10 + digit;
        i += 1;
    }
    if negative {
        if value == limit {
            Some(i64::MIN)
        } else {
            Some(-(value as i64))
        }
    } else if value <= i64::MAX as u64 {
        Some(value as i64)
    } else {
        None
    }
}

/// Whole numbers are written as signed decimals.
impl Literal for i64 {
    open spec fn value(token: Seq<char>) -> Option<i64> {
        signed_value(token)
    }

    fn parse(token: &str) -> (parsed: Option<i64>) {
        parse_signed(token)
    }
}

/// The values of a literal list: one per token, or `None` where a token is
/// no literal of the type.
pub open spec fn list_value<T: Literal>(text: Seq<char>) -> Option<Seq<T>> {
    let tokens = tokens(text);
    if forall|i: int| 0 <= i < tokens.len() ==> (#[trigger] T::value(tokens[i])) is Some {
        Some(Seq::new(tokens.len(), |i: int| T::value(tokens[i])->0))
    } else {
        None
    }
}

} // verus!
