//! Text helpers: the few operations on strings that the tracker needs and the
//! verifier's library does not describe.

use vstd::prelude::*;
use vstd::string::StringExecFns;

verus! {

/// True where `char::is_whitespace` holds of the character: it has the
/// Unicode property `White_Space`.
pub uninterp spec fn is_whitespace(c: char) -> bool;

/// The text in upper case, as `str::to_uppercase` writes it.
pub uninterp spec fn uppercase_text(text: Seq<char>) -> Seq<char>;

/// `text` without the whitespace at its start.
pub open spec fn trimmed_start(text: Seq<char>) -> Seq<char>
    decreases text.len(),
{
    if text.len() > 0 && is_whitespace(text.first()) {
        trimmed_start(text.drop_first())
    } else {
        text
    }
}

/// `text` without the whitespace at its end.
pub open spec fn trimmed_end(text: Seq<char>) -> Seq<char>
    decreases text.len(),
{
    if text.len() > 0 && is_whitespace(text.last()) {
        trimmed_end(text.drop_last())
    } else {
        text
    }
}

/// `text` without the whitespace at its start and at its end.
pub open spec fn trimmed(text: Seq<char>) -> Seq<char> {
    trimmed_end(trimmed_start(text))
}

/// `char::is_whitespace`: the result is a function of the character alone
/// and is named `is_whitespace`.
#[verifier::external_body]
fn char_is_whitespace(c: char) -> (b: bool)
    ensures
        b == is_whitespace(c),
{
    c.is_whitespace()
}

/// The characters of `text`, in order.
pub fn chars_of(text: &str) -> (chars: Vec<char>)
    ensures
        chars@ == text@,
{
    broadcast use vstd::string::group_string_axioms;

    let mut chars: Vec<char> = Vec::new();
    for c in it: text.chars()
        invariant
            it.seq() == text@,
            chars@ == text@.take(it.index() as int),
    {
        chars.push(c);
        assert(text@.take(it.index() + 1) =~= text@.take(it.index() as int).push(c));
    }
    assert(text@.take(text@.len() as int) =~= text@);
    chars
}

/// The text that holds the characters `chars[from..to]`.
pub(crate) fn text_of(chars: &Vec<char>, from: usize, to: usize) -> (r: String)
    requires
        from <= to <= chars@.len(),
    ensures
        r@ == chars@.subrange(from as int, to as int),
{
    let mut out = String::new();
    let mut i: usize = from;
    while i < to
        invariant
            from <= i <= to <= chars@.len(),
            out@ == chars@.subrange(from as int, i as int),
        decreases to - i,
    {
        push_char(&mut out, chars[i]);
        assert(chars@.subrange(from as int, i + 1) =~= chars@.subrange(from as int, i as int).push(
            chars@[i as int],
        ));
        i = i + 1;
    }
    out
}

/// Trimming the start drops exactly the leading run of whitespace.
proof fn lemma_trimmed_start(text: Seq<char>, n: int)
    requires
        0 <= n <= text.len(),
        forall|k: int| 0 <= k < n ==> is_whitespace(#[trigger] text[k]),
        n == text.len() || !is_whitespace(text[n]),
    ensures
        trimmed_start(text) == text.skip(n),
    decreases n,
{
    if n == 0 {
        assert(text.skip(0) =~= text);
    } else {
        assert(is_whitespace(text[0]));
        let rest = text.drop_first();
        assert forall|k: int| 0 <= k < n - 1 implies is_whitespace(#[trigger] rest[k]) by {
            assert(rest[k] == text[k + 1]);
        }
        lemma_trimmed_start(rest, n - 1);
        assert(rest.skip(n - 1) =~= text.skip(n));
    }
}

/// Trimming the end drops exactly the trailing run of whitespace.
proof fn lemma_trimmed_end(text: Seq<char>, n: int)
    requires
        0 <= n <= text.len(),
        forall|k: int| n <= k < text.len() ==> is_whitespace(#[trigger] text[k]),
        n == 0 || !is_whitespace(text[n - 1]),
    ensures
        trimmed_end(text) == text.take(n),
    decreases text.len() - n,
{
    if n == text.len() {
        assert(text.take(n) =~= text);
    } else {
        assert(is_whitespace(text[text.len() - 1]));
        let rest = text.drop_last();
        lemma_trimmed_end(rest, n);
        assert(rest.take(n) =~= text.take(n));
    }
}

/// `text` without the whitespace at its start and at its end.
pub fn trim(text: &str) -> (r: String)
    ensures
        r@ == trimmed(text@),
{
    let chars = chars_of(text);
    let mut start: usize = 0;
    while start < chars.len() && char_is_whitespace(chars[start])
        invariant
            start <= chars@.len(),
            forall|k: int| 0 <= k < start ==> is_whitespace(#[trigger] chars@[k]),
        decreases chars@.len() - start,
    {
        start = start + 1;
    }
    let mut end: usize = chars.len();
    while end > start && char_is_whitespace(chars[end - 1])
        invariant
            start <= end <= chars@.len(),
            forall|k: int| end <= k < chars@.len() ==> is_whitespace(#[trigger] chars@[k]),
        decreases end,
    {
        end = end - 1;
    }
    proof {
        lemma_trimmed_start(text@, start as int);
        let tail = text@.skip(start as int);
        assert forall|k: int| end - start <= k < tail.len() implies is_whitespace(
            #[trigger] tail[k],
        ) by {
            assert(tail[k] == chars@[k + start]);
        }
        if end > start {
            assert(tail[end - start - 1] == chars@[end - 1]);
        }
        lemma_trimmed_end(tail, end - start);
        assert(tail.take(end - start) =~= chars@.subrange(start as int, end as int));
    }
    text_of(&chars, start, end)
}

/// `str::to_uppercase`: the result is a function of the text alone and is
/// named `uppercase_text`.
#[verifier::external_body]
pub(crate) fn to_uppercase(text: &str) -> (r: String)
    ensures
        r@ == uppercase_text(text@),
{
    text.to_uppercase()
}

/// `String::push`: the character is appended.
#[verifier::external_body]
pub(crate) fn push_char(text: &mut String, c: char)
    ensures
        final(text)@ == old(text)@.push(c),
{
    text.push(c)
}

/// The character that stands for a digit below ten.
pub open spec fn digit_char(d: nat) -> char {
    if d == 0 {
        '0'
    } else if d == 1 {
        '1'
    } else if d == 2 {
        '2'
    } else if d == 3 {
        '3'
    } else if d == 4 {
        '4'
    } else if d == 5 {
        '5'
    } else if d == 6 {
        '6'
    } else if d == 7 {
        '7'
    } else if d == 8 {
        '8'
    } else {
        '9'
    }
}

/// The decimal digits of `n`, most significant first, without leading zeros;
/// a single `0` for zero.
pub open spec fn decimal_text(n: nat) -> Seq<char>
    decreases n,
{
    if n < 10 {
        seq![digit_char(n)]
    } else {
        decimal_text(n / 10).push(digit_char(n % 10))
    }
}

/// The character that stands for a digit below ten.
fn digit(d: u64) -> (c: char)
    requires
        d < 10,
    ensures
        c == digit_char(d as nat),
{
    if d == 0 {
        '0'
    } else if d == 1 {
        '1'
    } else if d == 2 {
        '2'
    } else if d == 3 {
        '3'
    } else if d == 4 {
        '4'
    } else if d == 5 {
        '5'
    } else if d == 6 {
        '6'
    } else if d == 7 {
        '7'
    } else if d == 8 {
        '8'
    } else {
        '9'
    }
}

/// `n` in decimal digits.
pub fn decimal(n: u64) -> (r: String)
    ensures
        r@ == decimal_text(n as nat),
{
    let mut digits: Vec<char> = Vec::new();
    let mut rest: u64 = n;
    while rest >= 10
        invariant
            decimal_text(n as nat) == decimal_text(rest as nat) + digits@,
        decreases rest,
    {
        let ghost before = digits@;
        digits.insert(0, digit(rest % 10));
        proof {
            assert(decimal_text(rest as nat) == decimal_text((rest / 10) as nat).push(
                digit_char((rest % 10) as nat),
            ));
            assert(decimal_text((rest / 10) as nat).push(digit_char((rest % 10) as nat)) + before
                =~= decimal_text((rest / 10) as nat) + digits@);
        }
        rest = rest / 10;
    }
    let mut out = String::new();
    push_char(&mut out, digit(rest));
    let mut i: usize = 0;
    while i < digits.len()
        invariant
            i <= digits.len(),
            out@ == decimal_text(rest as nat) + digits@.take(i as int),
        decreases digits.len() - i,
    {
        push_char(&mut out, digits[i]);
        assert(digits@.take(i + 1) =~= digits@.take(i as int).push(digits@[i as int]));
        i = i + 1;
    }
    assert(digits@.take(digits.len() as int) =~= digits@);
    out
}

/// The decimal digits of `n`, with a minus sign before them where `n` is
/// negative.
pub open spec fn signed_decimal_text(n: int) -> Seq<char> {
    if n < 0 {
        seq!['-'] + decimal_text((-n) as nat)
    } else {
        decimal_text(n as nat)
    }
}

/// `n` in decimal digits, with a minus sign where it is negative.
pub fn signed_decimal(n: i64) -> (r: String)
    ensures
        r@ == signed_decimal_text(n as int),
{
    if n < 0 {
        let magnitude: u64 = (-(n as i128)) as u64;
        let digits = decimal(magnitude);
        let mut out = String::new();
        push_char(&mut out, '-');
        out.append(digits.as_str());
        assert(out@ =~= seq!['-'] + decimal_text((-n) as nat));
        out
    } else {
        decimal(n as u64)
    }
}

/// `text` with every `mark` written twice.
pub open spec fn doubled(text: Seq<char>, mark: char) -> Seq<char>
    decreases text.len(),
{
    if text.len() == 0 {
        Seq::empty()
    } else if text.last() == mark {
        doubled(text.drop_last(), mark).push(mark).push(mark)
    } else {
        doubled(text.drop_last(), mark).push(text.last())
    }
}

/// `text` with every `mark` written twice.
pub fn double_each(text: &str, mark: char) -> (r: String)
    ensures
        r@ == doubled(text@, mark),
{
    let chars = chars_of(text);
    let mut out = String::new();
    let mut i: usize = 0;
    while i < chars.len()
        invariant
            i <= chars@.len(),
            chars@ == text@,
            out@ == doubled(text@.take(i as int), mark),
        decreases chars@.len() - i,
    {
        proof {
            assert(text@.take(i + 1).drop_last() == text@.take(i as int));
            assert(text@.take(i + 1).last() == chars@[i as int]);
        }
        let c = chars[i];
        push_char(&mut out, c);
        if c == mark {
            push_char(&mut out, c);
        }
        i = i + 1;
    }
    assert(text@.take(chars@.len() as int) == text@);
    out
}

/// The two texts, one behind the other.
pub fn join2(a: &str, b: &str) -> (r: String)
    ensures
        r@ == a@ + b@,
{
    let mut out = a.to_owned();
    out.append(b);
    out
}

/// The three texts, one behind the other.
pub fn join3(a: &str, b: &str, c: &str) -> (r: String)
    ensures
        r@ == a@ + b@ + c@,
{
    let mut out = a.to_owned();
    out.append(b);
    out.append(c);
    out
}

/// The four texts, one behind the other.
pub fn join4(a: &str, b: &str, c: &str, d: &str) -> (r: String)
    ensures
        r@ == a@ + b@ + c@ + d@,
{
    let mut out = a.to_owned();
    out.append(b);
    out.append(c);
    out.append(d);
    out
}

} // verus!
