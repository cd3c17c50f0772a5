//! Strings as sequences of characters: the conversions to and from
//! `String`, searching and replacing, lengths in UTF-8 and prefixes that fit
//! a byte budget, and numerals written and read.

use vstd::prelude::*;
use vstd::utf8::{char_is_scalar, encode_scalar, encode_utf8};

verus! {

/// Appends one character with `String::push`, which adds the given
/// character to the end of the string and changes nothing else.
#[verifier::external_body]
fn push_char(s: &mut String, c: char)
    ensures
        final(s)@ == old(s)@.push(c),
{
    s.push(c)
}

/// The characters of `s`, in order.
pub fn chars_of(s: &str) -> (out: Vec<char>)
    ensures
        out@ == s@,
{
    let mut out: Vec<char> = Vec::new();
    for c in it: s.chars()
        invariant
            out@ == it.seq().take(it.index()),
    {
        out.push(c);
    }
    out
}

/// The string whose characters are `chars`, in order.
pub fn string_of(chars: &Vec<char>) -> (s: String)
    ensures
        s@ == chars@,
{
    let mut s = String::new();
    let mut i: usize = 0;
    while i < chars.len()
        invariant
            i <= chars.len(),
            s@ == chars@.take(i as int),
        decreases chars.len() - i,
    {
        push_char(&mut s, chars[i]);
        i = i + 1;
    }
    s
}

/// The text of an optional string.
pub open spec fn text_of(s: Option<String>) -> Option<Seq<char>> {
    match s {
        Some(t) => Some(t@),
        None => None,
    }
}

/// Appends every character of `tail` to `out`.
pub fn push_all(out: &mut Vec<char>, tail: &Vec<char>)
    ensures
        final(out)@ == old(out)@ + tail@,
{
    let mut i: usize = 0;
    while i < tail.len()
        invariant
            i <= tail.len(),
            out@ == old(out)@ + tail@.take(i as int),
        decreases tail.len() - i,
    {
        out.push(tail[i]);
        i = i + 1;
    }
}

/// A copy of `chars`.
pub fn copy_chars(chars: &Vec<char>) -> (out: Vec<char>)
    ensures
        out@ == chars@,
{
    let mut out: Vec<char> = Vec::new();
    push_all(&mut out, chars);
    out
}

/// The characters of `chars` from position `from` up to, not including, `to`.
pub fn slice_chars(chars: &Vec<char>, from: usize, to: usize) -> (out: Vec<char>)
    requires
        from <= to <= chars.len(),
    ensures
        out@ == chars@.subrange(from as int, to as int),
{
    let mut out: Vec<char> = Vec::new();
    let mut i: usize = from;
    while i < to
        invariant
            from <= i <= to <= chars.len(),
            out@ == chars@.subrange(from as int, i as int),
        decreases to - i,
    {
        out.push(chars[i]);
        i = i + 1;
    }
    out
}

/// Whether two character vectors hold the same text.
pub fn same_chars(a: &Vec<char>, b: &Vec<char>) -> (same: bool)
    ensures
        same == (a@ == b@),
{
    if a.len() != b.len() {
        return false;
    }
    let mut i: usize = 0;
    while i < a.len()
        invariant
            i <= a.len(),
            a.len() == b.len(),
            a@.take(i as int) == b@.take(i as int),
        decreases a.len() - i,
    {
        if a[i] != b[i] {
            return false;
        }
        proof {
            assert(a@.take(i + 1) == a@.take(i as int).push(a@[i as int]));
            assert(b@.take(i + 1) == b@.take(i as int).push(b@[i as int]));
        }
        i = i + 1;
    }
    proof {
        assert(a@.take(a.len() as int) == a@);
        assert(b@.take(b.len() as int) == b@);
    }
    true
}

/// Whether `text` has `pattern` at position `at`.
pub open spec fn occurs_at(text: Seq<char>, pattern: Seq<char>, at: int) -> bool {
    0 <= at && at + pattern.len() <= text.len() && text.subrange(at, at + pattern.len())
        == pattern
}

/// Whether `text` has `pattern` at position `at`.
pub fn has_at(text: &Vec<char>, pattern: &Vec<char>, at: usize) -> (found: bool)
    ensures
        found == occurs_at(text@, pattern@, at as int),
{
    if at > text.len() || pattern.len() > text.len() - at {
        return false;
    }
    let mut k: usize = 0;
    while k < pattern.len()
        invariant
            k <= pattern.len(),
            at + pattern.len() <= text.len(),
            text@.subrange(at as int, at + k) == pattern@.take(k as int),
        decreases pattern.len() - k,
    {
        if text[at + k] != pattern[k] {
            proof {
                assert(text@.subrange(at as int, at + pattern.len())[k as int] == text@[at + k]);
            }
            return false;
        }
        proof {
            assert(text@.subrange(at as int, at + k + 1) == text@.subrange(
                at as int,
                at + k,
            ).push(text@[at + k]));
            assert(pattern@.take(k + 1) == pattern@.take(k as int).push(pattern@[k as int]));
        }
        k = k + 1;
    }
    proof {
        assert(pattern@.take(pattern.len() as int) == pattern@);
    }
    true
}

/// Whether `pattern` occurs somewhere in `text`.
pub open spec fn contains_text(text: Seq<char>, pattern: Seq<char>) -> bool {
    exists|at: int| occurs_at(text, pattern, at)
}

/// Whether `pattern` occurs somewhere in `text`.
pub fn contains_chars(text: &Vec<char>, pattern: &Vec<char>) -> (found: bool)
    ensures
        found == contains_text(text@, pattern@),
{
    let mut at: usize = 0;
    while at < text.len()
        invariant
            at <= text.len(),
            forall|j: int| 0 <= j < at ==> !occurs_at(text@, pattern@, j),
        decreases text.len() - at,
    {
        if has_at(text, pattern, at) {
            return true;
        }
        at = at + 1;
    }
    has_at(text, pattern, at)
}

/// `text` with every occurrence of `pattern` replaced by `with`, reading
/// from the left; an occurrence that overlaps an earlier one does not
/// count. An empty pattern occurs nowhere.
pub open spec fn replaced(text: Seq<char>, pattern: Seq<char>, with: Seq<char>) -> Seq<char>
    decreases text.len(),
{
    if pattern.len() == 0 || text.len() == 0 {
        text
    } else if occurs_at(text, pattern, 0) {
        with + replaced(text.skip(pattern.len() as int), pattern, with)
    } else {
        seq![text[0]] + replaced(text.drop_first(), pattern, with)
    }
}

/// `text` with every occurrence of `pattern` replaced by `with`.
pub fn replace_all(text: &Vec<char>, pattern: &Vec<char>, with: &Vec<char>) -> (out: Vec<char>)
    ensures
        out@ == replaced(text@, pattern@, with@),
{
    if pattern.len() == 0 {
        return copy_chars(text);
    }
    let mut out: Vec<char> = Vec::new();
    let mut i: usize = 0;
    proof {
        assert(text@.skip(0) == text@);
    }
    while i < text.len()
        invariant
            pattern.len() > 0,
            i <= text.len(),
            replaced(text@, pattern@, with@) == out@ + replaced(
                text@.skip(i as int),
                pattern@,
                with@,
            ),
        decreases text.len() - i,
    {
        let ghost rest = text@.skip(i as int);
        let ghost done = out@;
        proof {
            assert(occurs_at(rest, pattern@, 0) == occurs_at(text@, pattern@, i as int)) by {
                if i + pattern.len() <= text.len() {
                    assert(rest.subrange(0, pattern.len() as int) == text@.subrange(
                        i as int,
                        i + pattern.len(),
                    ));
                }
            }
        }
        if has_at(text, pattern, i) {
            push_all(&mut out, with);
            proof {
                assert(rest.skip(pattern.len() as int) == text@.skip(i + pattern.len()));
                assert(done + (with@ + replaced(rest.skip(pattern.len() as int), pattern@, with@))
                    == (done + with@) + replaced(rest.skip(pattern.len() as int), pattern@, with@));
            }
            i = i + pattern.len();
        } else {
            out.push(text[i]);
            proof {
                assert(rest.drop_first() == text@.skip(i + 1));
                assert(done + (seq![text@[i as int]] + replaced(rest.drop_first(), pattern@, with@))
                    == done.push(text@[i as int]) + replaced(rest.drop_first(), pattern@, with@));
            }
            i = i + 1;
        }
    }
    proof {
        assert(text@.skip(text.len() as int).len() == 0);
        assert(out@ + text@.skip(text.len() as int) == out@);
    }
    out
}

/// `text` with every `from` replaced by `to`.
pub open spec fn with_char_replaced(text: Seq<char>, from: char, to: char) -> Seq<char> {
    text.map_values(|c: char| if c == from { to } else { c })
}

/// `text` with every `from` replaced by `to`.
pub fn replace_char(text: &Vec<char>, from: char, to: char) -> (out: Vec<char>)
    ensures
        out@ == with_char_replaced(text@, from, to),
{
    let mut out: Vec<char> = Vec::new();
    let mut i: usize = 0;
    while i < text.len()
        invariant
            i <= text.len(),
            out@ == with_char_replaced(text@.take(i as int), from, to),
        decreases text.len() - i,
    {
        let c: char = text[i];
        proof {
            assert(text@.take(i + 1) == text@.take(i as int).push(c));
        }
        if c == from {
            out.push(to);
        } else {
            out.push(c);
        }
        i = i + 1;
    }
    proof {
        assert(text@.take(text.len() as int) == text@);
    }
    out
}

/// `s` in upper case, as `str::to_uppercase` of the standard library gives
/// it: every character replaced by its upper-case form in Unicode, which
/// may be more than one character.
pub uninterp spec fn uppercased(s: Seq<char>) -> Seq<char>;

/// `s` in lower case, as `str::to_lowercase` of the standard library gives
/// it: every character replaced by its lower-case form in Unicode.
pub uninterp spec fn lowercased(s: Seq<char>) -> Seq<char>;

/// `str::to_uppercase`: the text in upper case.
#[verifier::external_body]
pub(crate) fn to_upper(s: &str) -> (out: String)
    ensures
        out@ == uppercased(s@),
{
    s.to_uppercase()
}

/// `str::to_lowercase`: the text in lower case.
#[verifier::external_body]
pub(crate) fn to_lower(s: &str) -> (out: String)
    ensures
        out@ == lowercased(s@),
{
    s.to_lowercase()
}

/// The number of bytes that `c` takes in UTF-8.
pub open spec fn utf8_width(c: char) -> nat {
    if (c as u32) < 0x80 {
        1
    } else if (c as u32) < 0x800 {
        2
    } else if (c as u32) < 0x10000 {
        3
    } else {
        4
    }
}

/// The number of bytes that `c` takes in UTF-8.
pub fn width_of(c: char) -> (w: usize)
    ensures
        w == utf8_width(c),
        1 <= w <= 4,
{
    let code: u32 = c as u32;
    if code < 0x80 {
        1
    } else if code < 0x800 {
        2
    } else if code < 0x10000 {
        3
    } else {
        4
    }
}

/// The number of bytes that `s` takes in UTF-8: the sum of the widths of
/// its characters.
pub open spec fn utf8_len(s: Seq<char>) -> nat
    decreases s.len(),
{
    if s.len() == 0 {
        0
    } else {
        utf8_len(s.drop_last()) + utf8_width(s.last())
    }
}

/// The UTF-8 length of a concatenation is the sum of the lengths.
pub proof fn lemma_utf8_len_concat(a: Seq<char>, b: Seq<char>)
    ensures
        utf8_len(a + b) == utf8_len(a) + utf8_len(b),
    decreases b.len(),
{
    if b.len() == 0 {
        assert(a + b == a);
    } else {
        assert((a + b).drop_last() == a + b.drop_last());
        lemma_utf8_len_concat(a, b.drop_last());
    }
}

/// A text of one character takes as many bytes as the character.
proof fn lemma_utf8_len_single(c: char)
    ensures
        utf8_len(seq![c]) == utf8_width(c),
{
    reveal_with_fuel(utf8_len, 2);
    assert(seq![c].drop_last().len() == 0);
}

/// A prefix takes no more bytes than the whole.
pub proof fn lemma_utf8_len_prefix(s: Seq<char>, n: int)
    requires
        0 <= n <= s.len(),
    ensures
        utf8_len(s.take(n)) <= utf8_len(s),
        utf8_len(s) == utf8_len(s.take(n)) + utf8_len(s.skip(n)),
{
    assert(s == s.take(n) + s.skip(n));
    lemma_utf8_len_concat(s.take(n), s.skip(n));
}

/// The sum of the widths is the length of the UTF-8 encoding.
pub proof fn lemma_utf8_len_is_encoded_len(s: Seq<char>)
    ensures
        utf8_len(s) == encode_utf8(s).len(),
    decreases s.len(),
{
    if s.len() > 0 {
        let head = seq![s[0]];
        let rest = s.drop_first();
        lemma_utf8_len_is_encoded_len(rest);
        lemma_utf8_len_single(s[0]);
        assert(s == head + rest);
        lemma_utf8_len_concat(head, rest);
        char_is_scalar(s[0]);
        assert(encode_scalar(s[0] as u32).len() == utf8_width(s[0]));
    }
}

/// The number of bytes that `s` takes in UTF-8.
pub fn byte_length(s: &Vec<char>) -> (n: u128)
    ensures
        n == utf8_len(s@),
{
    let mut n: u128 = 0;
    let mut i: usize = 0;
    while i < s.len()
        invariant
            i <= s.len(),
            n == utf8_len(s@.take(i as int)),
            n <= 4 * i,
        decreases s.len() - i,
    {
        let w: usize = width_of(s[i]);
        proof {
            assert(s@.take(i + 1).drop_last() == s@.take(i as int));
        }
        n = n + (w as u128);
        i = i + 1;
    }
    proof {
        assert(s@.take(s.len() as int) == s@);
    }
    n
}

/// Whether `s` takes more than `limit` bytes in UTF-8.
pub fn exceeds_bytes(s: &Vec<char>, limit: usize) -> (over: bool)
    ensures
        over == (utf8_len(s@) > limit),
{
    let mut used: usize = 0;
    let mut i: usize = 0;
    while i < s.len()
        invariant
            i <= s.len(),
            used <= limit,
            used == utf8_len(s@.take(i as int)),
        decreases s.len() - i,
    {
        let w: usize = width_of(s[i]);
        proof {
            assert(s@.take(i + 1).drop_last() == s@.take(i as int));
            lemma_utf8_len_prefix(s@, i + 1);
        }
        if w > limit - used {
            return true;
        }
        used = used + w;
        i = i + 1;
    }
    proof {
        assert(s@.take(s.len() as int) == s@);
    }
    false
}

/// How many leading characters of `s` fit together in `limit` bytes.
pub open spec fn fit_count(s: Seq<char>, limit: nat) -> nat
    decreases s.len(),
{
    if s.len() == 0 || utf8_width(s[0]) > limit {
        0
    } else {
        1 + fit_count(s.drop_first(), (limit - utf8_width(s[0])) as nat)
    }
}

/// The longest prefix of `s` that takes at most `limit` bytes in UTF-8. No
/// character is cut: the prefix ends between two characters.
pub open spec fn fit_prefix(s: Seq<char>, limit: nat) -> Seq<char> {
    s.take(fit_count(s, limit) as int)
}

/// What makes `fit_prefix` the longest prefix within the limit: it fits, and
/// either it is all of `s` or one more character would not fit.
pub proof fn lemma_fit_prefix(s: Seq<char>, limit: nat)
    ensures
        fit_count(s, limit) <= s.len(),
        utf8_len(fit_prefix(s, limit)) <= limit,
        utf8_len(s) <= limit ==> fit_prefix(s, limit) == s,
        fit_count(s, limit) < s.len() ==> utf8_len(s.take(fit_count(s, limit) as int + 1)) > limit,
    decreases s.len(),
{
    if s.len() == 0 {
        assert(s.take(0) == s);
    } else if utf8_width(s[0]) > limit {
        assert(s.take(0).len() == 0);
        assert(s.take(1) == seq![s[0]]);
        lemma_utf8_len_single(s[0]);
        lemma_utf8_len_prefix(s, 1);
    } else {
        let rest = s.drop_first();
        let left = (limit - utf8_width(s[0])) as nat;
        let n = fit_count(rest, left) as int;
        lemma_fit_prefix(rest, left);
        let head = seq![s[0]];
        lemma_utf8_len_single(s[0]);
        assert(s.take(n + 1) == head + rest.take(n));
        lemma_utf8_len_concat(head, rest.take(n));
        assert(s == head + rest);
        lemma_utf8_len_concat(head, rest);
        if utf8_len(s) <= limit {
            assert(rest.take(n) == rest);
            assert(s.take(n + 1) == s);
        }
        if n < rest.len() {
            assert(s.take(n + 2) == head + rest.take(n + 1));
            lemma_utf8_len_concat(head, rest.take(n + 1));
        }
    }
}

/// The prefix count seen from the end: it grows by one for each further
/// character that still fits.
proof fn lemma_fit_count_step(s: Seq<char>, limit: nat, n: int)
    requires
        0 <= n <= s.len(),
        utf8_len(s.take(n)) <= limit,
        n == s.len() || utf8_len(s.take(n + 1)) > limit,
    ensures
        fit_count(s, limit) == n,
    decreases s.len(),
{
    if s.len() == 0 {
    } else {
        let head = seq![s[0]];
        let rest = s.drop_first();
        lemma_utf8_len_single(s[0]);
        if n == 0 {
            assert(s.take(1) == head);
        } else {
            assert(s.take(n) == head + rest.take(n - 1));
            lemma_utf8_len_concat(head, rest.take(n - 1));
            let left = (limit - utf8_width(s[0])) as nat;
            if n < s.len() {
                assert(s.take(n + 1) == head + rest.take(n));
                lemma_utf8_len_concat(head, rest.take(n));
            }
            lemma_fit_count_step(rest, left, n - 1);
        }
    }
}

/// Cuts `s` down to its longest prefix of at most `limit` bytes.
pub fn truncate_to_bytes(s: &mut Vec<char>, limit: usize)
    ensures
        final(s)@ == fit_prefix(old(s)@, limit as nat),
{
    let mut used: usize = 0;
    let mut i: usize = 0;
    while i < s.len()
        invariant
            s@ == old(s)@,
            i <= s.len(),
            used <= limit,
            used == utf8_len(s@.take(i as int)),
        decreases s.len() - i,
    {
        let w: usize = width_of(s[i]);
        proof {
            assert(s@.take(i + 1).drop_last() == s@.take(i as int));
        }
        if w > limit - used {
            proof {
                lemma_fit_count_step(s@, limit as nat, i as int);
            }
            s.truncate(i);
            return;
        }
        used = used + w;
        i = i + 1;
    }
    proof {
        lemma_fit_count_step(s@, limit as nat, i as int);
        assert(s@.take(s.len() as int) == s@);
    }
}

/// The decimal digit for `d`, which is below ten.
pub open spec fn digit_char(d: nat) -> char {
    (('0' as u8) + (d as u8)) as char
}

/// The decimal numeral of `n`, without sign or leading zeros; zero is "0".
pub open spec fn decimal(n: nat) -> Seq<char>
    decreases n,
{
    if n < 10 {
        seq![digit_char(n)]
    } else {
        decimal(n / 10).push(digit_char(n % 10))
    }
}

/// `count` zeros.
pub open spec fn zeros(count: nat) -> Seq<char> {
    Seq::new(count, |i: int| '0')
}

/// The decimal numeral of `n`, with zeros in front up to `width` characters;
/// a longer numeral is left as it is.
pub open spec fn decimal_padded(n: nat, width: nat) -> Seq<char> {
    if decimal(n).len() < width {
        zeros((width - decimal(n).len()) as nat) + decimal(n)
    } else {
        decimal(n)
    }
}

/// The octal numeral of `n`, without sign or leading zeros; zero is "0".
pub open spec fn octal(n: nat) -> Seq<char>
    decreases n,
{
    if n < 8 {
        seq![digit_char(n)]
    } else {
        octal(n / 8).push(digit_char(n % 8))
    }
}

/// `true` or `false`, written out.
pub open spec fn truth(b: bool) -> Seq<char> {
    if b {
        "true"@
    } else {
        "false"@
    }
}

fn digit_of(d: u128) -> (c: char)
    requires
        d < 10,
    ensures
        c == digit_char(d as nat),
{
    let b: u8 = 48 + (d as u8);
    b as char
}

/// The decimal numeral of `n`.
pub fn decimal_chars(n: u128) -> (out: Vec<char>)
    ensures
        out@ == decimal(n as nat),
{
    let mut rev: Vec<char> = Vec::new();
    let mut rest: u128 = n;
    while rest >= 10
        invariant
            decimal(n as nat) == decimal(rest as nat) + rev@.reverse(),
        decreases rest,
    {
        let c: char = digit_of(rest % 10);
        proof {
            assert(rev@.push(c).reverse() == seq![c] + rev@.reverse());
            assert(decimal(rest as nat) == decimal((rest / 10) as nat).push(c));
            assert(decimal((rest / 10) as nat).push(c) + rev@.reverse() == decimal(
                (rest / 10) as nat,
            ) + (seq![c] + rev@.reverse()));
        }
        rev.push(c);
        rest = rest / 10;
    }
    let c: char = digit_of(rest);
    proof {
        assert(rev@.push(c).reverse() == seq![c] + rev@.reverse());
    }
    rev.push(c);
    let mut out: Vec<char> = Vec::new();
    let mut k: usize = 0;
    while k < rev.len()
        invariant
            k <= rev.len(),
            out@ == rev@.reverse().take(k as int),
        decreases rev.len() - k,
    {
        out.push(rev[rev.len() - 1 - k]);
        proof {
            assert(rev@.reverse().take(k + 1) == rev@.reverse().take(k as int).push(
                rev@.reverse()[k as int],
            ));
        }
        k = k + 1;
    }
    proof {
        assert(rev@.reverse().take(rev.len() as int) == rev@.reverse());
    }
    out
}

/// The decimal numeral of `n`, with zeros in front up to `width` characters.
pub fn decimal_padded_chars(n: u128, width: usize) -> (out: Vec<char>)
    ensures
        out@ == decimal_padded(n as nat, width as nat),
{
    let digits = decimal_chars(n);
    let mut out: Vec<char> = Vec::new();
    if digits.len() < width {
        let missing: usize = width - digits.len();
        let mut k: usize = 0;
        while k < missing
            invariant
                k <= missing,
                out@ == zeros(k as nat),
            decreases missing - k,
        {
            out.push('0');
            k = k + 1;
        }
    }
    push_all(&mut out, &digits);
    out
}

/// The octal numeral of `n`.
pub fn octal_chars(n: u128) -> (out: Vec<char>)
    ensures
        out@ == octal(n as nat),
{
    let mut rev: Vec<char> = Vec::new();
    let mut rest: u128 = n;
    while rest >= 8
        invariant
            octal(n as nat) == octal(rest as nat) + rev@.reverse(),
        decreases rest,
    {
        let c: char = digit_of(rest % 8);
        proof {
            assert(rev@.push(c).reverse() == seq![c] + rev@.reverse());
            assert(octal(rest as nat) == octal((rest / 8) as nat).push(c));
            assert(octal((rest / 8) as nat).push(c) + rev@.reverse() == octal((rest / 8) as nat)
                + (seq![c] + rev@.reverse()));
        }
        rev.push(c);
        rest = rest / 8;
    }
    let c: char = digit_of(rest);
    proof {
        assert(rev@.push(c).reverse() == seq![c] + rev@.reverse());
    }
    rev.push(c);
    let mut out: Vec<char> = Vec::new();
    let mut k: usize = 0;
    while k < rev.len()
        invariant
            k <= rev.len(),
            out@ == rev@.reverse().take(k as int),
        decreases rev.len() - k,
    {
        out.push(rev[rev.len() - 1 - k]);
        proof {
            assert(rev@.reverse().take(k + 1) == rev@.reverse().take(k as int).push(
                rev@.reverse()[k as int],
            ));
        }
        k = k + 1;
    }
    proof {
        assert(rev@.reverse().take(rev.len() as int) == rev@.reverse());
    }
    out
}

/// `true` or `false`, written out.
pub fn truth_chars(b: bool) -> (out: Vec<char>)
    ensures
        out@ == truth(b),
{
    if b {
        chars_of("true")
    } else {
        chars_of("false")
    }
}

/// Whether `c` is one of the ten ASCII digits.
pub open spec fn is_digit(c: char) -> bool {
    '0' <= c && c <= '9'
}

/// The number that a text of ASCII digits writes in base ten.
pub open spec fn decimal_value(s: Seq<char>) -> nat
    decreases s.len(),
{
    if s.len() == 0 {
        0
    } else {
        decimal_value(s.drop_last()) * 10 + ((s.last() as u32) - ('0' as u32)) as nat
    }
}

/// Whether `s` is a numeral: not empty, ASCII digits only.
pub open spec fn is_numeral(s: Seq<char>) -> bool {
    s.len() > 0 && forall|i: int| 0 <= i < s.len() ==> is_digit(#[trigger] s[i])
}

/// `s` without a plus sign in front, if it has one.
pub open spec fn unsigned_part(s: Seq<char>) -> Seq<char> {
    if s.len() > 0 && s[0] == '+' {
        s.drop_first()
    } else {
        s
    }
}

/// The number that `s` writes, if `s` is a numeral, with or without a plus
/// sign in front, and the number fits in 32 bits. Anything else in `s`, be
/// it a space, a minus sign or a digit of another script, makes it no
/// number.
pub open spec fn parsed_u32(s: Seq<char>) -> Option<u32> {
    if is_numeral(unsigned_part(s)) && decimal_value(unsigned_part(s)) <= u32::MAX {
        Some(decimal_value(unsigned_part(s)) as u32)
    } else {
        None
    }
}

/// A numeral writes at least what any of its prefixes writes.
proof fn lemma_decimal_value_grows(s: Seq<char>, n: int)
    requires
        0 <= n <= s.len(),
        forall|i: int| 0 <= i < s.len() ==> is_digit(#[trigger] s[i]),
    ensures
        decimal_value(s.take(n)) <= decimal_value(s),
    decreases s.len() - n,
{
    if n < s.len() {
        lemma_decimal_value_grows(s, n + 1);
        assert(s.take(n + 1).drop_last() == s.take(n));
        assert(is_digit(s[n]));
    } else {
        assert(s.take(n) == s);
    }
}

/// Reads a number: see `parsed_u32`.
pub fn parse_u32(s: &Vec<char>) -> (out: Option<u32>)
    ensures
        out == parsed_u32(s@),
{
    let start: usize = if s.len() > 0 && s[0] == '+' {
        1
    } else {
        0
    };
    let ghost digits = unsigned_part(s@);
    proof {
        assert(digits == s@.skip(start as int));
    }
    if s.len() == start {
        return None;
    }
    let mut value: u32 = 0;
    let mut i: usize = start;
    proof {
        assert(digits.take(0).len() == 0);
    }
    while i < s.len()
        invariant
            start <= i <= s.len(),
            digits == s@.skip(start as int),
            digits == unsigned_part(s@),
            forall|j: int| 0 <= j < i - start ==> is_digit(#[trigger] digits[j]),
            value == decimal_value(digits.take(i - start)),
        decreases s.len() - i,
    {
        let c: char = s[i];
        proof {
            assert(digits[i - start] == c);
        }
        if c < '0' || c > '9' {
            proof {
                assert(!is_digit(digits[i - start]));
            }
            return None;
        }
        let d: u32 = (c as u32) - ('0' as u32);
        proof {
            assert(digits.take(i - start + 1).drop_last() == digits.take(i - start));
            assert(digits.take(i - start + 1).last() == c);
            assert(decimal_value(digits.take(i - start + 1)) == value * 10 + d);
        }
        if value > (u32::MAX - d) / 10 {
            proof {
                if is_numeral(digits) {
                    lemma_decimal_value_grows(digits, i - start + 1);
                }
            }
            return None;
        }
        value = value * 10 + d;
        i = i + 1;
    }
    proof {
        assert(digits.take(s.len() - start) == digits);
    }
    Some(value)
}

} // verus!
