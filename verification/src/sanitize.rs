//! Turning an arbitrary name into one that every common file system takes.
//!
//! A name is rewritten in a fixed order: full-width punctuation becomes its
//! narrow form, forbidden characters, the narrowed ones among them, become
//! `_`, control characters are dropped, white space and dots are trimmed
//! from both ends, an empty result is replaced by a placeholder, the result
//! is cut to a byte budget between two characters, and what the cut has
//! laid bare of white space and dots at the end is trimmed again. A name
//! that has been through this comes out of it unchanged.

use vstd::prelude::*;
use crate::text::{
    chars_of, fit_count, fit_prefix, lemma_fit_prefix, lemma_utf8_len_prefix, slice_chars,
    string_of, truncate_to_bytes, utf8_len, utf8_width,
};

verus! {

/// The longest name that is kept, in UTF-8 bytes.
pub const MAX_NAME_BYTES: usize = 200;

/// Characters that are replaced by an underscore: `< > : " | ? *`.
pub open spec fn is_forbidden(c: char) -> bool {
    c == '<' || c == '>' || c == ':' || c == '"' || c == '|' || c == '?' || c == '*'
}

/// Full-width and ornamental punctuation that has a narrow form.
pub open spec fn is_wide(c: char) -> bool {
    c == '\u{2606}' || c == '\u{FF5E}' || c == '\u{FF06}' || c == '\u{FF01}' || c == '\u{FF1F}'
        || c == '\u{FF1A}' || c == '\u{FF1B}' || c == '\u{FF0C}' || c == '\u{3002}' || c
        == '\u{FF08}' || c == '\u{FF09}' || c == '\u{3010}' || c == '\u{3011}' || c == '\u{FF5B}'
        || c == '\u{FF5D}' || c == '\u{3000}'
}

/// The narrow form of a wide character; any other character is itself. The
/// white star becomes the black star, the ideographic full stop a dot, the
/// ideographic space a space, the lenticular brackets square brackets, and
/// each full-width sign its ASCII sign.
pub open spec fn narrow(c: char) -> char {
    if c == '\u{2606}' {
        '\u{2605}'
    } else if c == '\u{FF5E}' {
        '~'
    } else if c == '\u{FF06}' {
        '&'
    } else if c == '\u{FF01}' {
        '!'
    } else if c == '\u{FF1F}' {
        '?'
    } else if c == '\u{FF1A}' {
        ':'
    } else if c == '\u{FF1B}' {
        ';'
    } else if c == '\u{FF0C}' {
        ','
    } else if c == '\u{3002}' {
        '.'
    } else if c == '\u{FF08}' {
        '('
    } else if c == '\u{FF09}' {
        ')'
    } else if c == '\u{3010}' {
        '['
    } else if c == '\u{3011}' {
        ']'
    } else if c == '\u{FF5B}' {
        '{'
    } else if c == '\u{FF5D}' {
        '}'
    } else if c == '\u{3000}' {
        ' '
    } else {
        c
    }
}

/// What one character becomes before control characters are dropped: its
/// narrow form, or an underscore where that is forbidden. So a full-width
/// colon becomes an underscore as a plain colon does.
pub open spec fn rewritten(c: char) -> char {
    if is_forbidden(narrow(c)) {
        '_'
    } else {
        narrow(c)
    }
}

/// The control characters: U+0000 to U+001F and U+007F to U+009F.
pub open spec fn is_control(c: char) -> bool {
    (c as u32) <= 0x1F || (0x7F <= (c as u32) && (c as u32) <= 0x9F)
}

/// The white-space characters of Unicode.
pub open spec fn is_whitespace(c: char) -> bool {
    let u = c as u32;
    (0x09 <= u && u <= 0x0D) || u == 0x20 || u == 0x85 || u == 0xA0 || u == 0x1680 || (0x2000
        <= u && u <= 0x200A) || u == 0x2028 || u == 0x2029 || u == 0x202F || u == 0x205F || u
        == 0x3000
}

/// Characters that are trimmed from both ends of a name: white space and `.`.
pub open spec fn is_edge(c: char) -> bool {
    is_whitespace(c) || c == '.'
}

/// `s` with every character rewritten and the control characters dropped.
pub open spec fn cleaned(s: Seq<char>) -> Seq<char>
    decreases s.len(),
{
    if s.len() == 0 {
        Seq::empty()
    } else if is_control(rewritten(s.last())) {
        cleaned(s.drop_last())
    } else {
        cleaned(s.drop_last()).push(rewritten(s.last()))
    }
}

/// How many edge characters `s` starts with.
pub open spec fn leading_edge(s: Seq<char>) -> nat
    decreases s.len(),
{
    if s.len() > 0 && is_edge(s[0]) {
        1 + leading_edge(s.drop_first())
    } else {
        0
    }
}

/// How many edge characters `s` ends with.
pub open spec fn trailing_edge(s: Seq<char>) -> nat
    decreases s.len(),
{
    if s.len() > 0 && is_edge(s.last()) {
        1 + trailing_edge(s.drop_last())
    } else {
        0
    }
}

/// `s` without the edge characters at its end.
pub open spec fn without_trailing_edge(s: Seq<char>) -> Seq<char> {
    s.take(s.len() - trailing_edge(s))
}

/// `s` without the edge characters at its two ends; empty if `s` holds
/// nothing else.
pub open spec fn trimmed(s: Seq<char>) -> Seq<char> {
    without_trailing_edge(s.skip(leading_edge(s) as int))
}

/// The name that stands in for one that sanitising leaves empty.
pub open spec fn placeholder() -> Seq<char> {
    seq!['u', 'n', 'n', 'a', 'm', 'e', 'd', '_', 'f', 'i', 'l', 'e']
}

/// `s` if it holds anything, else the placeholder.
pub open spec fn or_placeholder(s: Seq<char>) -> Seq<char> {
    if s.len() == 0 {
        placeholder()
    } else {
        s
    }
}

/// The sanitised form of the name `s`: cleaned, trimmed at both ends,
/// replaced by the placeholder if nothing is left, cut to the byte budget,
/// and trimmed at the end once more.
pub open spec fn sanitized_name(s: Seq<char>) -> Seq<char> {
    without_trailing_edge(fit_prefix(or_placeholder(trimmed(cleaned(s))), MAX_NAME_BYTES as nat))
}

/// What holds of every sanitised name: it is not empty, fits the byte
/// budget, holds no control character, no wide character and none of
/// `< > : " | ? *`, and neither starts nor ends with white space or a dot.
pub open spec fn is_safe_name(r: Seq<char>) -> bool {
    &&& r.len() > 0
    &&& utf8_len(r) <= MAX_NAME_BYTES
    &&& !is_edge(r[0])
    &&& !is_edge(r.last())
    &&& forall|i: int|
        0 <= i < r.len() ==> !is_control(#[trigger] r[i]) && !is_wide(r[i]) && !is_forbidden(r[i])
}

/// Whether `c` is one of `< > : " | ? *`.
pub fn is_forbidden_char(c: char) -> (b: bool)
    ensures
        b == is_forbidden(c),
{
    c == '<' || c == '>' || c == ':' || c == '"' || c == '|' || c == '?' || c == '*'
}

/// Whether `c` is a control character.
pub fn is_control_char(c: char) -> (b: bool)
    ensures
        b == is_control(c),
{
    let u: u32 = c as u32;
    u <= 0x1F || (0x7F <= u && u <= 0x9F)
}

/// Whether `c` is white space.
pub fn is_whitespace_char(c: char) -> (b: bool)
    ensures
        b == is_whitespace(c),
{
    let u: u32 = c as u32;
    (0x09 <= u && u <= 0x0D) || u == 0x20 || u == 0x85 || u == 0xA0 || u == 0x1680 || (0x2000
        <= u && u <= 0x200A) || u == 0x2028 || u == 0x2029 || u == 0x202F || u == 0x205F || u
        == 0x3000
}

/// Whether `c` is trimmed from the ends of a name.
pub fn is_edge_char(c: char) -> (b: bool)
    ensures
        b == is_edge(c),
{
    is_whitespace_char(c) || c == '.'
}

/// The narrow form of `c`.
pub fn narrow_char(c: char) -> (r: char)
    ensures
        r == narrow(c),
{
    if c == '\u{2606}' {
        '\u{2605}'
    } else if c == '\u{FF5E}' {
        '~'
    } else if c == '\u{FF06}' {
        '&'
    } else if c == '\u{FF01}' {
        '!'
    } else if c == '\u{FF1F}' {
        '?'
    } else if c == '\u{FF1A}' {
        ':'
    } else if c == '\u{FF1B}' {
        ';'
    } else if c == '\u{FF0C}' {
        ','
    } else if c == '\u{3002}' {
        '.'
    } else if c == '\u{FF08}' {
        '('
    } else if c == '\u{FF09}' {
        ')'
    } else if c == '\u{3010}' {
        '['
    } else if c == '\u{3011}' {
        ']'
    } else if c == '\u{FF5B}' {
        '{'
    } else if c == '\u{FF5D}' {
        '}'
    } else if c == '\u{3000}' {
        ' '
    } else {
        c
    }
}

/// What `c` becomes before control characters are dropped.
pub fn rewrite_char(c: char) -> (r: char)
    ensures
        r == rewritten(c),
{
    let narrowed: char = narrow_char(c);
    if is_forbidden_char(narrowed) {
        '_'
    } else {
        narrowed
    }
}

/// The characters of the placeholder name.
pub fn placeholder_chars() -> (out: Vec<char>)
    ensures
        out@ == placeholder(),
{
    let mut out: Vec<char> = Vec::new();
    out.push('u');
    out.push('n');
    out.push('n');
    out.push('a');
    out.push('m');
    out.push('e');
    out.push('d');
    out.push('_');
    out.push('f');
    out.push('i');
    out.push('l');
    out.push('e');
    out
}

/// Every character rewritten, control characters dropped.
pub fn clean_chars(s: &Vec<char>) -> (out: Vec<char>)
    ensures
        out@ == cleaned(s@),
{
    let mut out: Vec<char> = Vec::new();
    let mut i: usize = 0;
    while i < s.len()
        invariant
            i <= s.len(),
            out@ == cleaned(s@.take(i as int)),
        decreases s.len() - i,
    {
        let c: char = rewrite_char(s[i]);
        proof {
            assert(s@.take(i + 1).drop_last() == s@.take(i as int));
        }
        if !is_control_char(c) {
            out.push(c);
        }
        i = i + 1;
    }
    proof {
        assert(s@.take(s.len() as int) == s@);
    }
    out
}

/// The edge characters taken off both ends.
pub fn trim_chars(s: &Vec<char>) -> (out: Vec<char>)
    ensures
        out@ == trimmed(s@),
{
    let mut start: usize = 0;
    proof {
        assert(s@.skip(0) == s@);
    }
    while start < s.len() && is_edge_char(s[start])
        invariant
            start <= s.len(),
            leading_edge(s@) == start + leading_edge(s@.skip(start as int)),
        decreases s.len() - start,
    {
        proof {
            assert(s@.skip(start as int).drop_first() == s@.skip(start + 1));
        }
        start = start + 1;
    }
    let ghost rest = s@.skip(start as int);
    let mut end: usize = s.len();
    proof {
        assert(rest.take(s.len() - start) == rest);
    }
    while end > start && is_edge_char(s[end - 1])
        invariant
            start <= end <= s.len(),
            rest == s@.skip(start as int),
            trailing_edge(rest) == (s.len() - end) + trailing_edge(rest.take(end - start)),
        decreases end,
    {
        proof {
            assert(rest.take(end - start).drop_last() == rest.take(end - start - 1));
        }
        end = end - 1;
    }
    proof {
        assert(rest.take(end - start) == s@.subrange(start as int, end as int));
    }
    slice_chars(s, start, end)
}

/// Takes the edge characters off the end.
pub fn trim_end_chars(s: &mut Vec<char>)
    ensures
        final(s)@ == without_trailing_edge(old(s)@),
{
    let ghost all = s@;
    proof {
        assert(all.take(all.len() as int) == all);
    }
    while s.len() > 0 && is_edge_char(s[s.len() - 1])
        invariant
            s.len() <= all.len(),
            s@ == all.take(s.len() as int),
            trailing_edge(all) == (all.len() - s.len()) + trailing_edge(s@),
        decreases s.len(),
    {
        proof {
            assert(s@.drop_last() == all.take(s.len() - 1));
        }
        s.pop();
    }
}

/// The sanitised form of `name`: see `sanitized_name`.
pub fn sanitize_chars(name: &Vec<char>) -> (out: Vec<char>)
    ensures
        out@ == sanitized_name(name@),
        is_safe_name(out@),
{
    let cleaned_name = clean_chars(name);
    let mut out = trim_chars(&cleaned_name);
    if out.len() == 0 {
        out = placeholder_chars();
    }
    truncate_to_bytes(&mut out, MAX_NAME_BYTES);
    trim_end_chars(&mut out);
    proof {
        lemma_sanitized_is_safe(name@);
    }
    out
}

/// Makes a file or folder name safe: wide punctuation becomes narrow,
/// forbidden characters become `_`, control characters are dropped, white
/// space and dots are trimmed from both ends, an empty result becomes
/// `unnamed_file`, and the result is cut to at most 200 bytes between two
/// characters and trimmed at the end again.
pub fn sanitize_filename(filename: &str) -> (out: String)
    ensures
        out@ == sanitized_name(filename@),
        is_safe_name(out@),
{
    let chars = chars_of(filename);
    let out = sanitize_chars(&chars);
    string_of(&out)
}

/// Every character of a cleaned text is a rewritten character that is no
/// control character: it is neither wide nor forbidden.
proof fn lemma_cleaned_chars(s: Seq<char>)
    ensures
        forall|i: int|
            0 <= i < cleaned(s).len() ==> !is_control(#[trigger] cleaned(s)[i]) && !is_wide(
                cleaned(s)[i],
            ) && !is_forbidden(cleaned(s)[i]),
        cleaned(s).len() <= s.len(),
    decreases s.len(),
{
    if s.len() > 0 {
        lemma_cleaned_chars(s.drop_last());
    }
}

proof fn lemma_leading_edge(s: Seq<char>)
    ensures
        leading_edge(s) <= s.len(),
        leading_edge(s) < s.len() ==> !is_edge(s[leading_edge(s) as int]),
    decreases s.len(),
{
    if s.len() > 0 && is_edge(s[0]) {
        lemma_leading_edge(s.drop_first());
    }
}

proof fn lemma_trailing_edge(s: Seq<char>)
    ensures
        trailing_edge(s) <= s.len(),
        trailing_edge(s) < s.len() ==> !is_edge(s[s.len() - trailing_edge(s) - 1]),
    decreases s.len(),
{
    if s.len() > 0 && is_edge(s.last()) {
        lemma_trailing_edge(s.drop_last());
    }
}

/// A text that starts with something other than an edge character does not
/// consist of edge characters only.
proof fn lemma_trailing_edge_stops(s: Seq<char>)
    requires
        s.len() > 0,
        !is_edge(s[0]),
    ensures
        trailing_edge(s) < s.len(),
    decreases s.len(),
{
    if s.len() > 1 && is_edge(s.last()) {
        lemma_trailing_edge_stops(s.drop_last());
    }
}

/// A trimmed text is a stretch of the text it came from, and has no edge
/// character at either end.
proof fn lemma_trimmed(s: Seq<char>)
    ensures
        leading_edge(s) <= s.len(),
        trailing_edge(s.skip(leading_edge(s) as int)) <= s.len() - leading_edge(s),
        trimmed(s) == s.subrange(
            leading_edge(s) as int,
            s.len() - trailing_edge(s.skip(leading_edge(s) as int)),
        ),
        trimmed(s).len() > 0 ==> !is_edge(trimmed(s)[0]) && !is_edge(trimmed(s).last()),
{
    lemma_leading_edge(s);
    let rest = s.skip(leading_edge(s) as int);
    lemma_trailing_edge(rest);
    let t = trimmed(s);
    if t.len() > 0 {
        assert(t[0] == rest[0]);
    }
}

/// Every sanitised name is a safe name.
pub proof fn lemma_sanitized_is_safe(s: Seq<char>)
    ensures
        is_safe_name(sanitized_name(s)),
{
    let c = cleaned(s);
    lemma_cleaned_chars(s);
    lemma_trimmed(c);
    let t = trimmed(c);
    let p = or_placeholder(t);
    assert(p.len() > 0);
    assert(!is_edge(p[0]));
    assert forall|i: int| 0 <= i < p.len() implies !is_control(#[trigger] p[i]) && !is_wide(p[i])
        && !is_forbidden(p[i]) by {
        if t.len() > 0 {
            assert(p[i] == c[i + leading_edge(c)]);
        }
    }
    let limit = MAX_NAME_BYTES as nat;
    lemma_fit_prefix(p, limit);
    let f = fit_prefix(p, limit);
    assert(f == p.take(fit_count(p, limit) as int));
    assert(fit_count(p, limit) > 0) by {
        assert(utf8_width(p[0]) <= 4);
    }
    assert(f[0] == p[0]);
    lemma_trailing_edge_stops(f);
    lemma_trailing_edge(f);
    let r = sanitized_name(s);
    assert(r == f.take(f.len() - trailing_edge(f)));
    lemma_utf8_len_prefix(f, f.len() - trailing_edge(f));
    assert(r[0] == f[0]);
    assert(r.last() == f[f.len() - trailing_edge(f) - 1]);
    assert forall|i: int| 0 <= i < r.len() implies !is_control(#[trigger] r[i]) && !is_wide(r[i])
        && !is_forbidden(r[i]) by {
        assert(r[i] == p[i]);
    }
}

/// A text of rewritten characters without control characters is its own
/// cleaned form.
proof fn lemma_cleaned_fixed(s: Seq<char>)
    requires
        forall|i: int| 0 <= i < s.len() ==> rewritten(#[trigger] s[i]) == s[i] && !is_control(s[i]),
    ensures
        cleaned(s) == s,
    decreases s.len(),
{
    if s.len() > 0 {
        lemma_cleaned_fixed(s.drop_last());
        assert(s.drop_last().push(s.last()) == s);
    }
}

/// Cleaning brings in no path separator.
proof fn lemma_cleaned_separator(s: Seq<char>)
    requires
        !s.contains('/'),
    ensures
        !cleaned(s).contains('/'),
    decreases s.len(),
{
    if s.len() > 0 {
        assert(s.last() == s[s.len() - 1]);
        assert forall|i: int| 0 <= i < s.drop_last().len() implies s.drop_last()[i] != '/' by {
            assert(s.drop_last()[i] == s[i]);
        }
        lemma_cleaned_separator(s.drop_last());
    }
}

/// Sanitising brings in no path separator: a name without `/` stays
/// without it.
pub proof fn lemma_sanitized_separator(s: Seq<char>)
    requires
        !s.contains('/'),
    ensures
        !sanitized_name(s).contains('/'),
{
    let c = cleaned(s);
    lemma_cleaned_separator(s);
    lemma_trimmed(c);
    let t = trimmed(c);
    let p = or_placeholder(t);
    assert forall|i: int| 0 <= i < p.len() implies p[i] != '/' by {
        if t.len() > 0 {
            assert(p[i] == c[i + leading_edge(c)]);
        }
    }
    lemma_fit_prefix(p, MAX_NAME_BYTES as nat);
    let f = fit_prefix(p, MAX_NAME_BYTES as nat);
    lemma_trailing_edge(f);
    let r = sanitized_name(s);
    assert forall|i: int| 0 <= i < r.len() implies r[i] != '/' by {
        assert(r[i] == p[i]);
    }
}

/// A safe name is its own sanitised form.
pub proof fn lemma_safe_is_fixed(r: Seq<char>)
    requires
        is_safe_name(r),
    ensures
        sanitized_name(r) == r,
{
    lemma_cleaned_fixed(r);
    assert(leading_edge(r) == 0);
    assert(r.skip(0) == r);
    assert(trailing_edge(r) == 0);
    assert(r.take(r.len() as int) == r);
    lemma_fit_prefix(r, MAX_NAME_BYTES as nat);
}

/// Sanitising is a fixed point after one pass: sanitising a sanitised name
/// gives it back, whatever the name was.
pub proof fn lemma_sanitize_idempotent(s: Seq<char>)
    ensures
        sanitized_name(sanitized_name(s)) == sanitized_name(s),
{
    lemma_sanitized_is_safe(s);
    lemma_safe_is_fixed(sanitized_name(s));
}

} // verus!
