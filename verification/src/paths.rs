//! Paths as text. A path is a sequence of characters in which `/` separates
//! the parts; a leading `/` is the root. Empty parts and `.` parts say
//! nothing and are passed over, except a `.` at the very start, which is
//! kept. `..` is a part like any other, but is never renamed.
//!
//! These are POSIX paths, and only they are read here. There is no drive
//! prefix and no other separator: a backslash is a character of a name, and
//! `C:` at the start of a path is a name like any other.

use vstd::prelude::*;
use crate::sanitize::{
    is_safe_name, lemma_safe_is_fixed, lemma_sanitized_is_safe, lemma_sanitized_separator,
    sanitize_chars, sanitized_name,
};
use crate::text::{chars_of, copy_chars, exceeds_bytes, push_all, slice_chars, string_of, utf8_len};

verus! {

/// The parts of `s` between the occurrences of `sep`. There is always at
/// least one part; a text without `sep` is its own single part.
pub open spec fn split_on(s: Seq<char>, sep: char) -> Seq<Seq<char>>
    decreases s.len(),
{
    if s.len() == 0 {
        seq![Seq::<char>::empty()]
    } else {
        let before = split_on(s.drop_last(), sep);
        if s.last() == sep {
            before.push(Seq::<char>::empty())
        } else {
            before.update(before.len() - 1, before.last().push(s.last()))
        }
    }
}

/// The parts put together with `sep` between each two neighbours.
pub open spec fn join_with(parts: Seq<Seq<char>>, sep: char) -> Seq<char>
    decreases parts.len(),
{
    if parts.len() == 0 {
        Seq::<char>::empty()
    } else if parts.len() == 1 {
        parts[0]
    } else {
        join_with(parts.drop_last(), sep).push(sep) + parts.last()
    }
}

/// The texts that a vector of character vectors holds.
pub open spec fn texts(parts: Seq<Vec<char>>) -> Seq<Seq<char>> {
    parts.map_values(|p: Vec<char>| p@)
}

/// Splitting gives at least one part, and no part holds the separator.
pub proof fn lemma_split_parts(s: Seq<char>, sep: char)
    ensures
        split_on(s, sep).len() >= 1,
        forall|k: int| 0 <= k < split_on(s, sep).len() ==> !(#[trigger] split_on(s, sep)[k]).contains(sep),
        s.len() > 0 && s[0] == sep ==> split_on(s, sep).len() >= 2 && split_on(s, sep)[0].len() == 0,
        s.len() > 0 && s[0] != sep ==> split_on(s, sep)[0].len() > 0 && split_on(s, sep)[0][0] == s[0],
        s.len() == 0 ==> split_on(s, sep) == seq![Seq::<char>::empty()],
    decreases s.len(),
{
    if s.len() > 0 {
        let init = s.drop_last();
        lemma_split_parts(init, sep);
        let before = split_on(init, sep);
        let after = split_on(s, sep);
        if s.last() != sep {
            let grown = before.last().push(s.last());
            assert forall|k: int| 0 <= k < after.len() implies !(#[trigger] after[k]).contains(
                sep,
            ) by {
                if k == before.len() - 1 {
                    assert forall|j: int| 0 <= j < grown.len() implies grown[j] != sep by {
                        if j < before.last().len() {
                            assert(before.last().contains(before.last()[j]));
                        }
                    }
                } else {
                    assert(after[k] == before[k]);
                }
            }
        } else {
            assert forall|k: int| 0 <= k < after.len() implies !(#[trigger] after[k]).contains(
                sep,
            ) by {
                if k < before.len() {
                    assert(after[k] == before[k]);
                }
            }
        }
        if init.len() > 0 {
            assert(init[0] == s[0]);
        }
    }
}

/// Appending a text without the separator lengthens the last part.
proof fn lemma_split_append(s: Seq<char>, tail: Seq<char>, sep: char)
    requires
        !tail.contains(sep),
    ensures
        split_on(s + tail, sep) == split_on(s, sep).update(
            split_on(s, sep).len() - 1,
            split_on(s, sep).last() + tail,
        ),
    decreases tail.len(),
{
    lemma_split_parts(s, sep);
    let base = split_on(s, sep);
    if tail.len() == 0 {
        assert(s + tail == s);
        assert(base.last() + tail == base.last());
        assert(base.update(base.len() - 1, base.last()) == base);
    } else {
        let init = tail.drop_last();
        assert forall|j: int| 0 <= j < init.len() implies init[j] != sep by {
            assert(tail.contains(tail[j]));
        }
        lemma_split_append(s, init, sep);
        assert((s + tail).drop_last() == s + init);
        assert(tail.contains(tail.last()));
        let mid = split_on(s + init, sep);
        assert(mid.last().push(tail.last()) == base.last() + tail);
        assert(mid.update(mid.len() - 1, mid.last().push(tail.last())) == base.update(
            base.len() - 1,
            base.last() + tail,
        ));
    }
}

/// Splitting what was joined gives the parts back, if there is at least one
/// part and none holds the separator.
pub proof fn lemma_split_join(parts: Seq<Seq<char>>, sep: char)
    requires
        parts.len() >= 1,
        forall|k: int| 0 <= k < parts.len() ==> !(#[trigger] parts[k]).contains(sep),
    ensures
        split_on(join_with(parts, sep), sep) == parts,
    decreases parts.len(),
{
    let empty = Seq::<char>::empty();
    if parts.len() == 1 {
        lemma_split_append(empty, parts[0], sep);
        assert(empty + parts[0] == parts[0]);
        assert(split_on(empty, sep) == seq![empty]);
        assert(seq![empty].update(0, empty + parts[0]) == parts);
    } else {
        let init = parts.drop_last();
        lemma_split_join(init, sep);
        let joined = join_with(init, sep);
        let with_sep = joined.push(sep);
        assert(with_sep.drop_last() == joined);
        assert(split_on(with_sep, sep) == init.push(empty));
        lemma_split_append(with_sep, parts.last(), sep);
        assert(empty + parts.last() == parts.last());
        assert(init.push(empty).update(init.len() as int, parts.last()) == parts);
    }
}

/// A text that starts with the separator splits into an empty part followed
/// by the parts of the rest.
proof fn lemma_split_leading_separator(rest: Seq<char>, sep: char)
    ensures
        split_on(seq![sep] + rest, sep) == seq![Seq::<char>::empty()] + split_on(rest, sep),
    decreases rest.len(),
{
    let empty = Seq::<char>::empty();
    let head = seq![sep];
    if rest.len() == 0 {
        assert(head + rest == head);
        assert(head.drop_last() == empty);
        assert(split_on(empty, sep) == seq![empty]);
        assert(split_on(head, sep) == seq![empty].push(empty));
        assert(seq![empty].push(empty) == seq![empty] + seq![empty]);
    } else {
        lemma_split_leading_separator(rest.drop_last(), sep);
        lemma_split_parts(rest.drop_last(), sep);
        assert((head + rest).drop_last() == head + rest.drop_last());
        assert((head + rest).last() == rest.last());
        let before = split_on(rest.drop_last(), sep);
        if rest.last() == sep {
            assert((seq![empty] + before).push(empty) == seq![empty] + before.push(empty));
        } else {
            assert((seq![empty] + before).update(
                before.len() as int,
                before.last().push(rest.last()),
            ) == seq![empty] + before.update(before.len() - 1, before.last().push(rest.last())));
        }
    }
}

/// The parts of `s` between the occurrences of `sep`.
pub fn split_chars(s: &Vec<char>, sep: char) -> (parts: Vec<Vec<char>>)
    ensures
        texts(parts@) == split_on(s@, sep),
        parts.len() >= 1,
{
    let mut parts: Vec<Vec<char>> = Vec::new();
    let mut current: Vec<char> = Vec::new();
    let mut i: usize = 0;
    proof {
        assert(texts(parts@).push(current@) == seq![Seq::<char>::empty()]);
    }
    while i < s.len()
        invariant
            i <= s.len(),
            split_on(s@.take(i as int), sep) == texts(parts@).push(current@),
        decreases s.len() - i,
    {
        proof {
            assert(s@.take(i + 1).drop_last() == s@.take(i as int));
        }
        let ghost before = texts(parts@).push(current@);
        if s[i] == sep {
            parts.push(current);
            current = Vec::new();
            proof {
                assert(texts(parts@) == before);
            }
        } else {
            current.push(s[i]);
            proof {
                assert(texts(parts@).push(current@) == before.update(
                    before.len() - 1,
                    before.last().push(s@[i as int]),
                ));
            }
        }
        i = i + 1;
    }
    proof {
        assert(s@.take(s.len() as int) == s@);
    }
    parts.push(current);
    proof {
        assert(texts(parts@) == split_on(s@, sep));
    }
    parts
}

/// The parts put together with `sep` between each two neighbours.
pub fn join_chars(parts: &Vec<Vec<char>>, sep: char) -> (out: Vec<char>)
    ensures
        out@ == join_with(texts(parts@), sep),
{
    let mut out: Vec<char> = Vec::new();
    let mut k: usize = 0;
    while k < parts.len()
        invariant
            k <= parts.len(),
            out@ == join_with(texts(parts@).take(k as int), sep),
        decreases parts.len() - k,
    {
        proof {
            let upto = texts(parts@).take(k + 1);
            assert(upto.drop_last() == texts(parts@).take(k as int));
            assert(upto.last() == parts@[k as int]@);
            if k == 0 {
                assert(out@ + parts@[0]@ == parts@[0]@);
            }
        }
        if k > 0 {
            out.push(sep);
        }
        push_all(&mut out, &parts[k]);
        k = k + 1;
    }
    proof {
        assert(texts(parts@).take(parts.len() as int) == texts(parts@));
    }
    out
}

/// The part `.`, which stands for the directory that a path starts in.
pub open spec fn dot() -> Seq<char> {
    seq!['.']
}

/// The part `..`, which stands for the directory above.
pub open spec fn dot_dot() -> Seq<char> {
    seq!['.', '.']
}

/// The parts that count, out of all the parts between separators: a part
/// counts if it is not empty and is not `.`, or is `.` at the very start.
pub open spec fn pieces_of(raw: Seq<Seq<char>>) -> Seq<Seq<char>>
    decreases raw.len(),
{
    if raw.len() == 0 {
        Seq::<Seq<char>>::empty()
    } else {
        let before = pieces_of(raw.drop_last());
        let part = raw.last();
        if part.len() > 0 && (raw.len() == 1 || part != dot()) {
            before.push(part)
        } else {
            before
        }
    }
}

/// The components of the path `p`, in order, without the root.
pub open spec fn components(p: Seq<char>) -> Seq<Seq<char>> {
    pieces_of(split_on(p, '/'))
}

/// Whether `p` starts at the root.
pub open spec fn is_rooted(p: Seq<char>) -> bool {
    p.len() > 0 && p[0] == '/'
}

/// The path with the given components, rooted or not: the root, if any,
/// then the components with one separator between each two.
pub open spec fn path_of(rooted: bool, pieces: Seq<Seq<char>>) -> Seq<char> {
    if rooted {
        seq!['/'] + join_with(pieces, '/')
    } else {
        join_with(pieces, '/')
    }
}

/// What a component becomes when a path is sanitised: `.` and `..` stay,
/// any other component is sanitised as a name.
pub open spec fn sanitized_piece(part: Seq<char>) -> Seq<char> {
    if part == dot() || part == dot_dot() {
        part
    } else {
        sanitized_name(part)
    }
}

/// Each component sanitised on its own.
pub open spec fn sanitized_pieces(parts: Seq<Seq<char>>) -> Seq<Seq<char>> {
    parts.map_values(|part: Seq<char>| sanitized_piece(part))
}

/// The sanitised form of the path `p`: the root passes through unchanged,
/// every component is sanitised on its own, and the components are joined
/// with single separators.
pub open spec fn sanitized_path(p: Seq<char>) -> Seq<char> {
    path_of(is_rooted(p), sanitized_pieces(components(p)))
}

fn is_dot(part: &Vec<char>) -> (b: bool)
    ensures
        b == (part@ == dot()),
{
    let b = part.len() == 1 && part[0] == '.';
    proof {
        if b {
            assert(part@ == dot());
        }
    }
    b
}

fn is_dot_dot(part: &Vec<char>) -> (b: bool)
    ensures
        b == (part@ == dot_dot()),
{
    let b = part.len() == 2 && part[0] == '.' && part[1] == '.';
    proof {
        if b {
            assert(part@ == dot_dot());
        } else if part.len() == 2 {
            assert(dot_dot()[0] == '.' && dot_dot()[1] == '.');
        }
    }
    b
}

/// Whether `p` starts at the root.
pub fn starts_at_root(p: &Vec<char>) -> (b: bool)
    ensures
        b == is_rooted(p@),
{
    p.len() > 0 && p[0] == '/'
}

/// The components of the path `p`.
pub fn path_components(p: &Vec<char>) -> (out: Vec<Vec<char>>)
    ensures
        texts(out@) == components(p@),
{
    let raw = split_chars(p, '/');
    let mut out: Vec<Vec<char>> = Vec::new();
    let mut k: usize = 0;
    proof {
        assert(texts(out@) == pieces_of(texts(raw@).take(0)));
    }
    while k < raw.len()
        invariant
            k <= raw.len(),
            texts(out@) == pieces_of(texts(raw@).take(k as int)),
        decreases raw.len() - k,
    {
        proof {
            let upto = texts(raw@).take(k + 1);
            assert(upto.drop_last() == texts(raw@).take(k as int));
            assert(upto.last() == raw@[k as int]@);
        }
        let ghost before = texts(out@);
        if raw[k].len() > 0 && (k == 0 || !is_dot(&raw[k])) {
            out.push(copy_chars(&raw[k]));
            proof {
                assert(texts(out@) == before.push(raw@[k as int]@));
            }
        }
        k = k + 1;
    }
    proof {
        assert(texts(raw@).take(raw.len() as int) == texts(raw@));
    }
    out
}

/// The path with the given components, rooted or not.
pub fn build_path(rooted: bool, pieces: &Vec<Vec<char>>) -> (out: Vec<char>)
    ensures
        out@ == path_of(rooted, texts(pieces@)),
{
    let body = join_chars(pieces, '/');
    if rooted {
        let mut out: Vec<char> = Vec::new();
        out.push('/');
        push_all(&mut out, &body);
        out
    } else {
        body
    }
}

/// Sanitises the path `p`: see `sanitized_path`.
pub fn sanitize_path_chars(p: &Vec<char>) -> (out: Vec<char>)
    ensures
        out@ == sanitized_path(p@),
{
    let parts = path_components(p);
    let mut pieces: Vec<Vec<char>> = Vec::new();
    let mut k: usize = 0;
    proof {
        assert(texts(pieces@) == sanitized_pieces(texts(parts@).take(0)));
    }
    while k < parts.len()
        invariant
            k <= parts.len(),
            texts(pieces@) == sanitized_pieces(texts(parts@).take(k as int)),
        decreases parts.len() - k,
    {
        let ghost before = texts(pieces@);
        if is_dot(&parts[k]) || is_dot_dot(&parts[k]) {
            pieces.push(copy_chars(&parts[k]));
        } else {
            pieces.push(sanitize_chars(&parts[k]));
        }
        proof {
            assert(texts(pieces@) == before.push(sanitized_piece(parts@[k as int]@)));
            assert(texts(parts@).take(k + 1) == texts(parts@).take(k as int).push(
                parts@[k as int]@,
            ));
        }
        k = k + 1;
    }
    proof {
        assert(texts(parts@).take(parts.len() as int) == texts(parts@));
    }
    build_path(starts_at_root(p), &pieces)
}

/// Makes a path safe component by component. The root passes through
/// unchanged, `.` and `..` stay, every other component is sanitised as a
/// name, and the result has single separators.
pub fn sanitize_path(path: &str) -> (out: String)
    ensures
        out@ == sanitized_path(path@),
        is_clean_path(out@),
{
    let chars = chars_of(path);
    let out = sanitize_path_chars(&chars);
    proof {
        lemma_sanitized_path_is_clean(path@);
    }
    string_of(&out)
}

/// A component as sanitising leaves it: `.`, `..` or a safe name.
pub open spec fn is_clean_piece(part: Seq<char>) -> bool {
    part == dot() || part == dot_dot() || is_safe_name(part)
}

/// A path as sanitising leaves it: written with single separators and
/// without parts that say nothing, and every component of it clean.
pub open spec fn is_clean_path(p: Seq<char>) -> bool {
    &&& p == path_of(is_rooted(p), components(p))
    &&& forall|k: int| 0 <= k < components(p).len() ==> is_clean_piece(#[trigger] components(p)[k])
}

/// Components are never empty and hold no separator, and only the first can
/// be `.`, which it is only if the path starts with it.
proof fn lemma_pieces(raw: Seq<Seq<char>>)
    requires
        forall|j: int| 0 <= j < raw.len() ==> !(#[trigger] raw[j]).contains('/'),
    ensures
        forall|k: int|
            0 <= k < pieces_of(raw).len() ==> {
                &&& (#[trigger] pieces_of(raw)[k]).len() > 0
                &&& !pieces_of(raw)[k].contains('/')
                &&& (pieces_of(raw)[k] == dot() ==> k == 0 && raw[0] == dot())
            },
    decreases raw.len(),
{
    if raw.len() > 0 {
        let init = raw.drop_last();
        assert forall|j: int| 0 <= j < init.len() implies !(#[trigger] init[j]).contains('/') by {
            assert(init[j] == raw[j]);
        }
        lemma_pieces(init);
        if init.len() > 0 {
            assert(init[0] == raw[0]);
        }
        assert(raw.last() == raw[raw.len() - 1]);
        let before = pieces_of(init);
        let after = pieces_of(raw);
        assert forall|k: int| 0 <= k < after.len() implies {
            &&& (#[trigger] after[k]).len() > 0
            &&& !after[k].contains('/')
            &&& (after[k] == dot() ==> k == 0 && raw[0] == dot())
        } by {
            if k < before.len() {
                assert(after[k] == before[k]);
            } else {
                assert(after[k] == raw.last());
                if after[k] == dot() {
                    assert(raw.len() == 1);
                    assert(init.len() == 0);
                    assert(before.len() == 0);
                }
            }
        }
    }
}

/// Parts that are all components already are their own components.
proof fn lemma_pieces_fixed(parts: Seq<Seq<char>>)
    requires
        forall|k: int|
            0 <= k < parts.len() ==> (#[trigger] parts[k]).len() > 0 && (k >= 1 ==> parts[k]
                != dot()),
    ensures
        pieces_of(parts) == parts,
    decreases parts.len(),
{
    if parts.len() > 0 {
        let init = parts.drop_last();
        assert forall|k: int| 0 <= k < init.len() implies (#[trigger] init[k]).len() > 0 && (k >= 1
            ==> init[k] != dot()) by {
            assert(init[k] == parts[k]);
        }
        lemma_pieces_fixed(init);
        assert(parts.last() == parts[parts.len() - 1]);
        assert(init.push(parts.last()) == parts);
    }
}

/// An empty part in front of components leaves the components.
proof fn lemma_pieces_after_empty(parts: Seq<Seq<char>>)
    requires
        forall|k: int| 0 <= k < parts.len() ==> (#[trigger] parts[k]).len() > 0 && parts[k] != dot(),
    ensures
        pieces_of(seq![Seq::<char>::empty()] + parts) == parts,
    decreases parts.len(),
{
    let empty = Seq::<char>::empty();
    let all = seq![empty] + parts;
    if parts.len() == 0 {
        assert(all == seq![empty]);
        assert(all.drop_last().len() == 0);
        assert(pieces_of(all.drop_last()).len() == 0);
        assert(pieces_of(all) == parts);
    } else {
        let init = parts.drop_last();
        assert forall|k: int| 0 <= k < init.len() implies (#[trigger] init[k]).len() > 0
            && init[k] != dot() by {
            assert(init[k] == parts[k]);
        }
        lemma_pieces_after_empty(init);
        assert(all.drop_last() == seq![empty] + init);
        assert(all.last() == parts.last());
        assert(parts.last() == parts[parts.len() - 1]);
        assert(init.push(parts.last()) == parts);
    }
}

/// A joined text starts as its first part starts.
proof fn lemma_join_first(parts: Seq<Seq<char>>, sep: char)
    requires
        parts.len() >= 1,
        parts[0].len() > 0,
    ensures
        join_with(parts, sep).len() > 0,
        join_with(parts, sep)[0] == parts[0][0],
    decreases parts.len(),
{
    if parts.len() > 1 {
        lemma_join_first(parts.drop_last(), sep);
    }
}

/// A sanitised component is not empty, holds no separator, and is `.`
/// exactly if the component was.
proof fn lemma_sanitized_piece(part: Seq<char>)
    requires
        part.len() > 0,
        !part.contains('/'),
    ensures
        sanitized_piece(part).len() > 0,
        !sanitized_piece(part).contains('/'),
        sanitized_piece(part) == dot() <==> part == dot(),
        sanitized_piece(part) == dot_dot() <==> part == dot_dot(),
{
    if part != dot() && part != dot_dot() {
        lemma_sanitized_is_safe(part);
        lemma_sanitized_separator(part);
        assert(dot()[0] == '.');
        assert(dot_dot()[0] == '.');
    }
}

/// Reading a sanitised path gives back the sanitised components and the
/// root it was built with.
pub proof fn lemma_sanitized_path_components(p: Seq<char>)
    ensures
        components(sanitized_path(p)) == sanitized_pieces(components(p)),
        is_rooted(sanitized_path(p)) == is_rooted(p),
{
    let empty = Seq::<char>::empty();
    let raw = split_on(p, '/');
    lemma_split_parts(p, '/');
    lemma_pieces(raw);
    let parts = components(p);
    let pieces = sanitized_pieces(parts);
    let q = sanitized_path(p);
    assert forall|k: int| 0 <= k < pieces.len() implies (#[trigger] pieces[k]).len() > 0
        && !pieces[k].contains('/') && (pieces[k] == dot() ==> k == 0 && !is_rooted(p)) by {
        lemma_sanitized_piece(parts[k]);
        if pieces[k] == dot() {
            assert(parts[k] == dot());
            assert(raw[0] == dot());
            assert(dot().len() == 1);
        }
    }
    if pieces.len() == 0 {
        if is_rooted(p) {
            assert(q == seq!['/']);
            lemma_split_leading_separator(empty, '/');
            assert(seq!['/'] + empty == seq!['/']);
            assert(split_on(empty, '/') == seq![empty]);
            lemma_pieces_after_empty(seq![empty].drop_last());
            assert(split_on(q, '/') == seq![empty] + seq![empty]);
            let both = seq![empty] + seq![empty];
            assert(both.drop_last() == seq![empty]);
            assert(seq![empty].drop_last().len() == 0);
            assert(pieces_of(seq![empty].drop_last()).len() == 0);
            assert(pieces_of(seq![empty]).len() == 0);
            assert(pieces_of(both).len() == 0);
            assert(components(q) == pieces);
        } else {
            assert(q == empty);
            assert(split_on(q, '/') == seq![empty]);
            assert(seq![empty].drop_last().len() == 0);
            assert(pieces_of(seq![empty].drop_last()).len() == 0);
            assert(pieces_of(seq![empty]).len() == 0);
            assert(components(q) == pieces);
        }
    } else {
        let body = join_with(pieces, '/');
        lemma_split_join(pieces, '/');
        lemma_join_first(pieces, '/');
        if is_rooted(p) {
            lemma_split_leading_separator(body, '/');
            lemma_pieces_after_empty(pieces);
        } else {
            assert(q == body);
            lemma_pieces_fixed(pieces);
            assert(pieces[0].contains(pieces[0][0]));
        }
    }
}

/// Every sanitised path is a clean path.
pub proof fn lemma_sanitized_path_is_clean(p: Seq<char>)
    ensures
        is_clean_path(sanitized_path(p)),
{
    lemma_components(p);
    lemma_sanitized_path_components(p);
    let parts = components(p);
    let q = sanitized_path(p);
    assert forall|k: int| 0 <= k < components(q).len() implies is_clean_piece(
        #[trigger] components(q)[k],
    ) by {
        assert(components(q)[k] == sanitized_piece(parts[k]));
        if parts[k] != dot() && parts[k] != dot_dot() {
            lemma_sanitized_is_safe(parts[k]);
        }
    }
}

/// The components of a path are not empty and hold no separator.
pub proof fn lemma_components(p: Seq<char>)
    ensures
        forall|k: int|
            0 <= k < components(p).len() ==> (#[trigger] components(p)[k]).len() > 0
                && !components(p)[k].contains('/'),
{
    lemma_split_parts(p, '/');
    lemma_pieces(split_on(p, '/'));
}

/// A clean path is its own sanitised form.
pub proof fn lemma_clean_path_is_fixed(p: Seq<char>)
    requires
        is_clean_path(p),
    ensures
        sanitized_path(p) == p,
{
    let parts = components(p);
    assert forall|k: int| 0 <= k < parts.len() implies sanitized_piece(#[trigger] parts[k])
        == parts[k] by {
        assert(is_clean_piece(parts[k]));
        if parts[k] != dot() && parts[k] != dot_dot() {
            lemma_safe_is_fixed(parts[k]);
        }
    }
    assert(sanitized_pieces(parts) == parts);
}

/// Sanitising a path is a fixed point after one pass: sanitising a
/// sanitised path gives it back, whatever the path was.
pub proof fn lemma_sanitize_path_idempotent(p: Seq<char>)
    ensures
        sanitized_path(sanitized_path(p)) == sanitized_path(p),
{
    lemma_sanitized_path_is_clean(p);
    lemma_clean_path_is_fixed(sanitized_path(p));
}

/// The longest path that is linked to, in UTF-8 bytes.
pub const MAX_PATH_BYTES: usize = 260;

/// Whether the path is longer than the budget of 260 bytes.
pub open spec fn over_budget(p: Seq<char>) -> bool {
    utf8_len(p) > MAX_PATH_BYTES
}

/// Whether the path is longer than the budget of 260 bytes.
pub fn exceeds_budget(p: &Vec<char>) -> (over: bool)
    ensures
        over == over_budget(p@),
{
    exceeds_bytes(p, MAX_PATH_BYTES)
}

/// Whether the path is longer than the budget of 260 bytes, whatever the
/// host allows.
pub fn exceeds_path_budget(path: &str) -> (over: bool)
    ensures
        over == over_budget(path@),
{
    let chars = chars_of(path);
    exceeds_budget(&chars)
}

/// The last component of `p`, if `p` has one and it names something: not
/// `.` and not `..`.
pub open spec fn file_name(p: Seq<char>) -> Option<Seq<char>> {
    let parts = components(p);
    if parts.len() > 0 && parts.last() != dot() && parts.last() != dot_dot() {
        Some(parts.last())
    } else {
        None
    }
}

/// The path without its last component, if it has a component.
pub open spec fn parent(p: Seq<char>) -> Option<Seq<char>> {
    let parts = components(p);
    if parts.len() > 0 {
        Some(path_of(is_rooted(p), parts.drop_last()))
    } else {
        None
    }
}

/// `rel` seen from `base`: `rel` itself if it is rooted or `base` is empty,
/// else `base`, a separator unless `base` ends in one, and `rel`.
pub open spec fn joined(base: Seq<char>, rel: Seq<char>) -> Seq<char> {
    if is_rooted(rel) || base.len() == 0 {
        rel
    } else if base.last() == '/' {
        base + rel
    } else {
        base.push('/') + rel
    }
}

/// `p` with its file name replaced by `name`; where `p` has no file name,
/// `name` seen from `p`.
pub open spec fn with_file_name(p: Seq<char>, name: Seq<char>) -> Seq<char> {
    if file_name(p) is Some {
        joined(parent(p).unwrap(), name)
    } else {
        joined(p, name)
    }
}

/// The position of the last `c` in `s`, or -1 if there is none.
pub open spec fn last_index_of(s: Seq<char>, c: char) -> int
    decreases s.len(),
{
    if s.len() == 0 {
        -1
    } else if s.last() == c {
        s.len() - 1
    } else {
        last_index_of(s.drop_last(), c)
    }
}

/// Whether the file name `name` splits into a stem and an extension: it
/// does at its last dot, unless that dot is its first character or the name
/// is `..`.
pub open spec fn has_extension(name: Seq<char>) -> bool {
    last_index_of(name, '.') > 0 && name != dot_dot()
}

/// The file name without its extension; the whole name if it has none.
pub open spec fn stem_of(name: Seq<char>) -> Seq<char> {
    if has_extension(name) {
        name.take(last_index_of(name, '.'))
    } else {
        name
    }
}

/// What follows the last dot of the file name, if the name has an
/// extension. A name that ends in a dot has the empty extension.
pub open spec fn extension_of(name: Seq<char>) -> Option<Seq<char>> {
    if has_extension(name) {
        Some(name.skip(last_index_of(name, '.') + 1))
    } else {
        None
    }
}

/// The position of the last `c`, if there is one.
pub fn find_last(s: &Vec<char>, c: char) -> (at: Option<usize>)
    ensures
        match at {
            Some(i) => i == last_index_of(s@, c),
            None => last_index_of(s@, c) == -1,
        },
{
    let mut end: usize = s.len();
    proof {
        assert(s@.take(end as int) == s@);
    }
    while end > 0
        invariant
            end <= s.len(),
            last_index_of(s@, c) == last_index_of(s@.take(end as int), c),
        decreases end,
    {
        proof {
            assert(s@.take(end as int).drop_last() == s@.take(end - 1));
        }
        if s[end - 1] == c {
            return Some(end - 1);
        }
        end = end - 1;
    }
    None
}

/// The stem and the extension of a file name.
pub fn split_extension(name: &Vec<char>) -> (parts: (Vec<char>, Option<Vec<char>>))
    ensures
        parts.0@ == stem_of(name@),
        match parts.1 {
            Some(ext) => extension_of(name@) == Some(ext@),
            None => extension_of(name@) is None,
        },
{
    proof {
        lemma_last_index(name@, '.');
    }
    match find_last(name, '.') {
        Some(i) => {
            if i == 0 || is_dot_dot(name) {
                (copy_chars(name), None)
            } else {
                (slice_chars(name, 0, i), Some(slice_chars(name, i + 1, name.len())))
            }
        },
        None => (copy_chars(name), None),
    }
}

/// The last position of a character is a position in the text.
proof fn lemma_last_index(s: Seq<char>, c: char)
    ensures
        -1 <= last_index_of(s, c) < s.len(),
        last_index_of(s, c) >= 0 ==> s[last_index_of(s, c)] == c,
    decreases s.len(),
{
    if s.len() > 0 && s.last() != c {
        lemma_last_index(s.drop_last(), c);
    }
}

/// The file name of the path, if it has one.
pub fn file_name_chars(p: &Vec<char>) -> (name: Option<Vec<char>>)
    ensures
        match name {
            Some(n) => file_name(p@) == Some(n@),
            None => file_name(p@) is None,
        },
{
    let mut parts = path_components(p);
    let ghost all = texts(parts@);
    match parts.pop() {
        Some(last) => {
            proof {
                assert(all.last() == last@);
            }
            if is_dot(&last) || is_dot_dot(&last) {
                None
            } else {
                Some(last)
            }
        },
        None => None,
    }
}

/// The path without its last component, if it has a component.
pub fn parent_chars(p: &Vec<char>) -> (dir: Option<Vec<char>>)
    ensures
        match dir {
            Some(d) => parent(p@) == Some(d@),
            None => parent(p@) is None,
        },
{
    let mut parts = path_components(p);
    let ghost all = texts(parts@);
    match parts.pop() {
        Some(_last) => {
            proof {
                assert(texts(parts@) == all.drop_last());
            }
            Some(build_path(starts_at_root(p), &parts))
        },
        None => None,
    }
}

/// `rel` seen from `base`.
pub fn join_paths(base: &Vec<char>, rel: &Vec<char>) -> (out: Vec<char>)
    ensures
        out@ == joined(base@, rel@),
{
    if starts_at_root(rel) || base.len() == 0 {
        return copy_chars(rel);
    }
    let mut out = copy_chars(base);
    if base[base.len() - 1] != '/' {
        out.push('/');
    }
    push_all(&mut out, rel);
    out
}

/// `p` with its file name replaced by `name`.
pub fn replace_file_name(p: &Vec<char>, name: &Vec<char>) -> (out: Vec<char>)
    ensures
        out@ == with_file_name(p@, name@),
{
    match file_name_chars(p) {
        Some(_old) => {
            match parent_chars(p) {
                Some(dir) => join_paths(&dir, name),
                None => join_paths(p, name),
            }
        },
        None => join_paths(p, name),
    }
}

} // verus!
