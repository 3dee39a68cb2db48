//! Lexical normalisation of repository-relative path references.
//!
//! A reference is trimmed, percent-decoded and resolved segment by segment;
//! it is refused when it is absolute, uses a non-portable separator or
//! prefix, is badly encoded, or climbs above the repository root.

use vstd::prelude::*;
use vstd::utf8::{decode_utf8, encode_utf8, valid_utf8};
use vstd::string::StringSliceAdditionalSpecFns;
use crate::text::{chars_of, contains_char, equals_str, has_char, string_of, trim, trimmed};

verus! {

#[derive(Debug, Clone, Copy, PartialEq, Eq, Structural)]
pub enum RepositoryPathRejectReason {
    Absolute,
    EscapesRepository,
    InvalidPercentEncoding,
    InvalidUtf8,
    NonPortableSeparator,
    NonPortablePrefix,
    SymlinkEscape,
}

#[derive(Debug, Clone, Copy, PartialEq, Eq, Structural)]
pub enum RepositoryPathUnknownReason {
    RootUnavailable,
    ProbeFailed,
}

/// What a filesystem probe found for a normalised reference.
#[derive(Debug, Clone, PartialEq, Eq)]
pub enum RepositoryPathResolution {
    Present(String),
    Missing(String),
    Rejected(RepositoryPathRejectReason),
    Unknown(RepositoryPathUnknownReason),
}

/// The value of an ASCII hexadecimal digit.
pub open spec fn hex_value(b: u8) -> Option<u8> {
    if 0x30 <= b && b <= 0x39 {
        Some((b - 0x30) as u8)
    } else if 0x61 <= b && b <= 0x66 {
        Some((b - 0x61 + 10) as u8)
    } else if 0x41 <= b && b <= 0x46 {
        Some((b - 0x41 + 10) as u8)
    } else {
        None
    }
}

/// Percent-decoding of a byte sequence: each `%` must be followed by two
/// hexadecimal digits, which stand for one byte; `None` otherwise.
pub open spec fn percent_decoded(b: Seq<u8>) -> Option<Seq<u8>>
    decreases b.len(),
{
    if b.len() == 0 {
        Some(Seq::<u8>::empty())
    } else if b[0] != 0x25 {
        match percent_decoded(b.drop_first()) {
            Some(rest) => Some(seq![b[0]] + rest),
            None => None,
        }
    } else if b.len() < 3 {
        None
    } else {
        match (hex_value(b[1]), hex_value(b[2])) {
            (Some(high), Some(low)) => match percent_decoded(b.subrange(3, b.len() as int)) {
                Some(rest) => Some(seq![(high * 16 + low) as u8] + rest),
                None => None,
            },
            _ => None,
        }
    }
}

/// `s.split(sep)`: the pieces of `s` between separators, in order (one empty
/// piece for the empty sequence).
pub open spec fn split_on(s: Seq<char>, sep: char) -> Seq<Seq<char>>
    decreases s.len(),
{
    if s.len() == 0 {
        seq![Seq::<char>::empty()]
    } else {
        let prev = split_on(s.drop_last(), sep);
        if s.last() == sep {
            prev.push(Seq::<char>::empty())
        } else {
            prev.update(prev.len() - 1, prev.last().push(s.last()))
        }
    }
}

/// Resolves `.`, `..` and empty segments from left to right; `None` when a
/// `..` would climb above the start.
pub open spec fn resolve_segments(segs: Seq<Seq<char>>) -> Option<Seq<Seq<char>>>
    decreases segs.len(),
{
    if segs.len() == 0 {
        Some(Seq::<Seq<char>>::empty())
    } else {
        match resolve_segments(segs.drop_last()) {
            None => None,
            Some(stack) => {
                let seg = segs.last();
                if seg.len() == 0 || seg == seq!['.'] {
                    Some(stack)
                } else if seg == seq!['.', '.'] {
                    if stack.len() == 0 {
                        None
                    } else {
                        Some(stack.drop_last())
                    }
                } else {
                    Some(stack.push(seg))
                }
            },
        }
    }
}

/// Segments joined with `/`.
pub open spec fn join_segments(segs: Seq<Seq<char>>) -> Seq<char>
    decreases segs.len(),
{
    if segs.len() == 0 {
        Seq::<char>::empty()
    } else if segs.len() == 1 {
        segs[0]
    } else {
        join_segments(segs.drop_last()) + seq!['/'] + segs.last()
    }
}

/// What `percent_decode` gives for the bytes of a reference.
pub open spec fn percent_decode_result(bytes: Seq<u8>) -> Result<Seq<char>, RepositoryPathRejectReason> {
    match percent_decoded(bytes) {
        None => Err(RepositoryPathRejectReason::InvalidPercentEncoding),
        Some(decoded) => if valid_utf8(decoded) {
            Ok(decode_utf8(decoded))
        } else {
            Err(RepositoryPathRejectReason::InvalidUtf8)
        },
    }
}

/// The normal form of a repository-relative reference, or why it is refused.
pub open spec fn normalized_path(raw: Seq<char>) -> Result<Seq<char>, RepositoryPathRejectReason> {
    let t = trim(raw);
    if t.len() == 0 || t[0] == '/' {
        Err(RepositoryPathRejectReason::Absolute)
    } else if has_char(t, '\\') {
        Err(RepositoryPathRejectReason::NonPortableSeparator)
    } else {
        match percent_decode_result(encode_utf8(t)) {
            Err(reason) => Err(reason),
            Ok(d) => if (d.len() > 0 && d[0] == '/') || has_char(d, '\\') {
                Err(RepositoryPathRejectReason::NonPortableSeparator)
            } else if has_char(d, ':') || has_char(d, '\0') {
                Err(RepositoryPathRejectReason::NonPortablePrefix)
            } else {
                match resolve_segments(split_on(d, '/')) {
                    None => Err(RepositoryPathRejectReason::EscapesRepository),
                    Some(stack) => if stack.len() == 0 {
                        Ok(seq!['.'])
                    } else {
                        Ok(join_segments(stack))
                    },
                }
            },
        }
    }
}

pub open spec fn views(v: Seq<Vec<char>>) -> Seq<Seq<char>> {
    v.map_values(|x: Vec<char>| x@)
}

pub proof fn lemma_split_nonempty(s: Seq<char>, sep: char)
    ensures
        split_on(s, sep).len() >= 1,
    decreases s.len(),
{
    if s.len() > 0 {
        lemma_split_nonempty(s.drop_last(), sep);
    }
}

proof fn lemma_resolve_none_extends(segs: Seq<Seq<char>>, k: int)
    requires
        0 <= k <= segs.len(),
        resolve_segments(segs.subrange(0, k)) is None,
    ensures
        resolve_segments(segs) is None,
    decreases segs.len() - k,
{
    if k < segs.len() {
        assert(segs.subrange(0, k + 1).drop_last() =~= segs.subrange(0, k));
        lemma_resolve_none_extends(segs, k + 1);
    } else {
        assert(segs.subrange(0, k) =~= segs);
    }
}

/// `hex_value(value)`, or `InvalidPercentEncoding`.
pub fn decode_hex(value: u8) -> (r: Result<u8, RepositoryPathRejectReason>)
    ensures
        match hex_value(value) {
            Some(v) => r == Ok::<u8, RepositoryPathRejectReason>(v),
            None => r == Err::<u8, RepositoryPathRejectReason>(
                RepositoryPathRejectReason::InvalidPercentEncoding,
            ),
        },
{
    if 0x30 <= value && value <= 0x39 {
        Ok(value - 0x30)
    } else if 0x61 <= value && value <= 0x66 {
        Ok(value - 0x61 + 10)
    } else if 0x41 <= value && value <= 0x46 {
        Ok(value - 0x41 + 10)
    } else {
        Err(RepositoryPathRejectReason::InvalidPercentEncoding)
    }
}

/// Percent-decodes the bytes of `raw` and reads the result as UTF-8.
pub fn percent_decode(raw: &str) -> (r: Result<String, RepositoryPathRejectReason>)
    ensures
        match percent_decode_result(raw.spec_bytes()) {
            Ok(d) => r matches Ok(s) && s@ == d,
            Err(e) => r == Err::<String, RepositoryPathRejectReason>(e),
        },
{
    let bytes = raw.as_bytes();
    let ghost b = bytes@;
    let mut decoded: Vec<u8> = Vec::new();
    let mut cursor: usize = 0;
    assert(b.subrange(0, b.len() as int) =~= b);
    while cursor < bytes.len()
        invariant
            b == bytes@,
            b == raw.spec_bytes(),
            cursor <= bytes.len(),
            percent_decoded(b) == match percent_decoded(b.subrange(cursor as int, b.len() as int)) {
                Some(rest) => Some(decoded@ + rest),
                None => None::<Seq<u8>>,
            },
        decreases bytes.len() - cursor,
    {
        let ghost tail = b.subrange(cursor as int, b.len() as int);
        if bytes[cursor] != 0x25 {
            assert(tail.drop_first() =~= b.subrange(cursor + 1, b.len() as int));
            let ghost before = decoded@;
            decoded.push(bytes[cursor]);
            cursor = cursor + 1;
            assert(forall|rest: Seq<u8>| before + (seq![tail[0]] + rest) =~= decoded@ + rest);
        } else {
            if bytes.len() - cursor < 3 {
                return Err(RepositoryPathRejectReason::InvalidPercentEncoding);
            }
            let high = match decode_hex(bytes[cursor + 1]) {
                Ok(v) => v,
                Err(e) => { return Err(e); },
            };
            let low = match decode_hex(bytes[cursor + 2]) {
                Ok(v) => v,
                Err(e) => { return Err(e); },
            };
            assert(tail.subrange(3, tail.len() as int) =~= b.subrange(cursor + 3, b.len() as int));
            let ghost before = decoded@;
            decoded.push(high * 16 + low);
            cursor = cursor + 3;
            assert(forall|rest: Seq<u8>|
                before + (seq![(high * 16 + low) as u8] + rest) =~= decoded@ + rest);
        }
    }
    assert(b.subrange(cursor as int, b.len() as int) =~= Seq::<u8>::empty());
    assert(decoded@ + Seq::<u8>::empty() =~= decoded@);
    match crate::utf8::decode_bytes(decoded) {
        Some(s) => Ok(s),
        None => Err(RepositoryPathRejectReason::InvalidUtf8),
    }
}

/// `split_on(s, sep)`.
pub fn split_segments(s: &[char], sep: char) -> (out: Vec<Vec<char>>)
    ensures
        views(out@) == split_on(s@, sep),
{
    let mut done: Vec<Vec<char>> = Vec::new();
    let mut cur: Vec<char> = Vec::new();
    let mut i: usize = 0;
    while i < s.len()
        invariant
            i <= s.len(),
            split_on(s@.subrange(0, i as int), sep) == views(done@).push(cur@),
        decreases s.len() - i,
    {
        let ghost pre = s@.subrange(0, i as int);
        assert(s@.subrange(0, i + 1).drop_last() =~= pre);
        if s[i] == sep {
            done.push(cur);
            cur = Vec::new();
            assert(views(done@).push(cur@) =~= split_on(pre, sep).push(Seq::<char>::empty()));
        } else {
            let ghost old_cur = cur@;
            cur.push(s[i]);
            assert(views(done@).push(cur@) =~= split_on(pre, sep).update(
                split_on(pre, sep).len() - 1,
                old_cur.push(s@[i as int]),
            ));
        }
        i = i + 1;
    }
    assert(s@.subrange(0, s.len() as int) =~= s@);
    done.push(cur);
    assert(views(done@) =~= split_on(s@, sep));
    done
}

/// `resolve_segments(segs)`.
pub fn resolve_path_segments(segs: Vec<Vec<char>>) -> (out: Option<Vec<Vec<char>>>)
    ensures
        match resolve_segments(views(segs@)) {
            Some(stack) => out matches Some(v) && views(v@) == stack,
            None => out is None,
        },
{
    let ghost all = views(segs@);
    let mut stack: Vec<Vec<char>> = Vec::new();
    let mut i: usize = 0;
    assert(all.subrange(0, 0) =~= Seq::<Seq<char>>::empty());
    while i < segs.len()
        invariant
            all == views(segs@),
            i <= segs.len(),
            resolve_segments(all.subrange(0, i as int)) == Some(views(stack@)),
        decreases segs.len() - i,
    {
        assert(all.subrange(0, i + 1).drop_last() =~= all.subrange(0, i as int));
        assert(all.subrange(0, i + 1).last() == segs@[i as int]@);
        let seg = &segs[i];
        let dot = equals_str(seg.as_slice(), ".");
        let dotdot = equals_str(seg.as_slice(), "..");
        proof {
            reveal_strlit(".");
            reveal_strlit("..");
            assert("."@ =~= seq!['.']);
            assert(".."@ =~= seq!['.', '.']);
            assert(dot == (seg@ == seq!['.']));
            assert(dotdot == (seg@ == seq!['.', '.']));
        }
        if seg.len() == 0 || dot {
        } else if dotdot {
            if stack.len() == 0 {
                proof { lemma_resolve_none_extends(all, i + 1); }
                return None;
            }
            let ghost before = views(stack@);
            stack.pop();
            assert(views(stack@) =~= before.drop_last());
        } else {
            let ghost before = views(stack@);
            stack.push(seg.clone());
            assert(views(stack@) =~= before.push(seg@));
        }
        i = i + 1;
    }
    assert(all.subrange(0, segs.len() as int) =~= all);
    Some(stack)
}

/// `join_segments(segs)`.
pub fn join_path_segments(segs: &Vec<Vec<char>>) -> (out: Vec<char>)
    ensures
        out@ == join_segments(views(segs@)),
{
    let ghost all = views(segs@);
    let mut out: Vec<char> = Vec::new();
    let mut i: usize = 0;
    assert(all.subrange(0, 0) =~= Seq::<Seq<char>>::empty());
    while i < segs.len()
        invariant
            all == views(segs@),
            i <= segs.len(),
            out@ == join_segments(all.subrange(0, i as int)),
        decreases segs.len() - i,
    {
        let ghost pre = all.subrange(0, i as int);
        assert(all.subrange(0, i + 1).drop_last() =~= pre);
        assert(all.subrange(0, i + 1).last() == segs@[i as int]@);
        if i > 0 {
            out.push('/');
        }
        let seg = &segs[i];
        let mut j: usize = 0;
        let ghost base = out@;
        while j < seg.len()
            invariant
                j <= seg.len(),
                out@ == base + seg@.subrange(0, j as int),
            decreases seg.len() - j,
        {
            out.push(seg[j]);
            j = j + 1;
            assert(out@ =~= base + seg@.subrange(0, j as int));
        }
        assert(seg@.subrange(0, seg.len() as int) =~= seg@);
        proof {
            if i == 0 {
                assert(all.subrange(0, 1) =~= seq![seg@]);
                assert(out@ =~= seg@);
            }
        }
        i = i + 1;
    }
    assert(all.subrange(0, segs.len() as int) =~= all);
    out
}

/// Normalises a repository-relative reference lexically: `normalized_path`.
pub fn normalize_repository_path(raw: &str) -> (r: Result<String, RepositoryPathRejectReason>)
    ensures
        match normalized_path(raw@) {
            Ok(p) => r matches Ok(s) && s@ == p,
            Err(e) => r == Err::<String, RepositoryPathRejectReason>(e),
        },
{
    let raw_chars = chars_of(raw);
    let t = trimmed(raw_chars.as_slice());
    if t.len() == 0 || t[0] == '/' {
        return Err(RepositoryPathRejectReason::Absolute);
    }
    if contains_char(t.as_slice(), '\\') {
        return Err(RepositoryPathRejectReason::NonPortableSeparator);
    }
    let t_string = string_of(t.as_slice());
    let decoded = match percent_decode(t_string.as_str()) {
        Ok(s) => s,
        Err(e) => { return Err(e); },
    };
    let d = chars_of(decoded.as_str());
    if (d.len() > 0 && d[0] == '/') || contains_char(d.as_slice(), '\\') {
        return Err(RepositoryPathRejectReason::NonPortableSeparator);
    }
    if contains_char(d.as_slice(), ':') || contains_char(d.as_slice(), '\0') {
        return Err(RepositoryPathRejectReason::NonPortablePrefix);
    }
    let segs = split_segments(d.as_slice(), '/');
    match resolve_path_segments(segs) {
        None => Err(RepositoryPathRejectReason::EscapesRepository),
        Some(stack) => {
            if stack.len() == 0 {
                let dot: Vec<char> = vec!['.'];
                assert(dot@ =~= seq!['.']);
                Ok(string_of(dot.as_slice()))
            } else {
                let joined = join_path_segments(&stack);
                Ok(string_of(joined.as_slice()))
            }
        },
    }
}


/// A path segment that names an entry: not empty, `.` or `..`.
pub open spec fn is_named_segment(seg: Seq<char>) -> bool {
    seg.len() > 0 && seg != seq!['.'] && seg != seq!['.', '.']
}

proof fn lemma_split_parts_free(s: Seq<char>, sep: char)
    ensures
        forall|k: int| 0 <= k < split_on(s, sep).len() ==> !has_char(#[trigger] split_on(s, sep)[k], sep),
    decreases s.len(),
{
    lemma_split_nonempty(s, sep);
    if s.len() > 0 {
        lemma_split_parts_free(s.drop_last(), sep);
        lemma_split_nonempty(s.drop_last(), sep);
        let prev = split_on(s.drop_last(), sep);
        if s.last() != sep {
            let grown = prev.last().push(s.last());
            assert(!has_char(prev[prev.len() - 1], sep));
            assert forall|i: int| 0 <= i < grown.len() implies grown[i] != sep by {
                if i < grown.len() - 1 {
                    assert(grown[i] == prev.last()[i]);
                }
            }
        }
    }
}

proof fn lemma_resolve_named(segs: Seq<Seq<char>>, sep: char)
    requires
        forall|k: int| 0 <= k < segs.len() ==> !has_char(#[trigger] segs[k], sep),
    ensures
        resolve_segments(segs) matches Some(stack) ==> forall|k: int| 0 <= k < stack.len()
            ==> is_named_segment(#[trigger] stack[k]) && !has_char(stack[k], sep),
    decreases segs.len(),
{
    if segs.len() > 0 {
        assert forall|k: int| 0 <= k < segs.drop_last().len() implies !has_char(#[trigger] segs.drop_last()[k], sep) by {
            assert(segs.drop_last()[k] == segs[k]);
        }
        lemma_resolve_named(segs.drop_last(), sep);
        assert(!has_char(segs[segs.len() - 1], sep));
    }
}

proof fn lemma_split_single(s: Seq<char>, sep: char)
    requires
        !has_char(s, sep),
    ensures
        split_on(s, sep) == seq![s],
    decreases s.len(),
{
    if s.len() > 0 {
        assert(!has_char(s.drop_last(), sep)) by {
            assert forall|i: int| 0 <= i < s.drop_last().len() implies s.drop_last()[i] != sep by {
                assert(s.drop_last()[i] == s[i]);
            }
        }
        lemma_split_single(s.drop_last(), sep);
        assert(s[s.len() - 1] != sep);
        assert(s.drop_last().push(s.last()) =~= s);
    } else {
        assert(s =~= Seq::<char>::empty());
    }
}

proof fn lemma_split_append(a: Seq<char>, b: Seq<char>, sep: char)
    requires
        !has_char(b, sep),
    ensures
        split_on(a + seq![sep] + b, sep) == split_on(a, sep).push(b),
    decreases b.len(),
{
    let s = a + seq![sep] + b;
    if b.len() == 0 {
        assert(s.drop_last() =~= a);
        assert(b =~= Seq::<char>::empty());
    } else {
        assert(s.drop_last() =~= a + seq![sep] + b.drop_last());
        assert(!has_char(b.drop_last(), sep)) by {
            assert forall|i: int| 0 <= i < b.drop_last().len() implies b.drop_last()[i] != sep by {
                assert(b.drop_last()[i] == b[i]);
            }
        }
        lemma_split_append(a, b.drop_last(), sep);
        assert(s.last() == b.last());
        assert(b[b.len() - 1] != sep);
        let prev = split_on(a, sep).push(b.drop_last());
        assert(b.drop_last().push(b.last()) =~= b);
        assert(prev.last() == b.drop_last());
        assert(prev.update(prev.len() - 1, prev.last().push(s.last())) =~= split_on(a, sep).push(b));
    }
}

proof fn lemma_split_join(stack: Seq<Seq<char>>, sep: char)
    requires
        stack.len() > 0,
        forall|k: int| 0 <= k < stack.len() ==> !has_char(#[trigger] stack[k], sep),
    ensures
        split_on(join_segments(stack), '/') == stack || sep != '/',
    decreases stack.len(),
{
    if sep == '/' {
        if stack.len() == 1 {
            lemma_split_single(stack[0], sep);
            assert(seq![stack[0]] =~= stack);
        } else {
            assert forall|k: int| 0 <= k < stack.drop_last().len() implies !has_char(#[trigger] stack.drop_last()[k], sep) by {
                assert(stack.drop_last()[k] == stack[k]);
            }
            lemma_split_join(stack.drop_last(), sep);
            assert(!has_char(stack[stack.len() - 1], sep));
            lemma_split_append(join_segments(stack.drop_last()), stack.last(), sep);
            assert(stack.drop_last().push(stack.last()) =~= stack);
        }
    }
}

proof fn lemma_join_first(stack: Seq<Seq<char>>)
    requires
        stack.len() > 0,
        stack[0].len() > 0,
    ensures
        join_segments(stack).len() > 0,
        join_segments(stack)[0] == stack[0][0],
    decreases stack.len(),
{
    if stack.len() > 1 {
        lemma_join_first(stack.drop_last());
    }
}

/// A normalised repository path stays inside the repository: it is `.` or
/// a `/`-joined path of named segments (none empty, `.` or `..`), and it
/// never starts with `/`.
pub proof fn lemma_normalized_path_stays_inside(raw: Seq<char>)
    ensures
        normalized_path(raw) matches Ok(p) ==> {
            &&& p.len() > 0
            &&& p[0] != '/'
            &&& (p == seq!['.'] || forall|k: int| 0 <= k < split_on(p, '/').len()
                ==> is_named_segment(#[trigger] split_on(p, '/')[k]))
        },
{
    if normalized_path(raw) is Ok {
        let t = trim(raw);
        let d = percent_decode_result(encode_utf8(t))->Ok_0;
        let segs = split_on(d, '/');
        lemma_split_parts_free(d, '/');
        lemma_resolve_named(segs, '/');
        let stack = resolve_segments(segs)->Some_0;
        if stack.len() > 0 {
            lemma_split_join(stack, '/');
            assert(is_named_segment(stack[0]));
            lemma_join_first(stack);
            assert(!has_char(stack[0], '/'));
            assert(stack[0][0] != '/');
        }
    }
}

} // verus!
