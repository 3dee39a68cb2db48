//! Profile signals: the blended rank score, the labels that speak to a
//! repository's purpose, and the word and path matches behind signals.

use vstd::prelude::*;
use crate::fs::containment::{split_on, split_segments, views};
use crate::text::{
    ascii_lower, chars_of, char_is_ascii_alphanumeric, equals_str, has_char, has_suffix,
    is_ascii_alphanumeric, same_chars, slice_of, to_ascii_lower,
};

verus! {

pub open spec fn rank_score(prior_weight_x100: u8, evidence_score_x100: u8, score_x100: u8) -> u8 {
    let total = prior_weight_x100 * 15 / 100 + evidence_score_x100 * 55 / 100 + score_x100 * 30 / 100;
    if total > 100 { 100 } else { total as u8 }
}

/// The rank of a profile: 15% prior weight, 55% evidence, 30% score, each
/// rounded down, capped at 100.
pub fn profile_rank_score(prior_weight_x100: u8, evidence_score_x100: u8, score_x100: u8) -> (r: u8)
    ensures
        r == rank_score(prior_weight_x100, evidence_score_x100, score_x100),
{
    let prior_component = (prior_weight_x100 as u32) * 15 / 100;
    let evidence_component = (evidence_score_x100 as u32) * 55 / 100;
    let score_component = (score_x100 as u32) * 30 / 100;
    let total = prior_component.saturating_add(evidence_component).saturating_add(score_component);
    if total > 100 {
        100
    } else {
        total as u8
    }
}

/// The signal labels that speak to what a repository is for.
pub open spec fn purpose_labels() -> Seq<Seq<char>> {
    seq![
        "package manifest"@, "examples or API wording"@, "binary or command path"@,
        "deployment or infra path"@, "app or product wording"@, "runtime or compiler path"@,
        "docs directory"@, "spec or guide wording"@, "examples or tutorial path"@,
        "model data or paper path"@, "research artifact path"@, "template or action path"@,
    ]
}

/// Whether a signal label speaks to a repository's purpose.
pub fn is_purpose_signal(label: &str) -> (r: bool)
    ensures
        r == purpose_labels().contains(label@),
{
    let labels: Vec<&'static str> = vec![
        "package manifest", "examples or API wording", "binary or command path",
        "deployment or infra path", "app or product wording", "runtime or compiler path",
        "docs directory", "spec or guide wording", "examples or tutorial path",
        "model data or paper path", "research artifact path", "template or action path",
    ];
    assert(labels@.map_values(|s: &str| s@) =~= purpose_labels());
    let l = chars_of(label);
    let mut i: usize = 0;
    while i < labels.len()
        invariant
            i <= labels.len(),
            labels@.map_values(|s: &str| s@) == purpose_labels(),
            l@ == label@,
            forall|k: int| 0 <= k < i ==> purpose_labels()[k] != label@,
        decreases labels.len() - i,
    {
        if equals_str(l.as_slice(), labels[i]) {
            assert(purpose_labels()[i as int] == label@);
            return true;
        }
        assert(purpose_labels()[i as int] == labels@[i as int]@);
        i = i + 1;
    }
    false
}

/// `s` without its leading `c`s.
pub open spec fn strip_leading(s: Seq<char>, c: char) -> Seq<char>
    decreases s.len(),
{
    if s.len() > 0 && s[0] == c {
        strip_leading(s.drop_first(), c)
    } else {
        s
    }
}

/// `s` without its trailing `c`s.
pub open spec fn strip_trailing(s: Seq<char>, c: char) -> Seq<char>
    decreases s.len(),
{
    if s.len() > 0 && s.last() == c {
        strip_trailing(s.drop_last(), c)
    } else {
        s
    }
}

/// `str::trim_matches(c)`.
pub open spec fn trim_matching(s: Seq<char>, c: char) -> Seq<char> {
    strip_trailing(strip_leading(s, c), c)
}

/// `trim_matching(s, c)`.
pub fn trim_matches_char(s: &[char], c: char) -> (out: Vec<char>)
    ensures
        out@ == trim_matching(s@, c),
{
    let mut start: usize = 0;
    assert(s@.subrange(0, s.len() as int) =~= s@);
    while start < s.len() && s[start] == c
        invariant
            start <= s.len(),
            strip_leading(s@, c) == strip_leading(s@.subrange(start as int, s.len() as int), c),
        decreases s.len() - start,
    {
        assert(s@.subrange(start as int, s.len() as int).drop_first() =~= s@.subrange(start + 1, s.len() as int));
        start = start + 1;
    }
    let ghost lead = s@.subrange(start as int, s.len() as int);
    proof {
        if lead.len() > 0 {
            assert(lead[0] == s@[start as int]);
        }
    }
    assert(strip_leading(s@, c) == lead);
    let mut end: usize = s.len();
    assert(lead.subrange(0, lead.len() as int) =~= lead);
    while end > start && s[end - 1] == c
        invariant
            start <= end <= s.len(),
            lead == s@.subrange(start as int, s.len() as int),
            strip_trailing(lead, c) == strip_trailing(s@.subrange(start as int, end as int), c),
        decreases end - start,
    {
        assert(s@.subrange(start as int, end as int).drop_last() =~= s@.subrange(start as int, end - 1));
        end = end - 1;
    }
    proof {
        let t = s@.subrange(start as int, end as int);
        if t.len() > 0 {
            assert(t.last() == s@[end - 1]);
        }
    }
    slice_of(s, start, end)
}

/// A maximal run of ASCII letters and digits spans `i..j` of `v`.
pub open spec fn word_at(v: Seq<char>, i: int, j: int) -> bool {
    &&& 0 <= i < j <= v.len()
    &&& (i == 0 || !is_ascii_alphanumeric(v[i - 1]))
    &&& (j == v.len() || !is_ascii_alphanumeric(v[j]))
    &&& forall|k: int| i <= k < j ==> is_ascii_alphanumeric(#[trigger] v[k])
}

/// Some word of `value`, lower-cased, is the lower-cased needle (its `/`s
/// trimmed from both ends).
pub open spec fn has_signal_word(value: Seq<char>, needle: Seq<char>) -> bool {
    exists|i: int, j: int| word_at(value, i, j)
        && #[trigger] ascii_lower(value.subrange(i, j)) == ascii_lower(trim_matching(needle, '/'))
}

pub open spec fn str_views(v: Seq<&str>) -> Seq<Seq<char>> {
    v.map_values(|s: &str| s@)
}

/// Some needle is a word of `value`, ignoring ASCII case.
pub open spec fn contains_signal_spec(value: Seq<char>, needles: Seq<Seq<char>>) -> bool {
    exists|k: int| 0 <= k < needles.len() && has_signal_word(value, #[trigger] needles[k])
}

/// The end of the run of ASCII letters and digits starting at `i`.
fn word_end(v: &[char], i: usize) -> (j: usize)
    requires
        i <= v.len(),
    ensures
        i <= j <= v.len(),
        forall|k: int| i <= k < j ==> is_ascii_alphanumeric(#[trigger] v@[k]),
        j == v.len() || !is_ascii_alphanumeric(v@[j as int]),
{
    let mut j = i;
    while j < v.len() && char_is_ascii_alphanumeric(v[j])
        invariant
            i <= j <= v.len(),
            forall|k: int| i <= k < j ==> is_ascii_alphanumeric(#[trigger] v@[k]),
        decreases v.len() - j,
    {
        j = j + 1;
    }
    j
}

/// Two maximal runs that start together end together.
proof fn lemma_word_unique(v: Seq<char>, i: int, j: int, j2: int)
    requires
        word_at(v, i, j),
        word_at(v, i, j2),
    ensures
        j == j2,
{
    if j < j2 {
        assert(is_ascii_alphanumeric(v[j]));
    } else if j2 < j {
        assert(is_ascii_alphanumeric(v[j2]));
    }
}

/// Whether some needle, trimmed of `/` and lower-cased, is a word of
/// `value` (a maximal run of ASCII letters and digits), ignoring case.
pub fn contains_signal(value: &str, needles: &[&str]) -> (r: bool)
    ensures
        r == contains_signal_spec(value@, str_views(needles@)),
{
    let cv = chars_of(value);
    let v = cv.as_slice();
    let mut lowered: Vec<Vec<char>> = Vec::new();
    let mut n: usize = 0;
    while n < needles.len()
        invariant
            n <= needles.len(),
            lowered@.len() == n,
            forall|k: int| 0 <= k < n ==> (#[trigger] lowered@[k])@ == ascii_lower(trim_matching(needles@[k]@, '/')),
        decreases needles.len() - n,
    {
        let nc = chars_of(needles[n]);
        let t = trim_matches_char(nc.as_slice(), '/');
        lowered.push(to_ascii_lower(t.as_slice()));
        n = n + 1;
    }
    let mut i: usize = 0;
    while i < v.len()
        invariant
            cv@ == value@,
            v@ == value@,
            i <= v.len(),
            lowered@.len() == needles@.len(),
            forall|k: int| 0 <= k < needles@.len() ==> (#[trigger] lowered@[k])@ == ascii_lower(trim_matching(needles@[k]@, '/')),
            i == 0 || !is_ascii_alphanumeric(v@[i - 1]) || i == v.len(),
            forall|k: int, a: int, b: int| 0 <= k < needles@.len() && a < i && word_at(v@, a, b) ==>
                #[trigger] ascii_lower(v@.subrange(a, b)) != #[trigger] lowered@[k]@,
        decreases v.len() - i,
    {
        if !char_is_ascii_alphanumeric(v[i]) {
            proof {
                assert forall|k: int, a: int, b: int| 0 <= k < needles@.len() && a < i + 1 && word_at(v@, a, b) implies
                    #[trigger] ascii_lower(v@.subrange(a, b)) != #[trigger] lowered@[k]@ by {
                    if a == i {
                        assert(is_ascii_alphanumeric(v@[a]));
                    }
                }
            }
            i = i + 1;
        } else {
            let j = word_end(v, i);
            let word = to_ascii_lower(slice_of(v, i, j).as_slice());
            assert(word_at(v@, i as int, j as int));
            let mut k: usize = 0;
            while k < lowered.len()
                invariant
                    k <= lowered.len(),
                    lowered@.len() == needles@.len(),
                    v@ == value@,
                    word_at(value@, i as int, j as int),
                    forall|m: int| 0 <= m < needles@.len() ==> (#[trigger] lowered@[m])@ == ascii_lower(trim_matching(needles@[m]@, '/')),
                    word@ == ascii_lower(v@.subrange(i as int, j as int)),
                    forall|m: int| 0 <= m < k ==> word@ != (#[trigger] lowered@[m])@,
                decreases lowered.len() - k,
            {
                if same_chars(word.as_slice(), lowered[k].as_slice()) {
                    proof {
                        let kk = k as int;
                        assert(word_at(value@, i as int, j as int));
                        assert(ascii_lower(value@.subrange(i as int, j as int)) == ascii_lower(trim_matching(needles@[kk]@, '/')));
                        assert(has_signal_word(value@, needles@[kk]@));
                        assert(str_views(needles@)[kk] == needles@[kk]@);
                    }
                    return true;
                }
                k = k + 1;
            }
            let next = if j < v.len() { j + 1 } else { j };
            proof {
                assert forall|m: int, a: int, b: int| 0 <= m < needles@.len() && a < next && word_at(v@, a, b) implies
                    #[trigger] ascii_lower(v@.subrange(a, b)) != #[trigger] lowered@[m]@ by {
                    if a >= i {
                        if a > i && a < j {
                            assert(is_ascii_alphanumeric(v@[a - 1]));
                        } else if a == j {
                            assert(!is_ascii_alphanumeric(v@[a]));
                        } else if a == i {
                            lemma_word_unique(v@, a, b, j as int);
                        }
                    }
                }
            }
            i = next;
        }
    }
    proof {
        assert forall|k: int| 0 <= k < str_views(needles@).len() implies !has_signal_word(value@, #[trigger] str_views(needles@)[k]) by {
            assert(str_views(needles@)[k] == needles@[k]@);
            if has_signal_word(value@, needles@[k]@) {
                let (a, b) = choose|a: int, b: int| word_at(value@, a, b)
                    && #[trigger] ascii_lower(value@.subrange(a, b)) == ascii_lower(trim_matching(needles@[k]@, '/'));
                assert(ascii_lower(v@.subrange(a, b)) != lowered@[k]@);
            }
        }
    }
    false
}

/// The first `/`-separated segment of a path is not a fixture, test,
/// example, sample, build output, vendored or generated tree.
pub open spec fn primary_artifact(path: Seq<char>) -> bool {
    let first = split_on(path, '/')[0];
    !(first == "fixtures"@ || first == "fixture"@ || first == "tests"@ || first == "test"@
        || first == "examples"@ || first == "example"@ || first == "samples"@ || first == "sample"@
        || first == "target"@ || first == "generated"@ || first == "dist"@ || first == "build"@
        || first == "vendor"@ || first == "node_modules"@)
}

/// `primary_artifact(path)`.
pub fn is_primary_artifact_path(path: &str) -> (r: bool)
    ensures
        r == primary_artifact(path@),
{
    let p = chars_of(path);
    primary_artifact_chars(p.as_slice())
}

/// `primary_artifact(p)`, on characters.
pub fn primary_artifact_chars(p: &[char]) -> (r: bool)
    ensures
        r == primary_artifact(p@),
{
    let segs = split_segments(p, '/');
    proof { crate::fs::containment::lemma_split_nonempty(p@, '/'); }
    assert(views(segs@)[0] == segs@[0]@);
    let f = segs[0].as_slice();
    !(equals_str(f, "fixtures") || equals_str(f, "fixture") || equals_str(f, "tests") || equals_str(f, "test")
        || equals_str(f, "examples") || equals_str(f, "example") || equals_str(f, "samples")
        || equals_str(f, "sample") || equals_str(f, "target") || equals_str(f, "generated")
        || equals_str(f, "dist") || equals_str(f, "build") || equals_str(f, "vendor")
        || equals_str(f, "node_modules"))
}

/// A path matches a signal needle (trimmed of `/`, lower-cased): a needle
/// with a `/` names the whole path or a path suffix after a `/`; any other
/// needle names a segment, or a segment's part before its first `.`.
pub open spec fn path_signal(path: Seq<char>, needle: Seq<char>) -> bool {
    let n = ascii_lower(trim_matching(needle, '/'));
    if has_char(n, '/') {
        path == n || has_suffix(path, seq!['/'] + n)
    } else {
        exists|k: int| 0 <= k < split_on(path, '/').len() && {
            let seg = #[trigger] split_on(path, '/')[k];
            seg == n || split_on(seg, '.')[0] == n
        }
    }
}

/// `path_signal(path, needle)`.
pub fn typed_path_signal(path: &str, needle: &str) -> (r: bool)
    ensures
        r == path_signal(path@, needle@),
{
    let p = chars_of(path);
    path_signal_chars(p.as_slice(), needle)
}

/// `path_signal(p, needle)`, on characters.
pub fn path_signal_chars(p: &[char], needle: &str) -> (r: bool)
    ensures
        r == path_signal(p@, needle@),
{
    let nc = chars_of(needle);
    let t = trim_matches_char(nc.as_slice(), '/');
    let n = to_ascii_lower(t.as_slice());
    if crate::text::contains_char(n.as_slice(), '/') {
        if same_chars(p, n.as_slice()) {
            return true;
        }
        let mut suffix: Vec<char> = Vec::new();
        suffix.push('/');
        let mut rest = n.clone();
        suffix.append(&mut rest);
        assert(suffix@ =~= seq!['/'] + n@);
        return crate::text::ends_with(p, suffix.as_slice());
    }
    let segs = split_segments(p, '/');
    let mut k: usize = 0;
    while k < segs.len()
        invariant
            k <= segs.len(),
            views(segs@) == split_on(p@, '/'),
            n@ == ascii_lower(trim_matching(needle@, '/')),
            !has_char(n@, '/'),
            forall|m: int| 0 <= m < k ==> {
                let seg = #[trigger] split_on(p@, '/')[m];
                !(seg == n@ || split_on(seg, '.')[0] == n@)
            },
        decreases segs.len() - k,
    {
        let seg = segs[k].as_slice();
        assert(views(segs@)[k as int] == segs@[k as int]@);
        let parts = split_segments(seg, '.');
        proof { crate::fs::containment::lemma_split_nonempty(seg@, '.'); }
        assert(views(parts@)[0] == parts@[0]@);
        if same_chars(seg, n.as_slice()) || same_chars(parts[0].as_slice(), n.as_slice()) {
            proof {
                let s2 = split_on(p@, '/')[k as int];
                assert(s2 == seg@);
                assert(split_on(s2, '.')[0] == parts@[0]@);
            }
            return true;
        }
        k = k + 1;
    }
    false
}

} // verus!
