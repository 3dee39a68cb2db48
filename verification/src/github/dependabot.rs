//! Dependabot configuration read from its significant YAML lines: one
//! update per `package-ecosystem` list item under the root `updates` key.

use vstd::prelude::*;
use crate::github::codeowners::StructuredParseOptions;
use crate::github::yaml::{opt_view, tokenize, tokenize_spec, yaml_views, ParseFailure, YamlLine, YamlLineView};
use crate::markdown::diagnostics::{byte_len, SourceSpan};
use crate::text::{chars_of, string_of};

verus! {

/// Why a value is not known statically.
#[derive(Debug, Clone, Copy, PartialEq, Eq, Structural)]
pub enum StaticUnknownReason {
    Omitted,
}

/// A configuration value as far as it can be known without running
/// anything.
#[derive(Debug, Clone, PartialEq, Eq)]
pub enum StaticValue<T> {
    Literal(T),
    Expression { span: SourceSpan },
    Unknown(StaticUnknownReason),
    Unsupported { span: SourceSpan },
}

pub open spec fn text_value(v: StaticValue<String>) -> StaticValue<Seq<char>> {
    match v {
        StaticValue::Literal(s) => StaticValue::Literal(s@),
        StaticValue::Expression { span } => StaticValue::Expression { span },
        StaticValue::Unknown(r) => StaticValue::Unknown(r),
        StaticValue::Unsupported { span } => StaticValue::Unsupported { span },
    }
}

pub open spec fn text_values(v: Seq<StaticValue<String>>) -> Seq<StaticValue<Seq<char>>> {
    v.map_values(|x: StaticValue<String>| text_value(x))
}

/// A GitHub expression occurs in `v`.
pub open spec fn has_expression(v: Seq<char>) -> bool {
    crate::text::has_infix(v, "${{"@)
}

/// A scalar as a static string: an expression, or the literal.
pub open spec fn static_text(v: Seq<char>, span: SourceSpan) -> StaticValue<Seq<char>> {
    if has_expression(v) { StaticValue::Expression { span } } else { StaticValue::Literal(v) }
}

fn contains_expression(v: &[char]) -> (r: bool)
    ensures
        r == has_expression(v@),
{
    let pattern = chars_of("${{");
    crate::text::contains(v, pattern.as_slice())
}

fn static_string(v: &[char], span: SourceSpan) -> (r: StaticValue<String>)
    ensures
        text_value(r) == static_text(v@, span),
{
    if contains_expression(v) { StaticValue::Expression { span } } else { StaticValue::Literal(string_of(v)) }
}

/// The first line in `from..to` whose key is `key`; `-1` if none.
pub open spec fn field_index(l: Seq<YamlLineView>, from: int, to: int, key: Seq<char>) -> int
    decreases to - from,
{
    if from >= to || from < 0 || from >= l.len() {
        -1
    } else if l[from].key == Some(key) {
        from
    } else {
        field_index(l, from + 1, to, key)
    }
}

/// The first root key `key` (not a list item, indentation 0); `-1` if none.
pub open spec fn root_index(l: Seq<YamlLineView>, from: int, key: Seq<char>) -> int
    decreases l.len() - from,
{
    if from < 0 || from >= l.len() {
        -1
    } else if !l[from].is_list && l[from].indent == 0 && l[from].key == Some(key) {
        from
    } else {
        root_index(l, from + 1, key)
    }
}

/// Where the section after `start` ends, among lines before `to`: the
/// first mapping line at or left of `parent`, else `to`.
pub open spec fn section_end(l: Seq<YamlLineView>, start: int, to: int, parent: usize) -> int
    decreases to - start,
{
    if start >= to || start < 0 {
        to
    } else if !l[start].is_list && l[start].indent <= parent {
        start
    } else {
        section_end(l, start + 1, to, parent)
    }
}

/// Where the item after `start` ends before `end`: the next list item at
/// `indent` keyed `type`, else `end`.
pub open spec fn next_item_end(l: Seq<YamlLineView>, start: int, end: int, indent: usize) -> int
    decreases end - start,
{
    if start >= end || start < 0 {
        end
    } else if l[start].is_list && l[start].indent == indent && l[start].key == Some("type"@) {
        start
    } else {
        next_item_end(l, start + 1, end, indent)
    }
}

/// The value of the first `key` line in `from..to`, if any.
pub open spec fn field_scalar(l: Seq<YamlLineView>, from: int, to: int, key: Seq<char>) -> Option<Seq<char>> {
    let i = field_index(l, from, to, key);
    if i < 0 { None } else { l[i].value }
}

/// The first `key` line's value as a static string.
pub open spec fn field_static(l: Seq<YamlLineView>, from: int, to: int, key: Seq<char>) -> StaticValue<Seq<char>> {
    let i = field_index(l, from, to, key);
    if i < 0 {
        StaticValue::Unknown(StaticUnknownReason::Omitted)
    } else {
        match l[i].value {
            Some(v) => static_text(v, l[i].span),
            None => StaticValue::Unknown(StaticUnknownReason::Omitted),
        }
    }
}

pub open spec fn digit_value(c: char) -> nat {
    (c as u32 - '0' as u32) as nat
}

/// The number that ASCII digits `s` write.
pub open spec fn digits_value(s: Seq<char>) -> nat
    decreases s.len(),
{
    if s.len() == 0 { 0 } else { digits_value(s.drop_last()) * 10 + digit_value(s.last()) }
}

/// `u32`'s `FromStr`: an optional `+`, then at least one ASCII digit,
/// within range.
pub open spec fn parsed_u32(s: Seq<char>) -> Option<u32> {
    let d = unsigned_digits(s);
    if d.len() > 0 && all_digits(d) && digits_value(d) <= u32::MAX {
        Some(digits_value(d) as u32)
    } else {
        None
    }
}

/// `s` without a leading `+`.
pub open spec fn unsigned_digits(s: Seq<char>) -> Seq<char> {
    if s.len() > 0 && s[0] == '+' { s.drop_first() } else { s }
}

pub open spec fn all_digits(d: Seq<char>) -> bool {
    forall|i: int| 0 <= i < d.len() ==> '0' <= #[trigger] d[i] && d[i] <= '9'
}

/// The first `key` line's value as a static number.
pub open spec fn field_u32(l: Seq<YamlLineView>, from: int, to: int, key: Seq<char>) -> StaticValue<u32> {
    let i = field_index(l, from, to, key);
    if i < 0 {
        StaticValue::Unknown(StaticUnknownReason::Omitted)
    } else {
        match l[i].value {
            None => StaticValue::Unknown(StaticUnknownReason::Omitted),
            Some(v) => if has_expression(v) {
                StaticValue::Expression { span: l[i].span }
            } else {
                match parsed_u32(v) {
                    Some(n) => StaticValue::Literal(n),
                    None => StaticValue::Unsupported { span: l[i].span },
                }
            },
        }
    }
}

/// The list items with values in `from..to`, as static strings.
pub open spec fn list_values(l: Seq<YamlLineView>, from: int, to: int) -> Seq<StaticValue<Seq<char>>>
    decreases to - from,
{
    if from >= to || from < 0 {
        Seq::empty()
    } else {
        let rest = list_values(l, from + 1, to);
        if l[from].is_list && l[from].value is Some {
            seq![static_text(l[from].value->0, l[from].span)] + rest
        } else {
            rest
        }
    }
}

/// An update's directories: its `directory` value, or the list under its
/// `directories` key.
pub open spec fn directories(l: Seq<YamlLineView>, from: int, to: int) -> Seq<StaticValue<Seq<char>>> {
    let d = field_index(l, from, to, "directory"@);
    if d >= 0 {
        match l[d].value {
            Some(v) => seq![static_text(v, l[d].span)],
            None => Seq::empty(),
        }
    } else {
        let j = field_index(l, from, to, "directories"@);
        if j < 0 { Seq::empty() } else { list_values(l, j + 1, section_end(l, j + 1, to, l[j].indent)) }
    }
}

#[derive(Debug, Clone, Copy, PartialEq, Eq, Structural)]
pub enum DependencyBotProvider {
    Dependabot,
    Renovate,
}

/// One update a dependency bot is configured for.
#[derive(Debug, Clone, PartialEq, Eq)]
pub struct DependencyUpdate {
    pub ecosystem: Option<String>,
    pub directory: Option<String>,
    pub schedule: Option<String>,
    pub span: SourceSpan,
    pub ecosystem_value: StaticValue<String>,
    pub directory_values: Vec<StaticValue<String>>,
    pub schedule_value: StaticValue<String>,
    pub open_pull_requests_limit: StaticValue<u32>,
}

#[derive(Debug, Clone, PartialEq, Eq)]
pub struct DependencyBot {
    pub provider: DependencyBotProvider,
    pub updates: Vec<DependencyUpdate>,
}

/// `u` is the update of the `package-ecosystem` item at `i`, whose fields
/// are the lines of `i + 1..end`.
pub open spec fn update_of(u: DependencyUpdate, l: Seq<YamlLineView>, i: int, end: int) -> bool {
    &&& opt_view(u.ecosystem) == l[i].value
    &&& opt_view(u.directory) == field_scalar(l, i + 1, end, "directory"@)
    &&& opt_view(u.schedule) == field_scalar(l, i + 1, end, "interval"@)
    &&& u.span == l[i].span
    &&& text_value(u.ecosystem_value) == match l[i].value {
        Some(v) => static_text(v, l[i].span),
        None => StaticValue::Unknown(StaticUnknownReason::Omitted),
    }
    &&& text_values(u.directory_values@) == directories(l, i + 1, end)
    &&& text_value(u.schedule_value) == field_static(l, i + 1, end, "interval"@)
    &&& u.open_pull_requests_limit == field_u32(l, i + 1, end, "open-pull-requests-limit"@)
}

/// The `package-ecosystem` items in `i..end`, each with where its fields end.
pub open spec fn update_items(l: Seq<YamlLineView>, i: int, end: int) -> Seq<(int, int)>
    decreases end - i,
{
    if i >= end || i < 0 {
        Seq::empty()
    } else if l[i].is_list && l[i].key == Some("package-ecosystem"@) {
        let e = next_item_end(l, i + 1, end, l[i].indent);
        if i < e && e <= end { seq![(i, e)] + update_items(l, e, end) } else { Seq::empty() }
    } else {
        update_items(l, i + 1, end)
    }
}

/// The update items under the root `updates` key.
pub open spec fn dependabot_items(l: Seq<YamlLineView>) -> Seq<(int, int)> {
    let u = root_index(l, 0, "updates"@);
    if u < 0 { Seq::empty() } else { update_items(l, u + 1, section_end(l, u + 1, l.len() as int, l[u].indent)) }
}


pub(crate) fn key_is(line: &YamlLine, key: &str) -> (r: bool)
    ensures
        r == (line@.key == Some(key@)),
{
    match &line.key {
        Some(k) => {
            let c = chars_of(k.as_str());
            crate::text::equals_str(c.as_slice(), key)
        },
        None => false,
    }
}

pub(crate) fn find_field(lines: &[YamlLine], from: usize, to: usize, key: &str) -> (r: Option<usize>)
    requires
        from <= to <= lines@.len(),
    ensures
        match r {
            Some(i) => i as int == field_index(yaml_views(lines@), from as int, to as int, key@) && from <= i < to,
            None => field_index(yaml_views(lines@), from as int, to as int, key@) == -1,
        },
{
    let ghost l = yaml_views(lines@);
    let mut i = from;
    while i < to
        invariant
            from <= i <= to <= lines@.len(),
            l == yaml_views(lines@),
            field_index(l, from as int, to as int, key@) == field_index(l, i as int, to as int, key@),
        decreases to - i,
    {
        assert(l[i as int] == lines@[i as int]@);
        if key_is(&lines[i], key) {
            return Some(i);
        }
        i = i + 1;
    }
    None
}

pub(crate) fn find_root(lines: &[YamlLine], key: &str) -> (r: Option<usize>)
    ensures
        match r {
            Some(i) => i as int == root_index(yaml_views(lines@), 0, key@) && i < lines@.len(),
            None => root_index(yaml_views(lines@), 0, key@) == -1,
        },
{
    let ghost l = yaml_views(lines@);
    let mut i: usize = 0;
    while i < lines.len()
        invariant
            i <= lines@.len(),
            l == yaml_views(lines@),
            root_index(l, 0, key@) == root_index(l, i as int, key@),
        decreases lines.len() - i,
    {
        assert(l[i as int] == lines@[i as int]@);
        if !lines[i].is_list && lines[i].indent == 0 && key_is(&lines[i], key) {
            return Some(i);
        }
        i = i + 1;
    }
    None
}

pub(crate) fn find_section_end(lines: &[YamlLine], start: usize, to: usize, parent: usize) -> (r: usize)
    requires
        start <= to <= lines@.len(),
    ensures
        r as int == section_end(yaml_views(lines@), start as int, to as int, parent),
        start <= r <= to,
{
    let ghost l = yaml_views(lines@);
    let mut i = start;
    while i < to
        invariant
            start <= i <= to <= lines@.len(),
            l == yaml_views(lines@),
            section_end(l, start as int, to as int, parent) == section_end(l, i as int, to as int, parent),
        decreases to - i,
    {
        assert(l[i as int] == lines@[i as int]@);
        if !lines[i].is_list && lines[i].indent <= parent {
            return i;
        }
        i = i + 1;
    }
    to
}

pub(crate) fn find_item_end(lines: &[YamlLine], start: usize, end: usize, indent: usize) -> (r: usize)
    requires
        start <= end <= lines@.len(),
    ensures
        r as int == next_item_end(yaml_views(lines@), start as int, end as int, indent),
        start <= r <= end,
{
    let ghost l = yaml_views(lines@);
    let mut i = start;
    while i < end
        invariant
            start <= i <= end <= lines@.len(),
            l == yaml_views(lines@),
            next_item_end(l, start as int, end as int, indent) == next_item_end(l, i as int, end as int, indent),
        decreases end - i,
    {
        assert(l[i as int] == lines@[i as int]@);
        if lines[i].is_list && lines[i].indent == indent && key_is(&lines[i], "type") {
            return i;
        }
        i = i + 1;
    }
    end
}

pub(crate) fn copy_opt(o: &Option<String>) -> (r: Option<String>)
    ensures
        opt_view(r) == opt_view(*o),
{
    match o {
        Some(s) => Some(string_of(chars_of(s.as_str()).as_slice())),
        None => None,
    }
}

pub(crate) fn scalar_of(lines: &[YamlLine], from: usize, to: usize, key: &str) -> (r: Option<String>)
    requires
        from <= to <= lines@.len(),
    ensures
        opt_view(r) == field_scalar(yaml_views(lines@), from as int, to as int, key@),
{
    match find_field(lines, from, to, key) {
        Some(i) => {
            assert(yaml_views(lines@)[i as int] == lines@[i as int]@);
            copy_opt(&lines[i].value)
        },
        None => None,
    }
}

fn value_static(line: &YamlLine) -> (r: StaticValue<String>)
    ensures
        text_value(r) == match line@.value {
            Some(v) => static_text(v, line.span),
            None => StaticValue::Unknown(StaticUnknownReason::Omitted),
        },
{
    match &line.value {
        Some(v) => {
            let c = chars_of(v.as_str());
            static_string(c.as_slice(), line.span)
        },
        None => StaticValue::Unknown(StaticUnknownReason::Omitted),
    }
}

fn static_of(lines: &[YamlLine], from: usize, to: usize, key: &str) -> (r: StaticValue<String>)
    requires
        from <= to <= lines@.len(),
    ensures
        text_value(r) == field_static(yaml_views(lines@), from as int, to as int, key@),
{
    match find_field(lines, from, to, key) {
        Some(i) => {
            assert(yaml_views(lines@)[i as int] == lines@[i as int]@);
            value_static(&lines[i])
        },
        None => StaticValue::Unknown(StaticUnknownReason::Omitted),
    }
}

fn parse_u32(s: &[char]) -> (r: Option<u32>)
    ensures
        r == parsed_u32(s@),
{
    let start: usize = if s.len() > 0 && s[0] == '+' { 1 } else { 0 };
    let ghost d = unsigned_digits(s@);
    assert(s@.skip(start as int) =~= d);
    if start >= s.len() {
        return None;
    }
    let mut value: u64 = 0;
    let mut i = start;
    while i < s.len()
        invariant
            start <= i <= s@.len(),
            start < s@.len(),
            d == s@.skip(start as int),
            d == unsigned_digits(s@),
            value == digits_value(d.take(i - start)),
            value <= u32::MAX,
            forall|j: int| 0 <= j < i - start ==> '0' <= #[trigger] d[j] && d[j] <= '9',
        decreases s.len() - i,
    {
        let c = s[i];
        if !('0' <= c && c <= '9') {
            assert(d[i - start] == c);
            assert(!all_digits(d));
            return None;
        }
        assert(d.take(i - start + 1).drop_last() =~= d.take(i - start));
        assert(d.take(i - start + 1).last() == c);
        let next = value * 10 + (c as u64 - '0' as u64);
        assert(digits_value(d.take(i - start + 1)) == next);
        if next > u32::MAX as u64 {
            proof { lemma_digits_grow(d, (i - start + 1) as int); }
            assert(digits_value(d) > u32::MAX);
            return None;
        }
        value = next;
        i = i + 1;
    }
    assert(d.take(d.len() as int) =~= d);
    Some(value as u32)
}

proof fn lemma_digits_grow(d: Seq<char>, n: int)
    requires
        0 <= n <= d.len(),
    ensures
        digits_value(d.take(n)) <= digits_value(d),
    decreases d.len() - n,
{
    if n < d.len() {
        lemma_digits_grow(d, n + 1);
        assert(d.take(n + 1).drop_last() =~= d.take(n));
    } else {
        assert(d.take(n) =~= d);
    }
}

fn u32_of(lines: &[YamlLine], from: usize, to: usize, key: &str) -> (r: StaticValue<u32>)
    requires
        from <= to <= lines@.len(),
    ensures
        r == field_u32(yaml_views(lines@), from as int, to as int, key@),
{
    match find_field(lines, from, to, key) {
        Some(i) => {
            assert(yaml_views(lines@)[i as int] == lines@[i as int]@);
            let line = &lines[i];
            match &line.value {
                None => StaticValue::Unknown(StaticUnknownReason::Omitted),
                Some(v) => {
                    let c = chars_of(v.as_str());
                    if contains_expression(c.as_slice()) {
                        StaticValue::Expression { span: line.span }
                    } else {
                        match parse_u32(c.as_slice()) {
                            Some(n) => StaticValue::Literal(n),
                            None => StaticValue::Unsupported { span: line.span },
                        }
                    }
                },
            }
        },
        None => StaticValue::Unknown(StaticUnknownReason::Omitted),
    }
}

fn list_values_of(lines: &[YamlLine], from: usize, to: usize) -> (r: Vec<StaticValue<String>>)
    requires
        from <= to <= lines@.len(),
    ensures
        text_values(r@) == list_values(yaml_views(lines@), from as int, to as int),
{
    let ghost l = yaml_views(lines@);
    let mut out: Vec<StaticValue<String>> = Vec::new();
    let mut i = from;
    assert(text_values(out@) =~= Seq::<StaticValue<Seq<char>>>::empty());
    while i < to
        invariant
            from <= i <= to <= lines@.len(),
            l == yaml_views(lines@),
            list_values(l, from as int, to as int) == text_values(out@) + list_values(l, i as int, to as int),
        decreases to - i,
    {
        assert(l[i as int] == lines@[i as int]@);
        let ghost before = text_values(out@);
        if lines[i].is_list && lines[i].value.is_some() {
            let v = value_static(&lines[i]);
            out.push(v);
            assert(text_values(out@) =~= before.push(text_value(v)));
            assert(before + list_values(l, i as int, to as int) =~= text_values(out@) + list_values(l, i + 1, to as int));
        }
        i = i + 1;
    }
    assert(text_values(out@) + Seq::<StaticValue<Seq<char>>>::empty() =~= text_values(out@));
    out
}

fn directories_of(lines: &[YamlLine], from: usize, to: usize) -> (r: Vec<StaticValue<String>>)
    requires
        from <= to <= lines@.len(),
    ensures
        text_values(r@) == directories(yaml_views(lines@), from as int, to as int),
{
    match find_field(lines, from, to, "directory") {
        Some(d) => {
            assert(yaml_views(lines@)[d as int] == lines@[d as int]@);
            let mut out: Vec<StaticValue<String>> = Vec::new();
            if lines[d].value.is_some() {
                out.push(value_static(&lines[d]));
            }
            assert(text_values(out@) =~= directories(yaml_views(lines@), from as int, to as int));
            out
        },
        None => {
            match find_field(lines, from, to, "directories") {
                None => {
                    let out: Vec<StaticValue<String>> = Vec::new();
                    assert(text_values(out@) =~= Seq::<StaticValue<Seq<char>>>::empty());
                    out
                },
                Some(j) => {
                    assert(yaml_views(lines@)[j as int] == lines@[j as int]@);
                    let end = find_section_end(lines, j + 1, to, lines[j].indent);
                    list_values_of(lines, j + 1, end)
                },
            }
        },
    }
}


fn update_at(lines: &[YamlLine], i: usize, end: usize) -> (r: DependencyUpdate)
    requires
        i < end <= lines@.len(),
    ensures
        update_of(r, yaml_views(lines@), i as int, end as int),
{
    assert(yaml_views(lines@)[i as int] == lines@[i as int]@);
    let line = &lines[i];
    DependencyUpdate {
        ecosystem: copy_opt(&line.value),
        directory: scalar_of(lines, i + 1, end, "directory"),
        schedule: scalar_of(lines, i + 1, end, "interval"),
        span: line.span,
        ecosystem_value: value_static(line),
        directory_values: directories_of(lines, i + 1, end),
        schedule_value: static_of(lines, i + 1, end, "interval"),
        open_pull_requests_limit: u32_of(lines, i + 1, end, "open-pull-requests-limit"),
    }
}

/// The updates of a Dependabot configuration's lines: one per
/// `dependabot_items` entry.
fn dependabot_updates(lines: &[YamlLine]) -> (r: Vec<DependencyUpdate>)
    ensures
        r@.len() == dependabot_items(yaml_views(lines@)).len(),
        forall|m: int| 0 <= m < r@.len() ==> update_of(#[trigger] r@[m], yaml_views(lines@),
            dependabot_items(yaml_views(lines@))[m].0, dependabot_items(yaml_views(lines@))[m].1),
{
    let ghost l = yaml_views(lines@);
    let mut out: Vec<DependencyUpdate> = Vec::new();
    let found = find_root(lines, "updates");
    let u = match found {
        None => {
            return out;
        },
        Some(u) => u,
    };
    let n = lines.len();
    assert(u < n);
    assert(l[u as int] == lines@[u as int]@);
    let end = find_section_end(lines, u + 1, n, lines[u].indent);
    let ghost items = dependabot_items(l);
    let ghost mut done: Seq<(int, int)> = Seq::empty();
    let mut i = u + 1;
    assert(items == done + update_items(l, i as int, end as int));
    while i < end
        invariant
            u + 1 <= i <= end <= lines@.len(),
            l == yaml_views(lines@),
            items == dependabot_items(l),
            items == done + update_items(l, i as int, end as int),
            out@.len() == done.len(),
            forall|m: int| 0 <= m < out@.len() ==> update_of(#[trigger] out@[m], l, done[m].0, done[m].1),
        decreases end - i,
    {
        assert(l[i as int] == lines@[i as int]@);
        if lines[i].is_list && key_is(&lines[i], "package-ecosystem") {
            let e = find_item_end(lines, i + 1, end, lines[i].indent);
            out.push(update_at(lines, i, e));
            proof {
                assert(done + update_items(l, i as int, end as int) =~= done.push((i as int, e as int)) + update_items(l, e as int, end as int));
                done = done.push((i as int, e as int));
            }
            i = e;
        } else {
            i = i + 1;
        }
    }
    assert(done + update_items(l, i as int, end as int) =~= done);
    out
}

/// A Dependabot configuration: the updates its lines give, with no
/// diagnostics; or the tokenizer's failure.
pub fn parse_dependabot(source: &str, options: &StructuredParseOptions) -> (r: Result<DependencyBot, ParseFailure>)
    requires
        byte_len(source@) < usize::MAX,
    ensures
        match tokenize_spec(source@, *options) {
            Err(f) => r == Err::<DependencyBot, ParseFailure>(f),
            Ok(l) => r matches Ok(bot) && bot.provider == DependencyBotProvider::Dependabot
                && bot.updates@.len() == dependabot_items(l).len()
                && forall|m: int| 0 <= m < bot.updates@.len() ==>
                    update_of(#[trigger] bot.updates@[m], l, dependabot_items(l)[m].0, dependabot_items(l)[m].1),
        },
{
    match tokenize(source, options) {
        Err(f) => Err(f),
        Ok(lines) => Ok(DependencyBot { provider: DependencyBotProvider::Dependabot, updates: dependabot_updates(lines.as_slice()) }),
    }
}

} // verus!
