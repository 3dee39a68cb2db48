//! Renovate files: JSON whose `packageRules` become dependency updates,
//! after the whole document is held to the parse budgets.

use vstd::prelude::*;
use crate::github::codeowners::StructuredParseOptions;
use crate::github::dependabot::{
    text_value, text_values, DependencyBot, DependencyBotProvider, DependencyUpdate, StaticUnknownReason, StaticValue,
};
use crate::github::owners_file::{bytes_within, malformed};
use crate::github::yaml::{opt_view, over_budget, GithubDiagnostic, GithubDiagnosticKind, GithubParseStatus, ParseFailure, StructuredBudgetKind};
use crate::markdown::context::{char_width, lemma_encode_char_len, lemma_encode_concat};
use crate::markdown::diagnostics::{byte_len, SourceSpan};
use crate::text::{chars_of, contains, equals_str, has_infix, string_of};

verus! {

#[verifier::external_type_specification]
#[verifier::external_body]
pub struct ExJsonValue(serde_json::Value);

/// A JSON value as the library reads it: numbers by their `u64` value
/// where they have one, objects as their members in the parser's order.
#[derive(Debug)]
pub enum JsonValue {
    Null,
    Bool(bool),
    Number(Option<u64>),
    Text(String),
    Array(Vec<JsonValue>),
    Object(Vec<(String, JsonValue)>),
}

/// What `serde_json::from_str` gives for a text: the document, or the line
/// and column of the error.
pub uninterp spec fn json_document(text: Seq<char>) -> Result<JsonValue, (usize, usize)>;

/// `serde_json::Value` as a [`JsonValue`], variant for variant; a number
/// becomes what `Number::as_u64` gives. Nothing is stated of the result:
/// only `parse_json` hands it on, under its own contract.
#[verifier::external_body]
fn json_value_of(v: serde_json::Value) -> (r: JsonValue) {
    match v {
        serde_json::Value::Null => JsonValue::Null,
        serde_json::Value::Bool(b) => JsonValue::Bool(b),
        serde_json::Value::Number(n) => JsonValue::Number(n.as_u64()),
        serde_json::Value::String(s) => JsonValue::Text(s),
        serde_json::Value::Array(a) => JsonValue::Array(a.into_iter().map(json_value_of).collect()),
        serde_json::Value::Object(o) => JsonValue::Object(o.into_iter().map(|(k, x)| (k, json_value_of(x))).collect()),
    }
}

/// `serde_json::from_str::<serde_json::Value>`: the parsed document, or the
/// error's line and column; its result is named `json_document` of the text.
#[verifier::external_body]
pub(crate) fn parse_json(source: &str) -> (r: Result<JsonValue, (usize, usize)>)
    ensures
        r == json_document(source@),
{
    match serde_json::from_str::<serde_json::Value>(source) {
        Ok(v) => Ok(json_value_of(v)),
        Err(e) => Err((e.line(), e.column())),
    }
}

pub open spec fn empty_span() -> SourceSpan {
    SourceSpan { line: 1, column: 1, byte_start: 0, byte_end: 0 }
}

pub open spec fn sat_inc(n: nat) -> nat {
    if n + 1 > usize::MAX { usize::MAX as nat } else { n + 1 }
}

/// The budget check of a value at `depth`, with `nodes` counted before it:
/// the nodes counted after it, or the first budget it breaks.
pub open spec fn check_value(v: JsonValue, depth: nat, nodes: nat, o: StructuredParseOptions) -> Result<nat, ParseFailure>
    decreases v, 0int,
{
    let n = sat_inc(nodes);
    if n > o.max_nodes {
        Err(over_budget(StructuredBudgetKind::Nodes, empty_span()))
    } else if depth > o.max_depth {
        Err(over_budget(StructuredBudgetKind::Depth, empty_span()))
    } else {
        match v {
            JsonValue::Text(s) => if byte_len(s@) > o.max_scalar_bytes {
                Err(over_budget(StructuredBudgetKind::ScalarBytes, empty_span()))
            } else {
                Ok(n)
            },
            JsonValue::Array(a) => check_items(a@, 0, sat_inc(depth), n, o),
            JsonValue::Object(e) => check_members(e@, 0, sat_inc(depth), n, o),
            _ => Ok(n),
        }
    }
}

pub open spec fn check_items(a: Seq<JsonValue>, k: int, depth: nat, nodes: nat, o: StructuredParseOptions) -> Result<nat, ParseFailure>
    decreases a, a.len() - k,
{
    if k < 0 || k >= a.len() {
        Ok(nodes)
    } else {
        match check_value(a[k], depth, nodes, o) {
            Err(f) => Err(f),
            Ok(n) => check_items(a, k + 1, depth, n, o),
        }
    }
}

pub open spec fn check_members(e: Seq<(String, JsonValue)>, k: int, depth: nat, nodes: nat, o: StructuredParseOptions) -> Result<nat, ParseFailure>
    decreases e, e.len() - k,
{
    if k < 0 || k >= e.len() {
        Ok(nodes)
    } else if byte_len(e[k].0@) > o.max_scalar_bytes {
        Err(over_budget(StructuredBudgetKind::ScalarBytes, empty_span()))
    } else {
        match check_value(e[k].1, depth, nodes, o) {
            Err(f) => Err(f),
            Ok(n) => check_members(e, k + 1, depth, n, o),
        }
    }
}

fn inc(n: usize) -> (r: usize)
    ensures
        r == sat_inc(n as nat),
{
    if n == usize::MAX { n } else { n + 1 }
}

fn text_within(s: &String, max: usize) -> (r: bool)
    ensures
        r == (byte_len(s@) <= max),
{
    let chars = chars_of(s.as_str());
    bytes_within(chars.as_slice(), max)
}

/// `check_value(v, depth, nodes)`.
fn check_json(v: &JsonValue, depth: usize, nodes: usize, options: &StructuredParseOptions) -> (r: Result<usize, ParseFailure>)
    ensures
        match check_value(*v, depth as nat, nodes as nat, *options) {
            Ok(n) => r == Ok::<usize, ParseFailure>(n as usize) && n <= usize::MAX,
            Err(f) => r == Err::<usize, ParseFailure>(f),
        },
    decreases *v, 1int,
{
    let n = inc(nodes);
    if n > options.max_nodes {
        return Err(ParseFailure { status: GithubParseStatus::BudgetExceeded(StructuredBudgetKind::Nodes), diagnostic: GithubDiagnostic { kind: GithubDiagnosticKind::BudgetExceeded(StructuredBudgetKind::Nodes), span: SourceSpan { line: 1, column: 1, byte_start: 0, byte_end: 0 } } });
    }
    if depth > options.max_depth {
        return Err(ParseFailure { status: GithubParseStatus::BudgetExceeded(StructuredBudgetKind::Depth), diagnostic: GithubDiagnostic { kind: GithubDiagnosticKind::BudgetExceeded(StructuredBudgetKind::Depth), span: SourceSpan { line: 1, column: 1, byte_start: 0, byte_end: 0 } } });
    }
    match v {
        JsonValue::Text(s) => {
            if !text_within(s, options.max_scalar_bytes) {
                return Err(ParseFailure { status: GithubParseStatus::BudgetExceeded(StructuredBudgetKind::ScalarBytes), diagnostic: GithubDiagnostic { kind: GithubDiagnosticKind::BudgetExceeded(StructuredBudgetKind::ScalarBytes), span: SourceSpan { line: 1, column: 1, byte_start: 0, byte_end: 0 } } });
            }
            Ok(n)
        },
        JsonValue::Array(a) => check_json_items(a, 0, inc(depth), n, options),
        JsonValue::Object(e) => check_json_members(e, 0, inc(depth), n, options),
        _ => Ok(n),
    }
}

fn check_json_items(a: &Vec<JsonValue>, k: usize, depth: usize, nodes: usize, options: &StructuredParseOptions) -> (r: Result<usize, ParseFailure>)
    requires
        k <= a@.len(),
    ensures
        match check_items(a@, k as int, depth as nat, nodes as nat, *options) {
            Ok(n) => r == Ok::<usize, ParseFailure>(n as usize) && n <= usize::MAX,
            Err(f) => r == Err::<usize, ParseFailure>(f),
        },
    decreases a@, a@.len() - k,
{
    if k >= a.len() {
        return Ok(nodes);
    }
    match check_json(&a[k], depth, nodes, options) {
        Err(f) => Err(f),
        Ok(n) => check_json_items(a, k + 1, depth, n, options),
    }
}

fn check_json_members(e: &Vec<(String, JsonValue)>, k: usize, depth: usize, nodes: usize, options: &StructuredParseOptions) -> (r: Result<usize, ParseFailure>)
    requires
        k <= e@.len(),
    ensures
        match check_members(e@, k as int, depth as nat, nodes as nat, *options) {
            Ok(n) => r == Ok::<usize, ParseFailure>(n as usize) && n <= usize::MAX,
            Err(f) => r == Err::<usize, ParseFailure>(f),
        },
    decreases e@, e@.len() - k,
{
    if k >= e.len() {
        return Ok(nodes);
    }
    if !text_within(&e[k].0, options.max_scalar_bytes) {
        return Err(ParseFailure { status: GithubParseStatus::BudgetExceeded(StructuredBudgetKind::ScalarBytes), diagnostic: GithubDiagnostic { kind: GithubDiagnosticKind::BudgetExceeded(StructuredBudgetKind::ScalarBytes), span: SourceSpan { line: 1, column: 1, byte_start: 0, byte_end: 0 } } });
    }
    match check_json(&e[k].1, depth, nodes, options) {
        Err(f) => Err(f),
        Ok(n) => check_json_members(e, k + 1, depth, n, options),
    }
}

/// The first member of `e` named `key`.
pub open spec fn json_get(e: Seq<(String, JsonValue)>, key: Seq<char>) -> Option<JsonValue>
    decreases e.len(),
{
    if e.len() == 0 {
        None
    } else if e[0].0@ == key {
        Some(e[0].1)
    } else {
        json_get(e.drop_first(), key)
    }
}

/// The first string among `a`.
pub open spec fn first_text(a: Seq<JsonValue>) -> Option<Seq<char>>
    decreases a.len(),
{
    if a.len() == 0 {
        None
    } else {
        match a[0] {
            JsonValue::Text(s) => Some(s@),
            _ => first_text(a.drop_first()),
        }
    }
}

/// A string, or the first string of an array.
pub open spec fn text_or_first(v: Option<JsonValue>) -> Option<Seq<char>> {
    match v {
        Some(JsonValue::Text(s)) => Some(s@),
        Some(JsonValue::Array(a)) => first_text(a@),
        _ => None,
    }
}

pub open spec fn has_template(v: Seq<char>) -> bool {
    has_infix(v, "{{"@)
}

pub open spec fn template_or_literal(v: Seq<char>) -> StaticValue<Seq<char>> {
    if has_template(v) { StaticValue::Expression { span: empty_span() } } else { StaticValue::Literal(v) }
}

/// A member as a static string: a template expression, the literal, or
/// the first string of an array.
pub open spec fn json_static(v: Option<JsonValue>) -> StaticValue<Seq<char>> {
    match v {
        Some(JsonValue::Text(s)) => template_or_literal(s@),
        Some(JsonValue::Array(a)) => match first_text(a@) {
            Some(x) => template_or_literal(x),
            None => StaticValue::Unsupported { span: empty_span() },
        },
        Some(_) => StaticValue::Unsupported { span: empty_span() },
        None => StaticValue::Unknown(StaticUnknownReason::Omitted),
    }
}

/// A member as static strings: one per item of an array, else one.
pub open spec fn json_statics(v: Option<JsonValue>) -> Seq<StaticValue<Seq<char>>> {
    match v {
        Some(JsonValue::Array(a)) => a@.map_values(|x: JsonValue| json_static(Some(x))),
        Some(x) => seq![json_static(Some(x))],
        None => Seq::empty(),
    }
}

/// A member as a static `u32`.
pub open spec fn json_limit(v: Option<JsonValue>) -> StaticValue<u32> {
    match v {
        Some(JsonValue::Number(Some(n))) => if n <= u32::MAX { StaticValue::Literal(n as u32) } else { StaticValue::Unsupported { span: empty_span() } },
        Some(JsonValue::Text(s)) => if has_template(s@) { StaticValue::Expression { span: empty_span() } } else { StaticValue::Unsupported { span: empty_span() } },
        Some(_) => StaticValue::Unsupported { span: empty_span() },
        None => StaticValue::Unknown(StaticUnknownReason::Omitted),
    }
}

/// The pull-request limit: `prConcurrentLimit`, else `prHourlyLimit`.
pub open spec fn rule_limit(rule: Seq<(String, JsonValue)>) -> Option<JsonValue> {
    match json_get(rule, "prConcurrentLimit"@) {
        Some(x) => Some(x),
        None => json_get(rule, "prHourlyLimit"@),
    }
}

/// `u` is the update that the package rule `rule` gives.
pub open spec fn renovate_update(u: DependencyUpdate, rule: Seq<(String, JsonValue)>) -> bool {
    &&& opt_view(u.ecosystem) == text_or_first(json_get(rule, "matchManagers"@))
    &&& opt_view(u.directory) == text_or_first(json_get(rule, "matchPaths"@))
    &&& opt_view(u.schedule) == text_or_first(json_get(rule, "schedule"@))
    &&& u.span == empty_span()
    &&& text_value(u.ecosystem_value) == json_static(json_get(rule, "matchManagers"@))
    &&& text_values(u.directory_values@) == json_statics(json_get(rule, "matchPaths"@))
    &&& text_value(u.schedule_value) == json_static(json_get(rule, "schedule"@))
    &&& u.open_pull_requests_limit == json_limit(rule_limit(rule))
}

/// The items of the root's `packageRules` array.
pub open spec fn package_rules(v: JsonValue) -> Seq<JsonValue> {
    match v {
        JsonValue::Object(e) => match json_get(e@, "packageRules"@) {
            Some(JsonValue::Array(a)) => a@,
            _ => Seq::empty(),
        },
        _ => Seq::empty(),
    }
}

/// The rules that are objects, as their members.
pub open spec fn rule_objects(rules: Seq<JsonValue>) -> Seq<Seq<(String, JsonValue)>>
    decreases rules.len(),
{
    if rules.len() == 0 {
        Seq::empty()
    } else {
        let prev = rule_objects(rules.drop_last());
        match rules.last() {
            JsonValue::Object(e) => prev.push(e@),
            _ => prev,
        }
    }
}

/// The character position that a JSON error's line and column name, as
/// the parser counts them from position `i` on line `cur`, `seen`
/// characters into it: the `column`th character of line `line`, or the
/// end of that line (its `\n` included), or the end of the text.
pub open spec fn error_position(t: Seq<char>, i: int, cur: int, seen: int, line: int, column: int) -> int
    decreases t.len() - i,
{
    if i < 0 || i >= t.len() {
        t.len() as int
    } else if cur == line {
        if seen == column - 1 {
            i
        } else if t[i] == '\n' {
            i + 1
        } else {
            error_position(t, i + 1, cur, seen + 1, line, column)
        }
    } else if t[i] == '\n' {
        error_position(t, i + 1, cur + 1, 0, line, column)
    } else {
        error_position(t, i + 1, cur, seen, line, column)
    }
}

pub open spec fn at_least_one(n: usize) -> usize {
    if n == 0 { 1 } else { n }
}

/// Where a JSON error at `line` and `column` (each at least 1) stands.
pub open spec fn json_error_span(t: Seq<char>, line: usize, column: usize) -> SourceSpan {
    let l = at_least_one(line);
    let c = at_least_one(column);
    let b = byte_len(t.take(error_position(t, 0, 1, 0, l as int, c as int)));
    SourceSpan { line: l, column: c, byte_start: b as usize, byte_end: b as usize }
}

proof fn lemma_position_bounds(t: Seq<char>, i: int, cur: int, seen: int, line: int, column: int)
    requires
        0 <= i <= t.len(),
    ensures
        i <= error_position(t, i, cur, seen, line, column) <= t.len(),
    decreases t.len() - i,
{
    if i < t.len() {
        if cur == line {
            if seen != column - 1 && t[i] != '\n' {
                lemma_position_bounds(t, i + 1, cur, seen + 1, line, column);
            }
        } else {
            lemma_position_bounds(t, i + 1, if t[i] == '\n' { cur + 1 } else { cur }, if t[i] == '\n' { 0 } else { seen }, line, column);
        }
    }
}

/// `json_error_span(source, line, column)`.
fn error_span(source: &str, line: usize, column: usize) -> (r: SourceSpan)
    requires
        byte_len(source@) <= usize::MAX,
    ensures
        r == json_error_span(source@, line, column),
{
    let t = chars_of(source);
    let l = if line == 0 { 1 } else { line };
    let c = if column == 0 { 1 } else { column };
    let ghost target = error_position(t@, 0, 1, 0, l as int, c as int);
    let mut i: usize = 0;
    let mut cur: usize = 1;
    let mut seen: usize = 0;
    let mut bytes: usize = 0;
    let mut done = false;
    proof { lemma_position_bounds(t@, 0, 1, 0, l as int, c as int); }
    while i < t.len() && !done
        invariant
            t@ == source@,
            byte_len(t@) <= usize::MAX,
            i <= t@.len(),
            1 <= cur <= l,
            c >= 1,
            seen <= i,
            bytes == byte_len(t@.take(i as int)),
            target == error_position(t@, 0, 1, 0, l as int, c as int),
            i <= target <= t@.len(),
            done ==> target == i,
            !done ==> target == error_position(t@, i as int, cur as int, seen as int, l as int, c as int),
        decreases t@.len() - i + (if done { 0int } else { 1int }),
    {
        if cur == l && seen == c - 1 {
            done = true;
        } else {
            proof {
                assert(t@.take(i + 1) =~= t@.take(i as int) + seq![t@[i as int]]);
                lemma_encode_concat(t@.take(i as int), seq![t@[i as int]]);
                lemma_encode_char_len(t@[i as int]);
                assert(t@ =~= t@.take(i + 1) + t@.skip(i + 1));
                lemma_encode_concat(t@.take(i + 1), t@.skip(i + 1));
            }
            let ch = t[i];
            bytes = bytes + char_width(ch);
            if cur == l {
                if ch == '\n' {
                    done = true;
                }
                seen = seen + 1;
            } else if ch == '\n' {
                cur = cur + 1;
                seen = 0;
            }
            i = i + 1;
            proof {
                if !done {
                    lemma_position_bounds(t@, i as int, cur as int, seen as int, l as int, c as int);
                }
            }
        }
    }
    proof {
        if !done {
            assert(target == t@.len());
        }
    }
    SourceSpan { line: l, column: c, byte_start: bytes, byte_end: bytes }
}

pub open spec fn owned(v: Option<&JsonValue>) -> Option<JsonValue> {
    match v {
        Some(x) => Some(*x),
        None => None,
    }
}

pub(crate) fn copy_text(s: &String) -> (r: String)
    ensures
        r@ == s@,
{
    let c = chars_of(s.as_str());
    string_of(c.as_slice())
}

/// `json_get(e, key)`.
pub(crate) fn member<'a>(e: &'a Vec<(String, JsonValue)>, key: &str) -> (r: Option<&'a JsonValue>)
    ensures
        owned(r) == json_get(e@, key@),
{
    let mut k: usize = 0;
    assert(e@.skip(0) =~= e@);
    while k < e.len()
        invariant
            k <= e@.len(),
            json_get(e@, key@) == json_get(e@.skip(k as int), key@),
        decreases e.len() - k,
    {
        assert(e@.skip(k as int).drop_first() =~= e@.skip(k + 1));
        assert(e@.skip(k as int)[0] == e@[k as int]);
        let name = chars_of(e[k].0.as_str());
        if equals_str(name.as_slice(), key) {
            return Some(&e[k].1);
        }
        k = k + 1;
    }
    None
}

/// `first_text(a)`.
fn first_text_of(a: &Vec<JsonValue>) -> (r: Option<String>)
    ensures
        opt_view(r) == first_text(a@),
{
    let mut k: usize = 0;
    assert(a@.skip(0) =~= a@);
    while k < a.len()
        invariant
            k <= a@.len(),
            first_text(a@) == first_text(a@.skip(k as int)),
        decreases a.len() - k,
    {
        assert(a@.skip(k as int).drop_first() =~= a@.skip(k + 1));
        assert(a@.skip(k as int)[0] == a@[k as int]);
        match &a[k] {
            JsonValue::Text(s) => {
                return Some(copy_text(s));
            },
            _ => {},
        }
        k = k + 1;
    }
    None
}

fn template_in(s: &String) -> (r: bool)
    ensures
        r == has_template(s@),
{
    let c = chars_of(s.as_str());
    let p = chars_of("{{");
    contains(c.as_slice(), p.as_slice())
}

fn template_or_literal_of(s: String) -> (r: StaticValue<String>)
    ensures
        text_value(r) == template_or_literal(s@),
{
    if template_in(&s) { StaticValue::Expression { span: SourceSpan { line: 1, column: 1, byte_start: 0, byte_end: 0 } } } else { StaticValue::Literal(s) }
}

/// `json_static(v)`.
fn static_of(v: Option<&JsonValue>) -> (r: StaticValue<String>)
    ensures
        text_value(r) == json_static(owned(v)),
{
    match v {
        Some(JsonValue::Text(s)) => template_or_literal_of(copy_text(s)),
        Some(JsonValue::Array(a)) => match first_text_of(a) {
            Some(x) => template_or_literal_of(x),
            None => StaticValue::Unsupported { span: SourceSpan { line: 1, column: 1, byte_start: 0, byte_end: 0 } },
        },
        Some(_) => StaticValue::Unsupported { span: SourceSpan { line: 1, column: 1, byte_start: 0, byte_end: 0 } },
        None => StaticValue::Unknown(StaticUnknownReason::Omitted),
    }
}

/// `json_statics(v)`.
fn statics_of(v: Option<&JsonValue>) -> (r: Vec<StaticValue<String>>)
    ensures
        text_values(r@) == json_statics(owned(v)),
{
    match v {
        Some(JsonValue::Array(a)) => {
            let mut out: Vec<StaticValue<String>> = Vec::new();
            let mut i: usize = 0;
            while i < a.len()
                invariant
                    i <= a@.len(),
                    text_values(out@) == a@.take(i as int).map_values(|x: JsonValue| json_static(Some(x))),
                decreases a.len() - i,
            {
                let ghost before = text_values(out@);
                let item = static_of(Some(&a[i]));
                out.push(item);
                assert(text_values(out@) =~= before.push(text_value(item)));
                assert(a@.take(i + 1) =~= a@.take(i as int).push(a@[i as int]));
                assert(a@.take(i + 1).map_values(|x: JsonValue| json_static(Some(x))) =~= a@.take(i as int).map_values(|x: JsonValue| json_static(Some(x))).push(json_static(Some(a@[i as int]))));
                i = i + 1;
            }
            assert(a@.take(a@.len() as int) =~= a@);
            out
        },
        Some(x) => {
            let item = static_of(Some(x));
            let out = vec![item];
            assert(text_values(out@) =~= seq![text_value(item)]);
            out
        },
        None => {
            let out: Vec<StaticValue<String>> = Vec::new();
            assert(text_values(out@) =~= Seq::<StaticValue<Seq<char>>>::empty());
            out
        },
    }
}

/// `json_limit(v)`.
fn limit_of(v: Option<&JsonValue>) -> (r: StaticValue<u32>)
    ensures
        r == json_limit(owned(v)),
{
    match v {
        Some(JsonValue::Number(Some(n))) => if *n <= 0xFFFF_FFFFu64 {
            StaticValue::Literal(*n as u32)
        } else {
            StaticValue::Unsupported { span: SourceSpan { line: 1, column: 1, byte_start: 0, byte_end: 0 } }
        },
        Some(JsonValue::Text(s)) => if template_in(s) {
            StaticValue::Expression { span: SourceSpan { line: 1, column: 1, byte_start: 0, byte_end: 0 } }
        } else {
            StaticValue::Unsupported { span: SourceSpan { line: 1, column: 1, byte_start: 0, byte_end: 0 } }
        },
        Some(_) => StaticValue::Unsupported { span: SourceSpan { line: 1, column: 1, byte_start: 0, byte_end: 0 } },
        None => StaticValue::Unknown(StaticUnknownReason::Omitted),
    }
}

/// `text_or_first(v)`.
fn text_or_first_of(v: Option<&JsonValue>) -> (r: Option<String>)
    ensures
        opt_view(r) == text_or_first(owned(v)),
{
    match v {
        Some(JsonValue::Text(s)) => Some(copy_text(s)),
        Some(JsonValue::Array(a)) => first_text_of(a),
        _ => None,
    }
}

/// The update a package rule gives.
fn rule_update(rule: &Vec<(String, JsonValue)>) -> (u: DependencyUpdate)
    ensures
        renovate_update(u, rule@),
{
    let managers = member(rule, "matchManagers");
    let paths = member(rule, "matchPaths");
    let schedule = member(rule, "schedule");
    let limit = match member(rule, "prConcurrentLimit") {
        Some(x) => Some(x),
        None => member(rule, "prHourlyLimit"),
    };
    DependencyUpdate {
        ecosystem: text_or_first_of(managers),
        directory: text_or_first_of(paths),
        schedule: text_or_first_of(schedule),
        span: SourceSpan { line: 1, column: 1, byte_start: 0, byte_end: 0 },
        ecosystem_value: static_of(managers),
        directory_values: statics_of(paths),
        schedule_value: static_of(schedule),
        open_pull_requests_limit: limit_of(limit),
    }
}

/// What a Renovate file gives, from what the JSON parser gave for `t`:
/// a parse error is a malformed value where the parser stopped; a
/// document over a budget fails on it; else one update per package rule
/// that is an object, and no diagnostics.
pub open spec fn renovate_result(r: Result<(DependencyBot, Vec<GithubDiagnostic>), ParseFailure>, parsed: Result<JsonValue, (usize, usize)>, t: Seq<char>, o: StructuredParseOptions) -> bool {
    match parsed {
        Err((line, column)) => r == Err::<(DependencyBot, Vec<GithubDiagnostic>), ParseFailure>(malformed(GithubDiagnosticKind::MalformedValue, json_error_span(t, line, column))),
        Ok(v) => match check_value(v, 0, 0, o) {
            Err(f) => r == Err::<(DependencyBot, Vec<GithubDiagnostic>), ParseFailure>(f),
            Ok(_) => r matches Ok((bot, diags)) && diags@.len() == 0 && bot.provider == DependencyBotProvider::Renovate
                && bot.updates@.len() == rule_objects(package_rules(v)).len()
                && forall|m: int| 0 <= m < bot.updates@.len() ==>
                    renovate_update(#[trigger] bot.updates@[m], rule_objects(package_rules(v))[m]),
        },
    }
}

/// The Renovate file whose text is `source`, from what the JSON parser
/// gave for it.
pub fn renovate_from_json(parsed: Result<JsonValue, (usize, usize)>, source: &str, options: &StructuredParseOptions) -> (r: Result<(DependencyBot, Vec<GithubDiagnostic>), ParseFailure>)
    requires
        byte_len(source@) <= usize::MAX,
    ensures
        renovate_result(r, parsed, source@, *options),
{
    let value = match parsed {
        Err((line, column)) => {
            let span = error_span(source, line, column);
            return Err(ParseFailure { status: GithubParseStatus::Malformed, diagnostic: GithubDiagnostic { kind: GithubDiagnosticKind::MalformedValue, span } });
        },
        Ok(v) => v,
    };
    match check_json(&value, 0, 0, options) {
        Err(f) => return Err(f),
        Ok(_) => {},
    }
    let mut updates: Vec<DependencyUpdate> = Vec::new();
    let rules: &Vec<JsonValue> = match &value {
        JsonValue::Object(e) => match member(e, "packageRules") {
            Some(JsonValue::Array(a)) => a,
            _ => {
                let bot = DependencyBot { provider: DependencyBotProvider::Renovate, updates };
                assert(package_rules(value) =~= Seq::<JsonValue>::empty());
                assert(rule_objects(Seq::<JsonValue>::empty()).len() == 0);
                return Ok((bot, Vec::new()));
            },
        },
        _ => {
            let bot = DependencyBot { provider: DependencyBotProvider::Renovate, updates };
            assert(rule_objects(Seq::<JsonValue>::empty()).len() == 0);
            return Ok((bot, Vec::new()));
        },
    };
    assert(rules@ == package_rules(value));
    let mut i: usize = 0;
    assert(rules@.take(0) =~= Seq::<JsonValue>::empty());
    while i < rules.len()
        invariant
            i <= rules@.len(),
            updates@.len() == rule_objects(rules@.take(i as int)).len(),
            forall|m: int| 0 <= m < updates@.len() ==> renovate_update(#[trigger] updates@[m], rule_objects(rules@.take(i as int))[m]),
        decreases rules.len() - i,
    {
        assert(rules@.take(i + 1).drop_last() =~= rules@.take(i as int));
        assert(rules@.take(i + 1).last() == rules@[i as int]);
        match &rules[i] {
            JsonValue::Object(e) => {
                let u = rule_update(e);
                updates.push(u);
            },
            _ => {},
        }
        i = i + 1;
    }
    assert(rules@.take(rules@.len() as int) =~= rules@);
    Ok((DependencyBot { provider: DependencyBotProvider::Renovate, updates }, Vec::new()))
}

/// A Renovate file: `renovate_result` of what the JSON parser gives for it.
pub fn parse_renovate(source: &str, options: &StructuredParseOptions) -> (r: Result<(DependencyBot, Vec<GithubDiagnostic>), ParseFailure>)
    requires
        byte_len(source@) <= usize::MAX,
    ensures
        renovate_result(r, json_document(source@), source@, *options),
{
    let parsed = parse_json(source);
    renovate_from_json(parsed, source, options)
}

} // verus!
