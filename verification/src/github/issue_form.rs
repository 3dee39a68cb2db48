//! GitHub issue forms read from their significant YAML lines: the fields
//! of the `body` list, the top-level keys GitHub does not know, the
//! required keys, and the security and question routes they name.

use vstd::prelude::*;
use crate::github::codeowners::StructuredParseOptions;
use crate::github::dependabot::{
    copy_opt, field_index, field_scalar, find_field, find_item_end, find_root, find_section_end,
    key_is, next_item_end, root_index, scalar_of, section_end,
};
use crate::github::yaml::{
    opt_view, tokenize, tokenize_spec, yaml_views, GithubDiagnostic, GithubDiagnosticKind,
    GithubParseStatus, ParseFailure, YamlLine, YamlLineView,
};
use crate::markdown::diagnostics::{byte_len, SourceSpan};
use crate::markdown::document::{contains_any, contains_some, str_views};
use crate::text::{ascii_lower, chars_of, string_of, to_ascii_lower};

verus! {

#[derive(Debug, Clone, Copy, PartialEq, Eq, Structural)]
pub enum IssueFormFieldKind {
    Input,
    Textarea,
    Dropdown,
    Checkboxes,
    Markdown,
    Upload,
    Unknown,
}

/// A field kind by its `type` value.
pub open spec fn field_kind(v: Option<Seq<char>>) -> IssueFormFieldKind {
    match v {
        Some(s) => if s == "input"@ { IssueFormFieldKind::Input }
            else if s == "textarea"@ { IssueFormFieldKind::Textarea }
            else if s == "dropdown"@ { IssueFormFieldKind::Dropdown }
            else if s == "checkboxes"@ { IssueFormFieldKind::Checkboxes }
            else if s == "markdown"@ { IssueFormFieldKind::Markdown }
            else if s == "upload"@ { IssueFormFieldKind::Upload }
            else { IssueFormFieldKind::Unknown },
        None => IssueFormFieldKind::Unknown,
    }
}

/// One field of an issue form's body.
#[derive(Debug, Clone, PartialEq, Eq)]
pub struct IssueFormField {
    pub kind: IssueFormFieldKind,
    pub id: Option<String>,
    pub required: Option<bool>,
    pub span: SourceSpan,
    pub unknown_keys: Vec<String>,
}

#[derive(Debug, Clone, Copy, PartialEq, Eq, Structural)]
pub struct IssueFormRequiredFields {
    pub name: bool,
    pub description: bool,
    pub body: bool,
}

#[derive(Debug, Clone, Copy, PartialEq, Eq, Structural)]
pub enum IssueRouteCandidateKind {
    Security,
    Question,
}

#[derive(Debug, Clone, Copy, PartialEq, Eq, Structural)]
pub struct IssueRouteCandidate {
    pub kind: IssueRouteCandidateKind,
    pub span: SourceSpan,
}

#[derive(Debug, Clone, PartialEq, Eq)]
pub struct IssueForm {
    pub name: Option<String>,
    pub description: Option<String>,
    pub fields: Vec<IssueFormField>,
    pub required_fields: IssueFormRequiredFields,
    pub unknown_top_level_keys: Vec<String>,
    pub route_candidates: Vec<IssueRouteCandidate>,
    pub schema: String,
}

pub open spec fn issue_form_schema() -> Seq<char> {
    "github.issue-form.public-preview.2026-07"@
}

/// The top-level keys an issue form may have.
pub open spec fn top_level_key(k: Seq<char>) -> bool {
    k == "name"@ || k == "description"@ || k == "body"@ || k == "assignees"@ || k == "labels"@
        || k == "title"@ || k == "type"@ || k == "projects"@
}

/// The top-level lines (`0..n`) whose key an issue form does not allow.
pub open spec fn unknown_top(l: Seq<YamlLineView>, n: int) -> Seq<YamlLineView>
    decreases n,
{
    if n <= 0 {
        Seq::empty()
    } else {
        let prev = unknown_top(l, n - 1);
        let x = l[n - 1];
        if !x.is_list && x.indent == 0 && x.key is Some && !top_level_key(x.key->0) { prev.push(x) } else { prev }
    }
}

/// The keys a field may have.
pub open spec fn field_key(k: Seq<char>) -> bool {
    k == "id"@ || k == "attributes"@ || k == "validations"@
}

/// The keys in `from..to` (indented at most 4) that a field does not allow.
pub open spec fn unknown_field_keys(l: Seq<YamlLineView>, from: int, to: int) -> Seq<Seq<char>>
    decreases to - from,
{
    if from >= to || from < 0 {
        Seq::empty()
    } else {
        let rest = unknown_field_keys(l, from + 1, to);
        let x = l[from];
        if x.indent <= 4 && x.key is Some && !field_key(x.key->0) { seq![x.key->0] + rest } else { rest }
    }
}

/// The `required` flag of a field: absent, `true`, `false`, or a malformed
/// value at its line.
pub open spec fn field_flag(l: Seq<YamlLineView>, from: int, to: int) -> Result<Option<bool>, SourceSpan> {
    let i = field_index(l, from, to, "required"@);
    if i < 0 {
        Ok(None)
    } else if l[i].value == Some("true"@) {
        Ok(Some(true))
    } else if l[i].value == Some("false"@) {
        Ok(Some(false))
    } else {
        Err(l[i].span)
    }
}

/// The field items of the body in `i..end`, each with where it ends.
pub open spec fn field_items(l: Seq<YamlLineView>, i: int, end: int) -> Seq<(int, int)>
    decreases end - i,
{
    if i >= end || i < 0 {
        Seq::empty()
    } else if l[i].is_list && l[i].key == Some("type"@) {
        let e = next_item_end(l, i + 1, end, l[i].indent);
        if i < e && e <= end { seq![(i, e)] + field_items(l, e, end) } else { Seq::empty() }
    } else {
        field_items(l, i + 1, end)
    }
}

/// The field items of the root `body` list.
pub open spec fn body_items(l: Seq<YamlLineView>) -> Seq<(int, int)> {
    let b = root_index(l, 0, "body"@);
    if b < 0 { Seq::empty() } else { field_items(l, b + 1, section_end(l, b + 1, l.len() as int, l[b].indent)) }
}

/// The first malformed `required` flag among the items, if any.
pub open spec fn first_bad_flag(l: Seq<YamlLineView>, items: Seq<(int, int)>) -> Option<SourceSpan>
    decreases items.len(),
{
    if items.len() == 0 {
        None
    } else {
        match field_flag(l, items[0].0 + 1, items[0].1) {
            Err(span) => Some(span),
            Ok(_) => first_bad_flag(l, items.drop_first()),
        }
    }
}

/// `f` is the field of the item at `i` ending at `e`.
pub open spec fn field_of(f: IssueFormField, l: Seq<YamlLineView>, i: int, e: int) -> bool {
    &&& f.kind == field_kind(l[i].value)
    &&& opt_view(f.id) == field_scalar(l, i + 1, e, "id"@)
    &&& field_flag(l, i + 1, e) == Ok::<Option<bool>, SourceSpan>(f.required)
    &&& f.span == l[i].span
    &&& crate::profiles::scoring::string_views(f.unknown_keys@) == unknown_field_keys(l, i + 1, e)
}

/// The item flags a diagnostic: an unknown kind or unknown keys.
pub open spec fn field_flagged(l: Seq<YamlLineView>, i: int, e: int) -> bool {
    field_kind(l[i].value) == IssueFormFieldKind::Unknown || unknown_field_keys(l, i + 1, e).len() > 0
}

/// The items that flag a diagnostic, by their spans.
pub open spec fn flagged_spans(l: Seq<YamlLineView>, items: Seq<(int, int)>) -> Seq<SourceSpan>
    decreases items.len(),
{
    if items.len() == 0 {
        Seq::empty()
    } else {
        let rest = flagged_spans(l, items.drop_last());
        let (i, e) = items.last();
        if field_flagged(l, i, e) { rest.push(l[i].span) } else { rest }
    }
}

/// The keys that route candidates read.
pub open spec fn route_key(k: Option<Seq<char>>) -> bool {
    k == Some("name"@) || k == Some("description"@) || k == Some("labels"@) || k == Some("type"@) || k == Some("id"@)
}

/// The first line at or after `from` whose routed key's value, lower-cased,
/// holds one of `words`; `-1` if none.
pub open spec fn first_route_line(l: Seq<YamlLineView>, from: int, words: Seq<Seq<char>>) -> int
    decreases l.len() - from,
{
    if from < 0 || from >= l.len() {
        -1
    } else if route_key(l[from].key) && l[from].value is Some && contains_some(ascii_lower(l[from].value->0), words) {
        from
    } else {
        first_route_line(l, from + 1, words)
    }
}

pub open spec fn security_words() -> Seq<Seq<char>> {
    seq!["security"@, "vulnerability"@, "cve"@]
}

pub open spec fn question_words() -> Seq<Seq<char>> {
    seq!["question"@, "help"@, "support"@]
}

/// A security candidate, then a question candidate, each where first named.
pub open spec fn route_candidates(l: Seq<YamlLineView>) -> Seq<IssueRouteCandidate> {
    let s = first_route_line(l, 0, security_words());
    let q = first_route_line(l, 0, question_words());
    let a: Seq<IssueRouteCandidate> = if s >= 0 { seq![IssueRouteCandidate { kind: IssueRouteCandidateKind::Security, span: l[s].span }] } else { Seq::empty() };
    let b: Seq<IssueRouteCandidate> = if q >= 0 { seq![IssueRouteCandidate { kind: IssueRouteCandidateKind::Question, span: l[q].span }] } else { Seq::empty() };
    a + b
}

pub open spec fn required_of(l: Seq<YamlLineView>) -> IssueFormRequiredFields {
    IssueFormRequiredFields {
        name: root_index(l, 0, "name"@) >= 0,
        description: root_index(l, 0, "description"@) >= 0,
        body: root_index(l, 0, "body"@) >= 0,
    }
}

pub open spec fn root_scalar(l: Seq<YamlLineView>, key: Seq<char>) -> Option<Seq<char>> {
    let i = root_index(l, 0, key);
    if i < 0 { None } else { l[i].value }
}

pub open spec fn unknown_field_diag(span: SourceSpan) -> GithubDiagnostic {
    GithubDiagnostic { kind: GithubDiagnosticKind::UnknownField, span }
}

/// The diagnostics of an issue form: unknown top-level keys, flagged
/// fields, then a missing required key (at the document's start).
pub open spec fn issue_form_diagnostics(l: Seq<YamlLineView>) -> Seq<GithubDiagnostic> {
    let req = required_of(l);
    unknown_top(l, l.len() as int).map_values(|x: YamlLineView| unknown_field_diag(x.span))
        + flagged_spans(l, body_items(l)).map_values(|s: SourceSpan| unknown_field_diag(s))
        + if req.name && req.description && req.body {
            Seq::<GithubDiagnostic>::empty()
        } else {
            seq![GithubDiagnostic { kind: GithubDiagnosticKind::MissingRequiredField, span: SourceSpan { line: 1, column: 1, byte_start: 0, byte_end: 0 } }]
        }
}


fn key_in(k: &str, allowed: &[&str]) -> (r: bool)
    ensures
        r == str_views(allowed@).contains(k@),
{
    let c = chars_of(k);
    let mut i: usize = 0;
    while i < allowed.len()
        invariant
            i <= allowed@.len(),
            c@ == k@,
            forall|j: int| 0 <= j < i ==> str_views(allowed@)[j] != k@,
        decreases allowed.len() - i,
    {
        if crate::text::equals_str(c.as_slice(), allowed[i]) {
            assert(str_views(allowed@)[i as int] == k@);
            return true;
        }
        i = i + 1;
    }
    false
}

fn top_level_keys() -> (r: [&'static str; 8])
    ensures
        forall|k: Seq<char>| str_views(r@).contains(k) == top_level_key(k),
{
    let r = ["name", "description", "body", "assignees", "labels", "title", "type", "projects"];
    assert(str_views(r@) =~= seq!["name"@, "description"@, "body"@, "assignees"@, "labels"@, "title"@, "type"@, "projects"@]);
    r
}

fn field_keys() -> (r: [&'static str; 3])
    ensures
        forall|k: Seq<char>| str_views(r@).contains(k) == field_key(k),
{
    let r = ["id", "attributes", "validations"];
    assert(str_views(r@) =~= seq!["id"@, "attributes"@, "validations"@]);
    r
}

fn unknown_top_keys(lines: &[YamlLine]) -> (r: (Vec<String>, Vec<GithubDiagnostic>))
    ensures
        crate::profiles::scoring::string_views(r.0@) == unknown_top(yaml_views(lines@), lines@.len() as int).map_values(|x: YamlLineView| x.key->0),
        r.1@ == unknown_top(yaml_views(lines@), lines@.len() as int).map_values(|x: YamlLineView| unknown_field_diag(x.span)),
{
    let ghost l = yaml_views(lines@);
    let allowed = top_level_keys();
    let mut keys: Vec<String> = Vec::new();
    let mut diags: Vec<GithubDiagnostic> = Vec::new();
    let mut i: usize = 0;
    while i < lines.len()
        invariant
            i <= lines@.len(),
            l == yaml_views(lines@),
            forall|k: Seq<char>| str_views(allowed@).contains(k) == top_level_key(k),
            crate::profiles::scoring::string_views(keys@) == unknown_top(l, i as int).map_values(|x: YamlLineView| x.key->0),
            diags@ == unknown_top(l, i as int).map_values(|x: YamlLineView| unknown_field_diag(x.span)),
        decreases lines.len() - i,
    {
        assert(l[i as int] == lines@[i as int]@);
        let line = &lines[i];
        let ghost kb = keys@;
        let ghost db = diags@;
        if !line.is_list && line.indent == 0 {
            match &line.key {
                Some(k) => {
                    if !key_in(k.as_str(), allowed.as_slice()) {
                        keys.push(string_of(chars_of(k.as_str()).as_slice()));
                        assert(crate::profiles::scoring::string_views(keys@) =~= crate::profiles::scoring::string_views(kb).push(k@));
                        assert(unknown_top(l, i + 1) == unknown_top(l, i as int).push(l[i as int]));
                        diags.push(GithubDiagnostic { kind: GithubDiagnosticKind::UnknownField, span: line.span });
                    }
                },
                None => {},
            }
        }
        assert(crate::profiles::scoring::string_views(keys@) =~= unknown_top(l, i + 1).map_values(|x: YamlLineView| x.key->0));
        assert(diags@ =~= unknown_top(l, i + 1).map_values(|x: YamlLineView| unknown_field_diag(x.span)));
        i = i + 1;
    }
    (keys, diags)
}

fn unknown_keys_of(lines: &[YamlLine], from: usize, to: usize) -> (r: Vec<String>)
    requires
        from <= to <= lines@.len(),
    ensures
        crate::profiles::scoring::string_views(r@) == unknown_field_keys(yaml_views(lines@), from as int, to as int),
{
    let ghost l = yaml_views(lines@);
    let allowed = field_keys();
    let mut out: Vec<String> = Vec::new();
    let mut i = from;
    assert(crate::profiles::scoring::string_views(out@) =~= Seq::<Seq<char>>::empty());
    while i < to
        invariant
            from <= i <= to <= lines@.len(),
            l == yaml_views(lines@),
            forall|k: Seq<char>| str_views(allowed@).contains(k) == field_key(k),
            unknown_field_keys(l, from as int, to as int) == crate::profiles::scoring::string_views(out@) + unknown_field_keys(l, i as int, to as int),
        decreases to - i,
    {
        assert(l[i as int] == lines@[i as int]@);
        let line = &lines[i];
        let ghost before = crate::profiles::scoring::string_views(out@);
        if line.indent <= 4 {
            match &line.key {
                Some(k) => {
                    if !key_in(k.as_str(), allowed.as_slice()) {
                        out.push(string_of(chars_of(k.as_str()).as_slice()));
                        assert(crate::profiles::scoring::string_views(out@) =~= before.push(k@));
                        assert(before + unknown_field_keys(l, i as int, to as int) =~= crate::profiles::scoring::string_views(out@) + unknown_field_keys(l, i + 1, to as int));
                    }
                },
                None => {},
            }
        }
        i = i + 1;
    }
    assert(crate::profiles::scoring::string_views(out@) + Seq::<Seq<char>>::empty() =~= crate::profiles::scoring::string_views(out@));
    out
}

fn kind_of(v: &Option<String>) -> (r: IssueFormFieldKind)
    ensures
        r == field_kind(opt_view(*v)),
{
    match v {
        None => IssueFormFieldKind::Unknown,
        Some(s) => {
            let c = chars_of(s.as_str());
            let c = c.as_slice();
            if crate::text::equals_str(c, "input") { IssueFormFieldKind::Input }
            else if crate::text::equals_str(c, "textarea") { IssueFormFieldKind::Textarea }
            else if crate::text::equals_str(c, "dropdown") { IssueFormFieldKind::Dropdown }
            else if crate::text::equals_str(c, "checkboxes") { IssueFormFieldKind::Checkboxes }
            else if crate::text::equals_str(c, "markdown") { IssueFormFieldKind::Markdown }
            else if crate::text::equals_str(c, "upload") { IssueFormFieldKind::Upload }
            else { IssueFormFieldKind::Unknown }
        },
    }
}

fn flag_of(lines: &[YamlLine], from: usize, to: usize) -> (r: Result<Option<bool>, SourceSpan>)
    requires
        from <= to <= lines@.len(),
    ensures
        r == field_flag(yaml_views(lines@), from as int, to as int),
{
    match find_field(lines, from, to, "required") {
        None => Ok(None),
        Some(i) => {
            assert(yaml_views(lines@)[i as int] == lines@[i as int]@);
            match &lines[i].value {
                Some(v) => {
                    let c = chars_of(v.as_str());
                    if crate::text::equals_str(c.as_slice(), "true") {
                        Ok(Some(true))
                    } else if crate::text::equals_str(c.as_slice(), "false") {
                        Ok(Some(false))
                    } else {
                        Err(lines[i].span)
                    }
                },
                None => Err(lines[i].span),
            }
        },
    }
}

fn first_route(lines: &[YamlLine], words: &[&str]) -> (r: Option<usize>)
    ensures
        match r {
            Some(i) => i as int == first_route_line(yaml_views(lines@), 0, str_views(words@)) && i < lines@.len(),
            None => first_route_line(yaml_views(lines@), 0, str_views(words@)) == -1,
        },
{
    let ghost l = yaml_views(lines@);
    let mut i: usize = 0;
    while i < lines.len()
        invariant
            i <= lines@.len(),
            l == yaml_views(lines@),
            first_route_line(l, 0, str_views(words@)) == first_route_line(l, i as int, str_views(words@)),
        decreases lines.len() - i,
    {
        assert(l[i as int] == lines@[i as int]@);
        let line = &lines[i];
        let routed = key_is(line, "name") || key_is(line, "description") || key_is(line, "labels") || key_is(line, "type") || key_is(line, "id");
        if routed {
            match &line.value {
                Some(v) => {
                    let lower = to_ascii_lower(chars_of(v.as_str()).as_slice());
                    let text = string_of(lower.as_slice());
                    if contains_any(text.as_str(), words) {
                        return Some(i);
                    }
                },
                None => {},
            }
        }
        i = i + 1;
    }
    None
}

fn candidates_of(lines: &[YamlLine]) -> (r: Vec<IssueRouteCandidate>)
    ensures
        r@ == route_candidates(yaml_views(lines@)),
{
    let security = ["security", "vulnerability", "cve"];
    let question = ["question", "help", "support"];
    assert(str_views(security@) =~= security_words());
    assert(str_views(question@) =~= question_words());
    let mut out: Vec<IssueRouteCandidate> = Vec::new();
    match first_route(lines, security.as_slice()) {
        Some(i) => {
            assert(yaml_views(lines@)[i as int] == lines@[i as int]@);
            out.push(IssueRouteCandidate { kind: IssueRouteCandidateKind::Security, span: lines[i].span });
        },
        None => {},
    }
    match first_route(lines, question.as_slice()) {
        Some(i) => {
            assert(yaml_views(lines@)[i as int] == lines@[i as int]@);
            out.push(IssueRouteCandidate { kind: IssueRouteCandidateKind::Question, span: lines[i].span });
        },
        None => {},
    }
    assert(out@ =~= route_candidates(yaml_views(lines@)));
    out
}


/// `f` is the issue form of lines `l` (whose flags are all well formed).
pub open spec fn form_of(f: IssueForm, l: Seq<YamlLineView>) -> bool {
    &&& opt_view(f.name) == root_scalar(l, "name"@)
    &&& opt_view(f.description) == root_scalar(l, "description"@)
    &&& f.fields@.len() == body_items(l).len()
    &&& forall|m: int| 0 <= m < f.fields@.len() ==> field_of(#[trigger] f.fields@[m], l, body_items(l)[m].0, body_items(l)[m].1)
    &&& f.required_fields == required_of(l)
    &&& crate::profiles::scoring::string_views(f.unknown_top_level_keys@) == unknown_top(l, l.len() as int).map_values(|x: YamlLineView| x.key->0)
    &&& f.route_candidates@ == route_candidates(l)
    &&& f.schema@ == issue_form_schema()
}

pub open spec fn malformed_at(span: SourceSpan) -> ParseFailure {
    ParseFailure {
        status: GithubParseStatus::Malformed,
        diagnostic: GithubDiagnostic { kind: GithubDiagnosticKind::MalformedValue, span },
    }
}

proof fn lemma_bad_flag_split(l: Seq<YamlLineView>, a: Seq<(int, int)>, b: Seq<(int, int)>)
    requires
        first_bad_flag(l, a) is None,
    ensures
        first_bad_flag(l, a + b) == first_bad_flag(l, b),
    decreases a.len(),
{
    if a.len() > 0 {
        assert((a + b).drop_first() =~= a.drop_first() + b);
        lemma_bad_flag_split(l, a.drop_first(), b);
    } else {
        assert(a + b =~= b);
    }
}

proof fn lemma_bad_flag_push(l: Seq<YamlLineView>, a: Seq<(int, int)>, x: (int, int))
    requires
        first_bad_flag(l, a) is None,
        field_flag(l, x.0 + 1, x.1) is Ok,
    ensures
        first_bad_flag(l, a.push(x)) is None,
    decreases a.len(),
{
    if a.len() > 0 {
        assert(a.push(x).drop_first() =~= a.drop_first().push(x));
        assert(a.push(x)[0] == a[0]);
        lemma_bad_flag_push(l, a.drop_first(), x);
    } else {
        assert(a.push(x).drop_first() =~= Seq::<(int, int)>::empty());
        assert(a.push(x)[0] == x);
        assert(first_bad_flag(l, Seq::<(int, int)>::empty()) is None);
    }
}

/// The fields of the body list and the flagged fields' spans, or the span
/// of the first malformed `required` flag.
fn body_fields(lines: &[YamlLine]) -> (r: Result<(Vec<IssueFormField>, Vec<SourceSpan>), SourceSpan>)
    ensures
        match first_bad_flag(yaml_views(lines@), body_items(yaml_views(lines@))) {
            Some(span) => r == Err::<(Vec<IssueFormField>, Vec<SourceSpan>), SourceSpan>(span),
            None => r matches Ok((fields, spans))
                && fields@.len() == body_items(yaml_views(lines@)).len()
                && (forall|m: int| 0 <= m < fields@.len() ==> field_of(#[trigger] fields@[m], yaml_views(lines@),
                    body_items(yaml_views(lines@))[m].0, body_items(yaml_views(lines@))[m].1))
                && spans@ == flagged_spans(yaml_views(lines@), body_items(yaml_views(lines@))),
        },
{
    let ghost l = yaml_views(lines@);
    let mut fields: Vec<IssueFormField> = Vec::new();
    let mut spans: Vec<SourceSpan> = Vec::new();
    let found = find_root(lines, "body");
    let b = match found {
        None => {
            assert(flagged_spans(l, Seq::<(int, int)>::empty()) =~= Seq::<SourceSpan>::empty());
            return Ok((fields, spans));
        },
        Some(b) => b,
    };
    let n = lines.len();
    assert(l[b as int] == lines@[b as int]@);
    let end = find_section_end(lines, b + 1, n, lines[b].indent);
    let ghost items = body_items(l);
    let ghost mut done: Seq<(int, int)> = Seq::empty();
    let mut i = b + 1;
    assert(items == done + field_items(l, i as int, end as int));
    while i < end
        invariant
            b + 1 <= i <= end <= lines@.len(),
            l == yaml_views(lines@),
            items == body_items(l),
            items == done + field_items(l, i as int, end as int),
            first_bad_flag(l, done) is None,
            fields@.len() == done.len(),
            forall|m: int| 0 <= m < fields@.len() ==> field_of(#[trigger] fields@[m], l, done[m].0, done[m].1),
            spans@ == flagged_spans(l, done),
        decreases end - i,
    {
        assert(l[i as int] == lines@[i as int]@);
        if lines[i].is_list && key_is(&lines[i], "type") {
            let e = find_item_end(lines, i + 1, end, lines[i].indent);
            let ghost rest = field_items(l, e as int, end as int);
            assert(field_items(l, i as int, end as int) == seq![(i as int, e as int)] + rest);
            let flag = flag_of(lines, i + 1, e);
            match flag {
                Err(span) => {
                    proof {
                        assert(done + field_items(l, i as int, end as int) =~= done + (seq![(i as int, e as int)] + rest));
                        lemma_bad_flag_split(l, done, seq![(i as int, e as int)] + rest);
                    }
                    return Err(span);
                },
                Ok(required) => {
                    let kind = kind_of(&lines[i].value);
                    let unknown = unknown_keys_of(lines, i + 1, e);
                    let flagged = matches!(kind, IssueFormFieldKind::Unknown) || unknown.len() > 0;
                    assert(flagged == field_flagged(l, i as int, e as int));
                    if flagged {
                        spans.push(lines[i].span);
                    }
                    fields.push(IssueFormField {
                        kind,
                        id: scalar_of(lines, i + 1, e, "id"),
                        required,
                        span: lines[i].span,
                        unknown_keys: unknown,
                    });
                    proof {
                        lemma_bad_flag_push(l, done, (i as int, e as int));
                        assert(done.push((i as int, e as int)).drop_last() =~= done);
                        assert(done + field_items(l, i as int, end as int) =~= done.push((i as int, e as int)) + rest);
                        done = done.push((i as int, e as int));
                    }
                    i = e;
                },
            }
        } else {
            i = i + 1;
        }
    }
    assert(done + field_items(l, i as int, end as int) =~= done);
    Ok((fields, spans))
}

/// An issue form: `form_of` its lines, with `issue_form_diagnostics`; the
/// first malformed `required` flag fails it; or the tokenizer's failure.
pub fn parse_issue_form(source: &str, options: &StructuredParseOptions) -> (r: Result<(IssueForm, Vec<GithubDiagnostic>), ParseFailure>)
    requires
        byte_len(source@) < usize::MAX,
    ensures
        match tokenize_spec(source@, *options) {
            Err(f) => r == Err::<(IssueForm, Vec<GithubDiagnostic>), ParseFailure>(f),
            Ok(l) => match first_bad_flag(l, body_items(l)) {
                Some(span) => r == Err::<(IssueForm, Vec<GithubDiagnostic>), ParseFailure>(malformed_at(span)),
                None => r matches Ok((form, diags)) && form_of(form, l) && diags@ == issue_form_diagnostics(l),
            },
        },
{
    let lines = match tokenize(source, options) {
        Err(f) => return Err(f),
        Ok(lines) => lines,
    };
    let ghost l = yaml_views(lines@);
    let (unknown_keys, mut diagnostics) = unknown_top_keys(lines.as_slice());
    let (fields, spans) = match body_fields(lines.as_slice()) {
        Err(span) => {
            return Err(ParseFailure { status: GithubParseStatus::Malformed, diagnostic: GithubDiagnostic { kind: GithubDiagnosticKind::MalformedValue, span } });
        },
        Ok(parts) => parts,
    };
    let mut k: usize = 0;
    let ghost base = diagnostics@;
    while k < spans.len()
        invariant
            k <= spans@.len(),
            diagnostics@ == base + spans@.take(k as int).map_values(|s: SourceSpan| unknown_field_diag(s)),
        decreases spans.len() - k,
    {
        diagnostics.push(GithubDiagnostic { kind: GithubDiagnosticKind::UnknownField, span: spans[k] });
        assert(spans@.take(k + 1).map_values(|s: SourceSpan| unknown_field_diag(s)) =~= spans@.take(k as int).map_values(|s: SourceSpan| unknown_field_diag(s)).push(unknown_field_diag(spans@[k as int])));
        k = k + 1;
    }
    assert(spans@.take(spans@.len() as int) =~= spans@);
    let name_at = find_root(lines.as_slice(), "name");
    let description_at = find_root(lines.as_slice(), "description");
    let body_at = find_root(lines.as_slice(), "body");
    let required_fields = IssueFormRequiredFields { name: name_at.is_some(), description: description_at.is_some(), body: body_at.is_some() };
    let ghost before = diagnostics@;
    if !required_fields.name || !required_fields.description || !required_fields.body {
        diagnostics.push(GithubDiagnostic { kind: GithubDiagnosticKind::MissingRequiredField, span: SourceSpan { line: 1, column: 1, byte_start: 0, byte_end: 0 } });
    }
    assert(diagnostics@ =~= issue_form_diagnostics(l));
    let name = match name_at {
        Some(i) => { assert(l[i as int] == lines@[i as int]@); copy_opt(&lines[i].value) },
        None => None,
    };
    let description = match description_at {
        Some(i) => { assert(l[i as int] == lines@[i as int]@); copy_opt(&lines[i].value) },
        None => None,
    };
    let form = IssueForm {
        name,
        description,
        fields,
        required_fields,
        unknown_top_level_keys: unknown_keys,
        route_candidates: candidates_of(lines.as_slice()),
        schema: string_of(chars_of("github.issue-form.public-preview.2026-07").as_slice()),
    };
    Ok((form, diagnostics))
}

} // verus!
