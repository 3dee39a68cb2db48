//! GitHub Actions workflows read from their significant YAML lines: the
//! triggers under `on`, the jobs under `jobs` with their steps, action
//! references, token permissions and the kinds of work they name.

use vstd::prelude::*;
use crate::github::codeowners::StructuredParseOptions;
use crate::github::dependabot::{
    has_expression, section_end, static_text, text_value, StaticUnknownReason, StaticValue,
};
use crate::github::yaml::{opt_view, tokenize, tokenize_spec, yaml_views, ParseFailure, YamlLine, YamlLineView};
use crate::markdown::diagnostics::{byte_len, SourceSpan};
use crate::text::{ascii_lower, chars_of, has_infix, has_prefix, string_of, to_ascii_lower, trim};
use crate::fs::containment::split_on;

verus! {

/// Which lines a search looks for.
pub enum Finder<'a> {
    /// A mapping line keyed `key`.
    MappingKey(&'a str),
    /// A mapping line at `indent` keyed `key`.
    MappingAt(usize, &'a str),
    /// Any mapping line at `indent`.
    MappingIndent(usize),
    /// Any list item at `indent`.
    ListIndent(usize),
    /// Any line keyed `key`.
    Keyed(&'a str),
}

pub open spec fn finds(f: Finder, x: YamlLineView) -> bool {
    match f {
        Finder::MappingKey(k) => !x.is_list && x.key == Some(k@),
        Finder::MappingAt(i, k) => !x.is_list && x.indent == i && x.key == Some(k@),
        Finder::MappingIndent(i) => !x.is_list && x.indent == i,
        Finder::ListIndent(i) => x.is_list && x.indent == i,
        Finder::Keyed(k) => x.key == Some(k@),
    }
}

/// The first line in `from..to` that `f` finds; `-1` if none.
pub open spec fn first_found(l: Seq<YamlLineView>, from: int, to: int, f: Finder) -> int
    decreases to - from,
{
    if from >= to || from < 0 || from >= l.len() {
        -1
    } else if finds(f, l[from]) {
        from
    } else {
        first_found(l, from + 1, to, f)
    }
}

/// The first line `f` finds in `from..to`, or `to`.
pub open spec fn found_or_end(l: Seq<YamlLineView>, from: int, to: int, f: Finder) -> int {
    let i = first_found(l, from, to, f);
    if i < 0 { to } else { i }
}

pub(crate) fn find_where(lines: &[YamlLine], from: usize, to: usize, f: &Finder) -> (r: Option<usize>)
    requires
        from <= to <= lines@.len(),
    ensures
        match r {
            Some(i) => i as int == first_found(yaml_views(lines@), from as int, to as int, *f) && from <= i < to,
            None => first_found(yaml_views(lines@), from as int, to as int, *f) == -1,
        },
{
    let ghost l = yaml_views(lines@);
    let mut i = from;
    while i < to
        invariant
            from <= i <= to <= lines@.len(),
            l == yaml_views(lines@),
            first_found(l, from as int, to as int, *f) == first_found(l, i as int, to as int, *f),
        decreases to - i,
    {
        assert(l[i as int] == lines@[i as int]@);
        let line = &lines[i];
        let hit = match f {
            Finder::MappingKey(k) => !line.is_list && crate::github::dependabot::key_is(line, k),
            Finder::MappingAt(ind, k) => !line.is_list && line.indent == *ind && crate::github::dependabot::key_is(line, k),
            Finder::MappingIndent(ind) => !line.is_list && line.indent == *ind,
            Finder::ListIndent(ind) => line.is_list && line.indent == *ind,
            Finder::Keyed(k) => crate::github::dependabot::key_is(line, k),
        };
        if hit {
            return Some(i);
        }
        i = i + 1;
    }
    None
}

fn end_where(lines: &[YamlLine], from: usize, to: usize, f: &Finder) -> (r: usize)
    requires
        from <= to <= lines@.len(),
    ensures
        r as int == found_or_end(yaml_views(lines@), from as int, to as int, *f),
        from <= r <= to,
{
    match find_where(lines, from, to, f) {
        Some(i) => i,
        None => to,
    }
}

fn static_of_value(v: &Option<String>, span: SourceSpan) -> (r: StaticValue<String>)
    ensures
        text_value(r) == match opt_view(*v) {
            Some(s) => static_text(s, span),
            None => StaticValue::Unknown(StaticUnknownReason::Omitted),
        },
{
    match v {
        Some(s) => {
            let c = chars_of(s.as_str());
            if crate::text::contains(c.as_slice(), chars_of("${{").as_slice()) {
                StaticValue::Expression { span }
            } else {
                StaticValue::Literal(string_of(c.as_slice()))
            }
        },
        None => StaticValue::Unknown(StaticUnknownReason::Omitted),
    }
}

/// How an action reference names what it runs.
#[derive(Debug, Clone, PartialEq, Eq)]
pub enum ActionReferenceKind {
    Dynamic,
    LocalPath(String),
    Docker(String),
    FullObjectId(String),
    TagOrBranch(String),
    Malformed,
}

pub enum ActionKindView {
    Dynamic,
    LocalPath(Seq<char>),
    Docker(Seq<char>),
    FullObjectId(Seq<char>),
    TagOrBranch(Seq<char>),
    Malformed,
}

pub open spec fn action_kind_view(k: ActionReferenceKind) -> ActionKindView {
    match k {
        ActionReferenceKind::Dynamic => ActionKindView::Dynamic,
        ActionReferenceKind::LocalPath(s) => ActionKindView::LocalPath(s@),
        ActionReferenceKind::Docker(s) => ActionKindView::Docker(s@),
        ActionReferenceKind::FullObjectId(s) => ActionKindView::FullObjectId(s@),
        ActionReferenceKind::TagOrBranch(s) => ActionKindView::TagOrBranch(s@),
        ActionReferenceKind::Malformed => ActionKindView::Malformed,
    }
}

#[derive(Debug, Clone, PartialEq, Eq)]
pub struct ActionReference {
    pub raw: StaticValue<String>,
    pub kind: ActionReferenceKind,
    pub span: SourceSpan,
}

pub open spec fn hex_char(c: char) -> bool {
    ('0' <= c && c <= '9') || ('a' <= c && c <= 'f') || ('A' <= c && c <= 'F')
}

/// The hexadecimal digits, in both letter cases.
pub open spec fn hex_digits() -> Seq<char> {
    "0123456789abcdefABCDEF"@
}

/// `hex_char` accepts exactly the hexadecimal digits, upper and lower case
/// alike (what `char::is_ascii_hexdigit` accepts).
pub proof fn lemma_hex_char_is_hex_digit(c: char)
    ensures
        hex_char(c) <==> hex_digits().contains(c),
{
    reveal_strlit("0123456789abcdefABCDEF");
    let d = hex_digits();
    assert(d.len() == 22);
    if hex_char(c) {
        if '0' <= c && c <= '9' {
            assert(c == '0' || c == '1' || c == '2' || c == '3' || c == '4' || c == '5' || c == '6'
                || c == '7' || c == '8' || c == '9');
            assert(d[0] == '0' && d[1] == '1' && d[2] == '2' && d[3] == '3' && d[4] == '4');
            assert(d[5] == '5' && d[6] == '6' && d[7] == '7' && d[8] == '8' && d[9] == '9');
        } else if 'a' <= c && c <= 'f' {
            assert(c == 'a' || c == 'b' || c == 'c' || c == 'd' || c == 'e' || c == 'f');
            assert(d[10] == 'a' && d[11] == 'b' && d[12] == 'c' && d[13] == 'd' && d[14] == 'e' && d[15] == 'f');
        } else {
            assert(c == 'A' || c == 'B' || c == 'C' || c == 'D' || c == 'E' || c == 'F');
            assert(d[16] == 'A' && d[17] == 'B' && d[18] == 'C' && d[19] == 'D' && d[20] == 'E' && d[21] == 'F');
        }
    }
    if d.contains(c) {
        let i = choose|i: int| 0 <= i < d.len() && d[i] == c;
        assert(hex_char(d[i]));
    }
}

/// The kind of a `uses` value: an expression is dynamic; `./` a local
/// path; `docker://` an image; else what follows the last `@`: forty hex
/// digits (lower-cased) an object id, nothing malformed, anything else a
/// tag or branch; without `@`, malformed.
pub open spec fn action_kind(v: Seq<char>) -> ActionKindView {
    if has_expression(v) {
        ActionKindView::Dynamic
    } else if has_prefix(v, "./"@) {
        ActionKindView::LocalPath(v)
    } else if has_prefix(v, "docker://"@) {
        ActionKindView::Docker(v.skip(9))
    } else {
        let at = crate::text::last_index_before(v, '@', v.len() as int);
        if at < 0 {
            ActionKindView::Malformed
        } else {
            let r = v.skip(at + 1);
            if r.len() == 40 && (forall|i: int| 0 <= i < r.len() ==> hex_char(#[trigger] r[i])) {
                ActionKindView::FullObjectId(ascii_lower(r))
            } else if r.len() == 0 {
                ActionKindView::Malformed
            } else {
                ActionKindView::TagOrBranch(r)
            }
        }
    }
}

/// The last `@` of `action@rest`, where `rest` holds no `@`, is the one
/// after `action`.
proof fn lemma_last_at(v: Seq<char>, action: Seq<char>, rest: Seq<char>)
    requires
        v == action + "@"@ + rest,
        !crate::text::has_char(rest, '@'),
    ensures
        crate::text::last_index_before(v, '@', v.len() as int) == action.len(),
        v.skip(action.len() as int + 1) == rest,
{
    reveal_strlit("@");
    let n = action.len() as int;
    assert(v[n] == '@');
    crate::text::lemma_last_index_before(v, '@', v.len() as int);
    let at = crate::text::last_index_before(v, '@', v.len() as int);
    if at > n {
        assert(v[at] == rest[at - n - 1]);
    }
    assert(v.skip(n + 1) =~= rest);
}

/// A `uses` value that is no expression, local path or image, and whose
/// text after its last `@` is forty hexadecimal digits of either case, is
/// pinned to a full object id: those digits, lower-cased.
pub proof fn lemma_pinned_object_id(v: Seq<char>, action: Seq<char>, id: Seq<char>)
    requires
        v == action + "@"@ + id,
        !has_expression(v),
        !has_prefix(v, "./"@),
        !has_prefix(v, "docker://"@),
        id.len() == 40,
        forall|i: int| 0 <= i < id.len() ==> hex_digits().contains(#[trigger] id[i]),
    ensures
        action_kind(v) == ActionKindView::FullObjectId(ascii_lower(id)),
{
    assert forall|i: int| 0 <= i < id.len() implies hex_char(#[trigger] id[i]) by {
        lemma_hex_char_is_hex_digit(id[i]);
    }
    if crate::text::has_char(id, '@') {
        let i = choose|i: int| 0 <= i < id.len() && id[i] == '@';
        assert(hex_char(id[i]));
    }
    lemma_last_at(v, action, id);
}

/// How the other `uses` values are read: one holding an expression is
/// dynamic; one starting `./` a local path; one starting `docker://` the
/// image after it; one without `@` malformed; and one whose text after its
/// last `@` is empty malformed, or else, when that text is not forty
/// hexadecimal digits, a tag or branch of that text.
pub proof fn lemma_action_kinds(v: Seq<char>, action: Seq<char>, rest: Seq<char>)
    ensures
        has_expression(v) ==> action_kind(v) == ActionKindView::Dynamic,
        !has_expression(v) && has_prefix(v, "./"@) ==> action_kind(v) == ActionKindView::LocalPath(v),
        !has_expression(v) && !has_prefix(v, "./"@) && has_prefix(v, "docker://"@) ==> action_kind(v)
            == ActionKindView::Docker(v.skip(9)),
        !has_expression(v) && !has_prefix(v, "./"@) && !has_prefix(v, "docker://"@)
            && !crate::text::has_char(v, '@') ==> action_kind(v) == ActionKindView::Malformed,
        (!has_expression(v) && !has_prefix(v, "./"@) && !has_prefix(v, "docker://"@) && v == action
            + "@"@ + rest && !crate::text::has_char(rest, '@')) ==> {
            &&& rest.len() == 0 ==> action_kind(v) == ActionKindView::Malformed
            &&& (rest.len() > 0 && !(rest.len() == 40 && forall|i: int|
                0 <= i < rest.len() ==> hex_digits().contains(#[trigger] rest[i])))
                ==> action_kind(v) == ActionKindView::TagOrBranch(rest)
        },
{
    crate::text::lemma_last_index_before(v, '@', v.len() as int);
    if v == action + "@"@ + rest && !crate::text::has_char(rest, '@') {
        lemma_last_at(v, action, rest);
        assert forall|i: int| 0 <= i < rest.len() implies (hex_char(rest[i]) <==> #[trigger] hex_digits().contains(rest[i])) by {
            lemma_hex_char_is_hex_digit(rest[i]);
        }
    }
}

/// `a` is the action reference of line `x`.
pub open spec fn action_of(a: ActionReference, x: YamlLineView) -> bool {
    &&& a.span == x.span
    &&& match x.value {
        None => text_value(a.raw) == StaticValue::<Seq<char>>::Unknown(StaticUnknownReason::Omitted) && a.kind == ActionReferenceKind::Malformed,
        Some(v) => text_value(a.raw) == static_text(v, x.span) && action_kind_view(a.kind) == action_kind(v),
    }
}


fn action_kind_of(v: &[char]) -> (r: ActionReferenceKind)
    ensures
        action_kind_view(r) == action_kind(v@),
{
    if crate::text::contains(v, chars_of("${{").as_slice()) {
        return ActionReferenceKind::Dynamic;
    }
    if crate::text::starts_with_str(v, "./") {
        return ActionReferenceKind::LocalPath(string_of(v));
    }
    if crate::text::starts_with_str(v, "docker://") {
        proof { reveal_strlit("docker://"); }
        let image = crate::text::slice_of(v, 9, v.len());
        assert(image@ =~= v@.skip(9));
        return ActionReferenceKind::Docker(string_of(image.as_slice()));
    }
    match crate::text::rfind_char(v, '@') {
        None => ActionReferenceKind::Malformed,
        Some(at) => {
            let r = crate::text::slice_of(v, at + 1, v.len());
            assert(r@ =~= v@.skip(at + 1));
            if r.len() == 40 {
                let mut k: usize = 0;
                let mut hex = true;
                while k < r.len()
                    invariant
                        k <= r@.len(),
                        hex == (forall|j: int| 0 <= j < k ==> hex_char(#[trigger] r@[j])),
                    decreases r.len() - k,
                {
                    let c = r[k];
                    let h = ('0' <= c && c <= '9') || ('a' <= c && c <= 'f') || ('A' <= c && c <= 'F');
                    if !h {
                        assert(!hex_char(r@[k as int]));
                    }
                    hex = hex && h;
                    k = k + 1;
                }
                if hex {
                    let lower = to_ascii_lower(r.as_slice());
                    return ActionReferenceKind::FullObjectId(string_of(lower.as_slice()));
                }
            }
            if r.len() == 0 {
                ActionReferenceKind::Malformed
            } else {
                ActionReferenceKind::TagOrBranch(string_of(r.as_slice()))
            }
        },
    }
}

fn action_reference(line: &YamlLine) -> (r: ActionReference)
    ensures
        action_of(r, line@),
{
    match &line.value {
        None => ActionReference { raw: StaticValue::Unknown(StaticUnknownReason::Omitted), kind: ActionReferenceKind::Malformed, span: line.span },
        Some(v) => {
            let c = chars_of(v.as_str());
            ActionReference { raw: static_of_value(&line.value, line.span), kind: action_kind_of(c.as_slice()), span: line.span }
        },
    }
}

/// A token permission.
#[derive(Debug, Clone, Copy, PartialEq, Eq, Structural)]
pub enum TokenPermission {
    /// No access (`none`, or `{}` for every scope).
    NoAccess,
    Read,
    Write,
    DefaultOrInheritedUnknown,
}

#[derive(Debug, Clone, PartialEq, Eq)]
pub struct PermissionEntry {
    pub scope: String,
    pub permission: StaticValue<TokenPermission>,
    pub span: SourceSpan,
}

/// The permissions a workflow or job declares; with none declared, the
/// default is unknown (inherited) and nothing is listed.
#[derive(Debug, Clone, PartialEq, Eq)]
pub struct PermissionSet {
    pub default: TokenPermission,
    pub entries: Vec<PermissionEntry>,
    pub span: Option<SourceSpan>,
}

/// `i + 2`, saturating.
pub open spec fn plus_two(i: usize) -> int {
    if i + 2 <= usize::MAX { i + 2 } else { usize::MAX as int }
}

/// The default a one-line `permissions` value sets.
pub open spec fn default_permission(v: Seq<char>) -> TokenPermission {
    if v == "read-all"@ { TokenPermission::Read }
    else if v == "write-all"@ { TokenPermission::Write }
    else if v == "{}"@ { TokenPermission::NoAccess }
    else { TokenPermission::DefaultOrInheritedUnknown }
}

/// A scope's permission value.
pub open spec fn permission_value(v: Seq<char>, span: SourceSpan) -> StaticValue<TokenPermission> {
    if has_expression(v) { StaticValue::Expression { span } }
    else if v == "none"@ { StaticValue::Literal(TokenPermission::NoAccess) }
    else if v == "read"@ { StaticValue::Literal(TokenPermission::Read) }
    else if v == "write"@ { StaticValue::Literal(TokenPermission::Write) }
    else { StaticValue::Unsupported { span } }
}

/// The keyed mapping lines at `indent` in `from..to`, in order.
pub open spec fn scope_lines(l: Seq<YamlLineView>, from: int, to: int, indent: int) -> Seq<YamlLineView>
    decreases to - from,
{
    if from >= to || from < 0 {
        Seq::empty()
    } else if !l[from].is_list && l[from].indent == indent && l[from].key is Some {
        seq![l[from]] + scope_lines(l, from + 1, to, indent)
    } else {
        scope_lines(l, from + 1, to, indent)
    }
}

pub open spec fn entry_of(e: PermissionEntry, x: YamlLineView) -> bool {
    &&& e.scope@ == x.key->0
    &&& e.span == x.span
    &&& e.permission == match x.value {
        Some(v) => permission_value(v, x.span),
        None => StaticValue::Unknown(StaticUnknownReason::Omitted),
    }
}

/// `p` is the permission set declared in `from..to` at `indent`.
pub open spec fn permissions_of(p: PermissionSet, l: Seq<YamlLineView>, from: int, to: int, indent: usize) -> bool {
    let i = first_found(l, from, to, Finder::MappingAt(indent, "permissions"));
    if i < 0 {
        p.default == TokenPermission::DefaultOrInheritedUnknown && p.entries@.len() == 0 && p.span is None
    } else {
        &&& p.span == Some(l[i].span)
        &&& match l[i].value {
            Some(v) => p.default == default_permission(v)
                && if has_expression(v) {
                    p.entries@.len() == 1 && p.entries@[0].scope@ == "*"@
                        && p.entries@[0].permission == StaticValue::<TokenPermission>::Expression { span: l[i].span }
                        && p.entries@[0].span == l[i].span
                } else {
                    p.entries@.len() == 0
                },
            None => {
                let lines = scope_lines(l, i + 1, section_end(l, i + 1, to, l[i].indent), plus_two(l[i].indent));
                &&& p.default == TokenPermission::NoAccess
                &&& p.entries@.len() == lines.len()
                &&& forall|k: int| 0 <= k < lines.len() ==> entry_of(#[trigger] p.entries@[k], lines[k])
            },
        }
    }
}

fn permission_of(v: &[char], span: SourceSpan) -> (r: StaticValue<TokenPermission>)
    ensures
        r == permission_value(v@, span),
{
    if crate::text::contains(v, chars_of("${{").as_slice()) {
        StaticValue::Expression { span }
    } else if crate::text::equals_str(v, "none") {
        StaticValue::Literal(TokenPermission::NoAccess)
    } else if crate::text::equals_str(v, "read") {
        StaticValue::Literal(TokenPermission::Read)
    } else if crate::text::equals_str(v, "write") {
        StaticValue::Literal(TokenPermission::Write)
    } else {
        StaticValue::Unsupported { span }
    }
}

fn parse_permissions(lines: &[YamlLine], from: usize, to: usize, indent: usize) -> (r: PermissionSet)
    requires
        from <= to <= lines@.len(),
    ensures
        permissions_of(r, yaml_views(lines@), from as int, to as int, indent),
{
    let ghost l = yaml_views(lines@);
    let i = match find_where(lines, from, to, &Finder::MappingAt(indent, "permissions")) {
        None => {
            return PermissionSet { default: TokenPermission::DefaultOrInheritedUnknown, entries: Vec::new(), span: None };
        },
        Some(i) => i,
    };
    assert(l[i as int] == lines@[i as int]@);
    let line = &lines[i];
    match &line.value {
        Some(v) => {
            let c = chars_of(v.as_str());
            let c = c.as_slice();
            let default = if crate::text::equals_str(c, "read-all") { TokenPermission::Read }
                else if crate::text::equals_str(c, "write-all") { TokenPermission::Write }
                else if crate::text::equals_str(c, "{}") { TokenPermission::NoAccess }
                else { TokenPermission::DefaultOrInheritedUnknown };
            let mut entries: Vec<PermissionEntry> = Vec::new();
            if crate::text::contains(c, chars_of("${{").as_slice()) {
                entries.push(PermissionEntry { scope: string_of(chars_of("*").as_slice()), permission: StaticValue::Expression { span: line.span }, span: line.span });
            }
            PermissionSet { default, entries, span: Some(line.span) }
        },
        None => {
            let end = crate::github::dependabot::find_section_end(lines, i + 1, to, line.indent);
            let ghost sl = scope_lines(l, i + 1, end as int, plus_two(line.indent));
            let want = line.indent.saturating_add(2);
            let mut entries: Vec<PermissionEntry> = Vec::new();
            let mut k = i + 1;
            let ghost mut done: Seq<YamlLineView> = Seq::empty();
            while k < end
                invariant
                    i + 1 <= k <= end <= lines@.len(),
                    l == yaml_views(lines@),
                    want == plus_two(l[i as int].indent),
                    sl == done + scope_lines(l, k as int, end as int, want as int),
                    entries@.len() == done.len(),
                    forall|m: int| 0 <= m < done.len() ==> entry_of(#[trigger] entries@[m], done[m]),
                decreases end - k,
            {
                assert(l[k as int] == lines@[k as int]@);
                let x = &lines[k];
                if !x.is_list && x.indent == want {
                    match &x.key {
                        Some(scope) => {
                            let permission = match &x.value {
                                Some(v) => {
                                    let c = chars_of(v.as_str());
                                    permission_of(c.as_slice(), x.span)
                                },
                                None => StaticValue::Unknown(StaticUnknownReason::Omitted),
                            };
                            entries.push(PermissionEntry { scope: string_of(chars_of(scope.as_str()).as_slice()), permission, span: x.span });
                            proof {
                                assert(done + scope_lines(l, k as int, end as int, want as int) =~= done.push(l[k as int]) + scope_lines(l, k + 1, end as int, want as int));
                                done = done.push(l[k as int]);
                            }
                        },
                        None => {},
                    }
                }
                k = k + 1;
            }
            assert(done + scope_lines(l, k as int, end as int, want as int) =~= done);
            PermissionSet { default: TokenPermission::NoAccess, entries, span: Some(line.span) }
        },
    }
}


/// A step of a job.
#[derive(Debug, Clone, PartialEq, Eq)]
pub struct WorkflowStep {
    pub name: Option<StaticValue<String>>,
    pub uses: Option<ActionReference>,
    pub has_run_script: bool,
    pub span: SourceSpan,
}

pub open spec fn opt_text(v: Option<StaticValue<String>>) -> Option<StaticValue<Seq<char>>> {
    match v {
        Some(x) => Some(text_value(x)),
        None => None,
    }
}

/// The static value of the first line `f` finds in `from..to`, when it has one.
pub open spec fn found_value(l: Seq<YamlLineView>, from: int, to: int, f: Finder) -> Option<StaticValue<Seq<char>>> {
    let i = first_found(l, from, to, f);
    if i < 0 { None } else {
        match l[i].value {
            Some(v) => Some(static_text(v, l[i].span)),
            None => None,
        }
    }
}

/// `a` is the action of the first line `f` finds in `from..to`, if any.
pub open spec fn found_action(a: Option<ActionReference>, l: Seq<YamlLineView>, from: int, to: int, f: Finder) -> bool {
    let i = first_found(l, from, to, f);
    if i < 0 { a is None } else { a matches Some(x) && action_of(x, l[i]) }
}

/// The steps' list items in `i..end` (at `indent`), each with where it ends.
pub open spec fn step_items(l: Seq<YamlLineView>, i: int, end: int, indent: int) -> Seq<(int, int)>
    decreases end - i,
{
    if i >= end || i < 0 {
        Seq::empty()
    } else if !l[i].is_list || l[i].indent != indent {
        step_items(l, i + 1, end, indent)
    } else {
        let e = found_or_end(l, i + 1, end, Finder::ListIndent(l[i].indent));
        if i < e && e <= end { seq![(i, e)] + step_items(l, e, end, indent) } else { Seq::empty() }
    }
}

/// The step items of the first `steps` key in `from..to`.
pub open spec fn job_step_items(l: Seq<YamlLineView>, from: int, to: int) -> Seq<(int, int)> {
    let s = first_found(l, from, to, Finder::MappingKey("steps"));
    if s < 0 { Seq::empty() } else { step_items(l, s + 1, section_end(l, s + 1, to, l[s].indent), plus_two(l[s].indent)) }
}

pub open spec fn step_of(st: WorkflowStep, l: Seq<YamlLineView>, i: int, e: int) -> bool {
    &&& opt_text(st.name) == found_value(l, i, e, Finder::Keyed("name"))
    &&& found_action(st.uses, l, i, e, Finder::Keyed("uses"))
    &&& st.has_run_script == (first_found(l, i, e, Finder::Keyed("run")) >= 0)
    &&& st.span == l[i].span
}

proof fn lemma_found_bounds(l: Seq<YamlLineView>, from: int, to: int, f: Finder)
    ensures
        first_found(l, from, to, f) == -1 || (from <= first_found(l, from, to, f) < to && 0 <= first_found(l, from, to, f) < l.len()),
    decreases to - from,
{
    if !(from >= to || from < 0 || from >= l.len()) && !finds(f, l[from]) {
        lemma_found_bounds(l, from + 1, to, f);
    }
}

fn value_of_found(lines: &[YamlLine], from: usize, to: usize, f: &Finder) -> (r: Option<StaticValue<String>>)
    requires
        from <= to <= lines@.len(),
    ensures
        opt_text(r) == found_value(yaml_views(lines@), from as int, to as int, *f),
{
    match find_where(lines, from, to, f) {
        None => None,
        Some(i) => {
            assert(yaml_views(lines@)[i as int] == lines@[i as int]@);
            match &lines[i].value {
                Some(_) => Some(static_of_value(&lines[i].value, lines[i].span)),
                None => None,
            }
        },
    }
}

fn action_of_found(lines: &[YamlLine], from: usize, to: usize, f: &Finder) -> (r: Option<ActionReference>)
    requires
        from <= to <= lines@.len(),
    ensures
        found_action(r, yaml_views(lines@), from as int, to as int, *f),
{
    match find_where(lines, from, to, f) {
        None => None,
        Some(i) => {
            assert(yaml_views(lines@)[i as int] == lines@[i as int]@);
            Some(action_reference(&lines[i]))
        },
    }
}

fn parse_steps(lines: &[YamlLine], from: usize, to: usize) -> (r: Vec<WorkflowStep>)
    requires
        from <= to <= lines@.len(),
    ensures
        r@.len() == job_step_items(yaml_views(lines@), from as int, to as int).len(),
        forall|m: int| 0 <= m < r@.len() ==> step_of(#[trigger] r@[m], yaml_views(lines@),
            job_step_items(yaml_views(lines@), from as int, to as int)[m].0, job_step_items(yaml_views(lines@), from as int, to as int)[m].1),
{
    let ghost l = yaml_views(lines@);
    let mut out: Vec<WorkflowStep> = Vec::new();
    let s = match find_where(lines, from, to, &Finder::MappingKey("steps")) {
        None => {
            return out;
        },
        Some(s) => s,
    };
    assert(l[s as int] == lines@[s as int]@);
    let parent = lines[s].indent;
    let end = crate::github::dependabot::find_section_end(lines, s + 1, to, parent);
    let want = parent.saturating_add(2);
    let ghost items = job_step_items(l, from as int, to as int);
    let ghost mut done: Seq<(int, int)> = Seq::empty();
    let mut i = s + 1;
    while i < end
        invariant
            s + 1 <= i <= end <= lines@.len(),
            l == yaml_views(lines@),
            want as int == plus_two(parent),
            items == done + step_items(l, i as int, end as int, want as int),
            out@.len() == done.len(),
            forall|m: int| 0 <= m < out@.len() ==> step_of(#[trigger] out@[m], l, done[m].0, done[m].1),
        decreases end - i,
    {
        assert(l[i as int] == lines@[i as int]@);
        if !lines[i].is_list || lines[i].indent != want {
            i = i + 1;
        } else {
            let e = end_where(lines, i + 1, end, &Finder::ListIndent(lines[i].indent));
            let name = value_of_found(lines, i, e, &Finder::Keyed("name"));
            let uses = action_of_found(lines, i, e, &Finder::Keyed("uses"));
            let has_run_script = find_where(lines, i, e, &Finder::Keyed("run")).is_some();
            out.push(WorkflowStep { name, uses, has_run_script, span: lines[i].span });
            proof {
                assert(done + step_items(l, i as int, end as int, want as int) =~= done.push((i as int, e as int)) + step_items(l, e as int, end as int, want as int));
                done = done.push((i as int, e as int));
            }
            i = e;
        }
    }
    assert(done + step_items(l, i as int, end as int, want as int) =~= done);
    out
}

/// The kinds of work a job's text names.
#[derive(Debug, Clone, Copy, PartialEq, Eq, Structural)]
pub enum WorkflowJobCandidateKind {
    Test,
    Build,
    Lint,
    Documentation,
    Release,
    Security,
    Deploy,
}

#[derive(Debug, Clone, Copy, PartialEq, Eq, Structural)]
pub struct WorkflowJobCandidate {
    pub kind: WorkflowJobCandidateKind,
    pub span: SourceSpan,
}

/// The words that name each kind of work, in report order.
pub open spec fn job_classes() -> Seq<(WorkflowJobCandidateKind, Seq<Seq<char>>)> {
    seq![
        (WorkflowJobCandidateKind::Test, seq!["test"@, "cargo test"@, "pytest"@]),
        (WorkflowJobCandidateKind::Build, seq!["build"@, "compile"@]),
        (WorkflowJobCandidateKind::Lint, seq!["lint"@, "clippy"@, "fmt"@]),
        (WorkflowJobCandidateKind::Documentation, seq!["docs"@, "documentation"@, "mdbook"@]),
        (WorkflowJobCandidateKind::Release, seq!["release"@, "publish"@]),
        (WorkflowJobCandidateKind::Security, seq!["security"@, "audit"@, "codeql"@, "dependency-review"@]),
        (WorkflowJobCandidateKind::Deploy, seq!["deploy"@, "deployment"@, "pages"@]),
    ]
}

/// The kinds among the first `n` classes that `text` names.
pub open spec fn classify_text(text: Seq<char>, n: int, span: SourceSpan) -> Seq<WorkflowJobCandidate>
    decreases n,
{
    if n <= 0 {
        Seq::empty()
    } else {
        let prev = classify_text(text, n - 1, span);
        let (kind, words) = job_classes()[n - 1];
        if crate::markdown::document::contains_some(text, words) { prev.push(WorkflowJobCandidate { kind, span }) } else { prev }
    }
}

fn classify_job(text: &str, span: SourceSpan) -> (r: Vec<WorkflowJobCandidate>)
    ensures
        r@ == classify_text(text@, 7, span),
{
    let test = ["test", "cargo test", "pytest"];
    let build = ["build", "compile"];
    let lint = ["lint", "clippy", "fmt"];
    let docs = ["docs", "documentation", "mdbook"];
    let release = ["release", "publish"];
    let security = ["security", "audit", "codeql", "dependency-review"];
    let deploy = ["deploy", "deployment", "pages"];
    assert(crate::markdown::document::str_views(test@) =~= job_classes()[0].1);
    assert(crate::markdown::document::str_views(build@) =~= job_classes()[1].1);
    assert(crate::markdown::document::str_views(lint@) =~= job_classes()[2].1);
    assert(crate::markdown::document::str_views(docs@) =~= job_classes()[3].1);
    assert(crate::markdown::document::str_views(release@) =~= job_classes()[4].1);
    assert(crate::markdown::document::str_views(security@) =~= job_classes()[5].1);
    assert(crate::markdown::document::str_views(deploy@) =~= job_classes()[6].1);
    let mut out: Vec<WorkflowJobCandidate> = Vec::new();
    assert(classify_text(text@, 0, span) =~= Seq::<WorkflowJobCandidate>::empty());
    assert(out@ =~= classify_text(text@, 0, span));
    if crate::markdown::document::contains_any(text, test.as_slice()) { out.push(WorkflowJobCandidate { kind: WorkflowJobCandidateKind::Test, span }); }
    assert(out@ =~= classify_text(text@, 1, span));
    if crate::markdown::document::contains_any(text, build.as_slice()) { out.push(WorkflowJobCandidate { kind: WorkflowJobCandidateKind::Build, span }); }
    assert(out@ =~= classify_text(text@, 2, span));
    if crate::markdown::document::contains_any(text, lint.as_slice()) { out.push(WorkflowJobCandidate { kind: WorkflowJobCandidateKind::Lint, span }); }
    assert(out@ =~= classify_text(text@, 3, span));
    if crate::markdown::document::contains_any(text, docs.as_slice()) { out.push(WorkflowJobCandidate { kind: WorkflowJobCandidateKind::Documentation, span }); }
    assert(out@ =~= classify_text(text@, 4, span));
    if crate::markdown::document::contains_any(text, release.as_slice()) { out.push(WorkflowJobCandidate { kind: WorkflowJobCandidateKind::Release, span }); }
    assert(out@ =~= classify_text(text@, 5, span));
    if crate::markdown::document::contains_any(text, security.as_slice()) { out.push(WorkflowJobCandidate { kind: WorkflowJobCandidateKind::Security, span }); }
    assert(out@ =~= classify_text(text@, 6, span));
    if crate::markdown::document::contains_any(text, deploy.as_slice()) { out.push(WorkflowJobCandidate { kind: WorkflowJobCandidateKind::Deploy, span }); }
    out
}


/// The lower-cased text of the run, uses and name lines in `from..to`,
/// each after a space.
pub open spec fn job_words(l: Seq<YamlLineView>, from: int, to: int) -> Seq<char>
    decreases to - from,
{
    if from >= to || from < 0 {
        Seq::empty()
    } else {
        let x = l[from];
        let piece = if (x.key == Some("run"@) || x.key == Some("uses"@) || x.key == Some("name"@)) && x.value is Some {
            seq![' '] + ascii_lower(x.value->0)
        } else {
            Seq::empty()
        };
        piece + job_words(l, from + 1, to)
    }
}

/// The text a job is classified by: its id, its literal name, then its
/// run, uses and name values, lower-cased and joined by spaces.
pub open spec fn job_text(id: Seq<char>, name: Option<StaticValue<Seq<char>>>, l: Seq<YamlLineView>, from: int, to: int) -> Seq<char> {
    ascii_lower(id) + match name {
        Some(StaticValue::Literal(n)) => seq![' '] + ascii_lower(n),
        _ => Seq::empty(),
    } + job_words(l, from, to)
}

#[derive(Debug, Clone, PartialEq, Eq)]
pub struct WorkflowJob {
    pub id: String,
    pub span: SourceSpan,
    pub name: Option<StaticValue<String>>,
    pub permissions: PermissionSet,
    pub reusable_workflow: Option<ActionReference>,
    pub steps: Vec<WorkflowStep>,
    pub candidates: Vec<WorkflowJobCandidate>,
}

/// `j` is the job keyed at line `i`, whose body is `i + 1..e`.
pub open spec fn job_of(j: WorkflowJob, l: Seq<YamlLineView>, i: int, e: int) -> bool {
    let name = found_value(l, i + 1, e, Finder::MappingKey("name"));
    &&& j.id@ == l[i].key->0
    &&& j.span == l[i].span
    &&& opt_text(j.name) == name
    &&& permissions_of(j.permissions, l, i + 1, e, 4)
    &&& found_action(j.reusable_workflow, l, i + 1, e, Finder::MappingKey("uses"))
    &&& j.steps@.len() == job_step_items(l, i + 1, e).len()
    &&& (forall|m: int| 0 <= m < j.steps@.len() ==> step_of(#[trigger] j.steps@[m], l, job_step_items(l, i + 1, e)[m].0, job_step_items(l, i + 1, e)[m].1))
    &&& j.candidates@ == classify_text(job_text(l[i].key->0, name, l, i + 1, e), 7, l[i].span)
}

fn push_lower(out: &mut Vec<char>, v: &str)
    ensures
        final(out)@ == old(out)@ + seq![' '] + ascii_lower(v@),
{
    out.push(' ');
    let mut lower = to_ascii_lower(chars_of(v).as_slice());
    out.append(&mut lower);
}

fn job_haystack(lines: &[YamlLine], id: &str, name: &Option<StaticValue<String>>, from: usize, to: usize) -> (r: String)
    requires
        from <= to <= lines@.len(),
    ensures
        r@ == job_text(id@, opt_text(*name), yaml_views(lines@), from as int, to as int),
{
    let ghost l = yaml_views(lines@);
    let mut out = to_ascii_lower(chars_of(id).as_slice());
    match name {
        Some(StaticValue::Literal(n)) => push_lower(&mut out, n.as_str()),
        _ => {},
    }
    let ghost head = out@;
    let mut i = from;
    assert(job_words(l, from as int, to as int) == job_words(l, from as int, to as int));
    while i < to
        invariant
            from <= i <= to <= lines@.len(),
            l == yaml_views(lines@),
            head + job_words(l, from as int, to as int) == out@ + job_words(l, i as int, to as int),
        decreases to - i,
    {
        assert(l[i as int] == lines@[i as int]@);
        let x = &lines[i];
        let ghost before = out@;
        let keyed = crate::github::dependabot::key_is(x, "run") || crate::github::dependabot::key_is(x, "uses") || crate::github::dependabot::key_is(x, "name");
        if keyed {
            match &x.value {
                Some(v) => push_lower(&mut out, v.as_str()),
                None => {},
            }
        }
        assert(before + job_words(l, i as int, to as int) =~= out@ + job_words(l, i + 1, to as int));
        i = i + 1;
    }
    assert(out@ + job_words(l, i as int, to as int) =~= out@);
    assert(head + job_words(l, from as int, to as int) =~= job_text(id@, opt_text(*name), l, from as int, to as int));
    string_of(out.as_slice())
}

fn parse_job(lines: &[YamlLine], i: usize, e: usize) -> (r: WorkflowJob)
    requires
        i < e <= lines@.len(),
        lines@[i as int].key is Some,
    ensures
        job_of(r, yaml_views(lines@), i as int, e as int),
{
    assert(yaml_views(lines@)[i as int] == lines@[i as int]@);
    let id = match &lines[i].key {
        Some(k) => string_of(chars_of(k.as_str()).as_slice()),
        None => string_of(chars_of("").as_slice()),
    };
    let name = value_of_found(lines, i + 1, e, &Finder::MappingKey("name"));
    let text = job_haystack(lines, id.as_str(), &name, i + 1, e);
    let candidates = classify_job(text.as_str(), lines[i].span);
    WorkflowJob {
        id,
        span: lines[i].span,
        name,
        permissions: parse_permissions(lines, i + 1, e, 4),
        reusable_workflow: action_of_found(lines, i + 1, e, &Finder::MappingKey("uses")),
        steps: parse_steps(lines, i + 1, e),
        candidates,
    }
}

/// The job keys in `i..end` at `indent`, each with where its body ends.
pub open spec fn job_items(l: Seq<YamlLineView>, i: int, end: int, indent: int) -> Seq<(int, int)>
    decreases end - i,
{
    if i >= end || i < 0 {
        Seq::empty()
    } else if !l[i].is_list && l[i].indent == indent && l[i].key is Some {
        let e = found_or_end(l, i + 1, end, Finder::MappingIndent(indent as usize));
        if i < e && e <= end { seq![(i, e)] + job_items(l, e, end, indent) } else { Seq::empty() }
    } else {
        job_items(l, i + 1, end, indent)
    }
}

/// The jobs under the root `jobs` key.
pub open spec fn workflow_job_items(l: Seq<YamlLineView>) -> Seq<(int, int)> {
    let j = crate::github::dependabot::root_index(l, 0, "jobs"@);
    if j < 0 { Seq::empty() } else { job_items(l, j + 1, section_end(l, j + 1, l.len() as int, l[j].indent), plus_two(l[j].indent)) }
}

fn parse_jobs(lines: &[YamlLine]) -> (r: Vec<WorkflowJob>)
    ensures
        r@.len() == workflow_job_items(yaml_views(lines@)).len(),
        forall|m: int| 0 <= m < r@.len() ==> job_of(#[trigger] r@[m], yaml_views(lines@),
            workflow_job_items(yaml_views(lines@))[m].0, workflow_job_items(yaml_views(lines@))[m].1),
{
    let ghost l = yaml_views(lines@);
    let mut out: Vec<WorkflowJob> = Vec::new();
    let found = crate::github::dependabot::find_root(lines, "jobs");
    let j = match found {
        None => {
            return out;
        },
        Some(j) => j,
    };
    let n = lines.len();
    assert(l[j as int] == lines@[j as int]@);
    let end = crate::github::dependabot::find_section_end(lines, j + 1, n, lines[j].indent);
    let direct = lines[j].indent.saturating_add(2);
    let ghost items = workflow_job_items(l);
    let ghost mut done: Seq<(int, int)> = Seq::empty();
    let mut i = j + 1;
    while i < end
        invariant
            j + 1 <= i <= end <= lines@.len(),
            l == yaml_views(lines@),
            direct as int == plus_two(l[j as int].indent),
            items == done + job_items(l, i as int, end as int, direct as int),
            out@.len() == done.len(),
            forall|m: int| 0 <= m < out@.len() ==> job_of(#[trigger] out@[m], l, done[m].0, done[m].1),
        decreases end - i,
    {
        assert(l[i as int] == lines@[i as int]@);
        if !lines[i].is_list && lines[i].indent == direct && lines[i].key.is_some() {
            let e = end_where(lines, i + 1, end, &Finder::MappingIndent(direct));
            out.push(parse_job(lines, i, e));
            proof {
                assert(done + job_items(l, i as int, end as int, direct as int) =~= done.push((i as int, e as int)) + job_items(l, e as int, end as int, direct as int));
                done = done.push((i as int, e as int));
            }
            i = e;
        } else {
            i = i + 1;
        }
    }
    assert(done + job_items(l, i as int, end as int, direct as int) =~= done);
    out
}


/// `s` without its leading `c`s.
pub open spec fn drop_leading(s: Seq<char>, c: char) -> Seq<char>
    decreases s.len(),
{
    if s.len() > 0 && s[0] == c { drop_leading(s.drop_first(), c) } else { s }
}

/// `s` without its trailing `c`s.
pub open spec fn drop_trailing(s: Seq<char>, c: char) -> Seq<char>
    decreases s.len(),
{
    if s.len() > 0 && s.last() == c { drop_trailing(s.drop_last(), c) } else { s }
}

/// The trimmed pieces that are not empty.
pub open spec fn nonempty_trimmed(pieces: Seq<Seq<char>>) -> Seq<Seq<char>>
    decreases pieces.len(),
{
    if pieces.len() == 0 {
        Seq::empty()
    } else {
        let t = trim(pieces[0]);
        (if t.len() > 0 { seq![t] } else { Seq::<Seq<char>>::empty() }) + nonempty_trimmed(pieces.drop_first())
    }
}

/// A one-line list `[a, b]` (or `a, b`): its non-empty items.
pub open spec fn scalar_list(v: Seq<char>) -> Seq<Seq<char>> {
    nonempty_trimmed(split_on(drop_trailing(drop_leading(trim(v), '['), ']'), ','))
}

fn strip_brackets(s: &[char]) -> (r: Vec<char>)
    ensures
        r@ == drop_trailing(drop_leading(s@, '['), ']'),
{
    let mut a: usize = 0;
    assert(s@.skip(0) =~= s@);
    while a < s.len() && s[a] == '['
        invariant
            a <= s@.len(),
            drop_leading(s@, '[') == drop_leading(s@.skip(a as int), '['),
        decreases s.len() - a,
    {
        assert(s@.skip(a as int).drop_first() =~= s@.skip(a + 1));
        a = a + 1;
    }
    let mut b: usize = s.len();
    let ghost mid = s@.skip(a as int);
    assert(drop_leading(s@, '[') == mid) by {
        if mid.len() > 0 {
            assert(mid[0] == s@[a as int]);
        }
    }
    assert(mid.take(mid.len() as int) =~= mid);
    while b > a && s[b - 1] == ']'
        invariant
            a <= b <= s@.len(),
            mid == s@.skip(a as int),
            drop_trailing(mid, ']') == drop_trailing(mid.take(b - a), ']'),
        decreases b,
    {
        assert(mid.take(b - a).drop_last() =~= mid.take(b - a - 1));
        assert(mid.take(b - a).last() == s@[b - 1]);
        b = b - 1;
    }
    let r = crate::text::slice_of(s, a, b);
    assert(r@ =~= mid.take(b - a));
    assert(drop_trailing(r@, ']') == r@) by {
        if r@.len() > 0 {
            assert(r@.last() == s@[b - 1]);
        }
    }
    r
}

fn list_items(v: &[char]) -> (r: Vec<String>)
    ensures
        crate::profiles::scoring::string_views(r@) == scalar_list(v@),
{
    let t = crate::text::trimmed(v);
    let inner = strip_brackets(t.as_slice());
    let pieces = crate::fs::containment::split_segments(inner.as_slice(), ',');
    let ghost ps = crate::fs::containment::views(pieces@);
    let mut out: Vec<String> = Vec::new();
    let mut k: usize = 0;
    assert(ps.skip(0) =~= ps);
    while k < pieces.len()
        invariant
            k <= pieces@.len(),
            ps == crate::fs::containment::views(pieces@),
            ps == split_on(inner@, ','),
            nonempty_trimmed(ps) == crate::profiles::scoring::string_views(out@) + nonempty_trimmed(ps.skip(k as int)),
        decreases pieces.len() - k,
    {
        let piece = crate::text::trimmed(pieces[k].as_slice());
        assert(ps[k as int] == pieces@[k as int]@);
        let ghost before = crate::profiles::scoring::string_views(out@);
        assert(ps.skip(k as int).drop_first() =~= ps.skip(k + 1));
        assert(ps.skip(k as int)[0] == ps[k as int]);
        if piece.len() > 0 {
            out.push(string_of(piece.as_slice()));
            assert(crate::profiles::scoring::string_views(out@) =~= before.push(piece@));
        }
        assert(before + nonempty_trimmed(ps.skip(k as int)) =~= crate::profiles::scoring::string_views(out@) + nonempty_trimmed(ps.skip(k + 1)));
        k = k + 1;
    }
    assert(ps.skip(k as int) =~= Seq::<Seq<char>>::empty());
    assert(crate::profiles::scoring::string_views(out@) + Seq::<Seq<char>>::empty() =~= crate::profiles::scoring::string_views(out@));
    out
}

/// An event that starts a workflow.
#[derive(Debug, Clone, PartialEq, Eq)]
pub struct WorkflowTrigger {
    pub name: String,
    pub value: StaticValue<String>,
    pub span: SourceSpan,
}

/// A trigger as values: its name, value and span.
pub open spec fn trigger_view(t: WorkflowTrigger) -> (Seq<char>, StaticValue<Seq<char>>, SourceSpan) {
    (t.name@, text_value(t.value), t.span)
}

/// The triggers that a one-line `on` value lists.
pub open spec fn inline_triggers(names: Seq<Seq<char>>, span: SourceSpan) -> Seq<(Seq<char>, StaticValue<Seq<char>>, SourceSpan)> {
    names.map_values(|n: Seq<char>| (n, static_text(n, span), span))
}

/// The triggers of the lines in `from..to` at `indent`: a key names one
/// (with its value, if any); a list item with a value names one.
pub open spec fn nested_triggers(l: Seq<YamlLineView>, from: int, to: int, indent: int) -> Seq<(Seq<char>, StaticValue<Seq<char>>, SourceSpan)>
    decreases to - from,
{
    if from >= to || from < 0 {
        Seq::empty()
    } else {
        let x = l[from];
        let here: Seq<(Seq<char>, StaticValue<Seq<char>>, SourceSpan)> = if x.indent != indent {
            Seq::empty()
        } else if x.key is Some {
            seq![(x.key->0, match x.value { Some(v) => static_text(v, x.span), None => StaticValue::Unknown(StaticUnknownReason::Omitted) }, x.span)]
        } else if x.is_list && x.value is Some {
            seq![(x.value->0, static_text(x.value->0, x.span), x.span)]
        } else {
            Seq::empty()
        };
        here + nested_triggers(l, from + 1, to, indent)
    }
}

/// The triggers under the root `on` key.
pub open spec fn workflow_triggers(l: Seq<YamlLineView>) -> Seq<(Seq<char>, StaticValue<Seq<char>>, SourceSpan)> {
    let o = crate::github::dependabot::root_index(l, 0, "on"@);
    if o < 0 {
        Seq::empty()
    } else {
        let inline = match l[o].value { Some(v) => inline_triggers(scalar_list(v), l[o].span), None => Seq::empty() };
        inline + nested_triggers(l, o + 1, section_end(l, o + 1, l.len() as int, l[o].indent), plus_two(l[o].indent))
    }
}

fn parse_triggers(lines: &[YamlLine]) -> (r: Vec<WorkflowTrigger>)
    ensures
        r@.map_values(|t: WorkflowTrigger| trigger_view(t)) == workflow_triggers(yaml_views(lines@)),
{
    let ghost l = yaml_views(lines@);
    let mut out: Vec<WorkflowTrigger> = Vec::new();
    let found = crate::github::dependabot::find_root(lines, "on");
    let o = match found {
        None => {
            assert(out@.map_values(|t: WorkflowTrigger| trigger_view(t)) =~= workflow_triggers(l));
            return out;
        },
        Some(o) => o,
    };
    let n = lines.len();
    assert(l[o as int] == lines@[o as int]@);
    let on = &lines[o];
    match &on.value {
        Some(v) => {
            let names = list_items(chars_of(v.as_str()).as_slice());
            let mut k: usize = 0;
            while k < names.len()
                invariant
                    k <= names@.len(),
                    out@.map_values(|t: WorkflowTrigger| trigger_view(t)) == inline_triggers(crate::profiles::scoring::string_views(names@), on.span).take(k as int),
                decreases names.len() - k,
            {
                let name = string_of(chars_of(names[k].as_str()).as_slice());
                let copy = Some(string_of(chars_of(names[k].as_str()).as_slice()));
                let value = static_of_value(&copy, on.span);
                let ghost before = out@.map_values(|t: WorkflowTrigger| trigger_view(t));
                let t = WorkflowTrigger { name, value, span: on.span };
                assert(crate::profiles::scoring::string_views(names@)[k as int] == names@[k as int]@);
                assert(trigger_view(t) == inline_triggers(crate::profiles::scoring::string_views(names@), on.span)[k as int]);
                out.push(t);
                assert(out@.map_values(|t: WorkflowTrigger| trigger_view(t)) =~= before.push(trigger_view(t)));
                assert(out@.map_values(|t: WorkflowTrigger| trigger_view(t)) =~= inline_triggers(crate::profiles::scoring::string_views(names@), on.span).take(k + 1));
                k = k + 1;
            }
            assert(inline_triggers(crate::profiles::scoring::string_views(names@), on.span).take(k as int) =~= inline_triggers(crate::profiles::scoring::string_views(names@), on.span));
        },
        None => {
            assert(out@.map_values(|t: WorkflowTrigger| trigger_view(t)) =~= Seq::<(Seq<char>, StaticValue<Seq<char>>, SourceSpan)>::empty());
        },
    }
    let ghost head = out@.map_values(|t: WorkflowTrigger| trigger_view(t));
    let end = crate::github::dependabot::find_section_end(lines, o + 1, n, on.indent);
    let want = on.indent.saturating_add(2);
    let mut i = o + 1;
    while i < end
        invariant
            o + 1 <= i <= end <= lines@.len(),
            l == yaml_views(lines@),
            want as int == plus_two(l[o as int].indent),
            head + nested_triggers(l, o + 1, end as int, want as int) == out@.map_values(|t: WorkflowTrigger| trigger_view(t)) + nested_triggers(l, i as int, end as int, want as int),
        decreases end - i,
    {
        assert(l[i as int] == lines@[i as int]@);
        let x = &lines[i];
        let ghost before = out@.map_values(|t: WorkflowTrigger| trigger_view(t));
        if x.indent == want {
            match &x.key {
                Some(k) => {
                    out.push(WorkflowTrigger { name: string_of(chars_of(k.as_str()).as_slice()), value: static_of_value(&x.value, x.span), span: x.span });
                },
                None => {
                    if x.is_list {
                        match &x.value {
                            Some(v) => {
                                out.push(WorkflowTrigger { name: string_of(chars_of(v.as_str()).as_slice()), value: static_of_value(&x.value, x.span), span: x.span });
                            },
                            None => {},
                        }
                    }
                },
            }
        }
        assert(before + nested_triggers(l, i as int, end as int, want as int) =~= out@.map_values(|t: WorkflowTrigger| trigger_view(t)) + nested_triggers(l, i + 1, end as int, want as int));
        i = i + 1;
    }
    assert(out@.map_values(|t: WorkflowTrigger| trigger_view(t)) + nested_triggers(l, i as int, end as int, want as int) =~= out@.map_values(|t: WorkflowTrigger| trigger_view(t)));
    out
}


/// A workflow.
#[derive(Debug, Clone, PartialEq, Eq)]
pub struct Workflow {
    pub name: Option<String>,
    pub triggers: Vec<WorkflowTrigger>,
    pub jobs: Vec<WorkflowJob>,
    pub permissions: PermissionSet,
}

/// `w` is the workflow of lines `l`.
pub open spec fn workflow_of(w: Workflow, l: Seq<YamlLineView>) -> bool {
    &&& opt_view(w.name) == crate::github::issue_form::root_scalar(l, "name"@)
    &&& w.triggers@.map_values(|t: WorkflowTrigger| trigger_view(t)) == workflow_triggers(l)
    &&& w.jobs@.len() == workflow_job_items(l).len()
    &&& (forall|m: int| 0 <= m < w.jobs@.len() ==> job_of(#[trigger] w.jobs@[m], l, workflow_job_items(l)[m].0, workflow_job_items(l)[m].1))
    &&& permissions_of(w.permissions, l, 0, l.len() as int, 0)
}

/// A workflow: `workflow_of` its lines, with no diagnostics; or the
/// tokenizer's failure.
pub fn parse_workflow(source: &str, options: &StructuredParseOptions) -> (r: Result<Workflow, ParseFailure>)
    requires
        byte_len(source@) < usize::MAX,
    ensures
        match tokenize_spec(source@, *options) {
            Err(f) => r == Err::<Workflow, ParseFailure>(f),
            Ok(l) => r matches Ok(w) && workflow_of(w, l),
        },
{
    let lines = match tokenize(source, options) {
        Err(f) => return Err(f),
        Ok(lines) => lines,
    };
    let name = match crate::github::dependabot::find_root(lines.as_slice(), "name") {
        Some(i) => {
            assert(yaml_views(lines@)[i as int] == lines@[i as int]@);
            crate::github::dependabot::copy_opt(&lines[i].value)
        },
        None => None,
    };
    let n = lines.len();
    Ok(Workflow {
        name,
        triggers: parse_triggers(lines.as_slice()),
        jobs: parse_jobs(lines.as_slice()),
        permissions: parse_permissions(lines.as_slice(), 0, n, 0),
    })
}

} // verus!
