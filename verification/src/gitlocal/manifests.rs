//! The workspaces that Cargo, npm and pyproject manifests declare: the
//! decoded document's member list, and whether it declares a workspace and
//! a package.

use vstd::prelude::*;
use crate::github::renovate::{copy_text, json_document, json_get, member, parse_json, JsonValue};
use crate::gitlocal::gowork::{go_work_members, go_work_spec, string_views, ParsedManifest};
use crate::gitlocal::scope::WorkspaceManifestKind;
use crate::text::{chars_of, equals_str};

verus! {

#[verifier::external_type_specification]
#[verifier::external_body]
pub struct ExTomlValue(toml::Value);

/// A TOML value as the manifest readers read it: strings, arrays and tables
/// (with their keys in the decoder's order); every other value is `Other`.
#[derive(Debug)]
pub enum TomlValue {
    Other,
    Text(String),
    Array(Vec<TomlValue>),
    Table(Vec<(String, TomlValue)>),
}

/// What `toml` decodes a text to as a `toml::Value` document, or `None`
/// where it does not decode.
pub uninterp spec fn toml_document(text: Seq<char>) -> Option<TomlValue>;

/// `toml::Value` as a [`TomlValue`], variant for variant (integers, floats,
/// booleans and datetimes become `Other`). Nothing is stated of the result:
/// only `parse_toml` hands it on, under its own contract.
#[verifier::external_body]
fn toml_value_of(v: toml::Value) -> (r: TomlValue) {
    match v {
        toml::Value::String(s) => TomlValue::Text(s),
        toml::Value::Array(a) => TomlValue::Array(a.into_iter().map(toml_value_of).collect()),
        toml::Value::Table(t) => TomlValue::Table(t.into_iter().map(|(k, x)| (k, toml_value_of(x))).collect()),
        toml::Value::Integer(_) => TomlValue::Other,
        toml::Value::Float(_) => TomlValue::Other,
        toml::Value::Boolean(_) => TomlValue::Other,
        toml::Value::Datetime(_) => TomlValue::Other,
    }
}

/// `str::parse::<toml::Value>` (`toml::from_str`): the decoded document, or
/// `None` where it is not TOML; its result is named `toml_document` of the
/// text.
#[verifier::external_body]
fn parse_toml(text: &str) -> (r: Option<TomlValue>)
    ensures
        r == toml_document(text@),
{
    text.parse::<toml::Value>().ok().map(toml_value_of)
}

/// The first entry of `e` under `key`.
pub open spec fn toml_get(e: Seq<(String, TomlValue)>, key: Seq<char>) -> Option<TomlValue>
    decreases e.len(),
{
    if e.len() == 0 {
        None
    } else if e[0].0@ == key {
        Some(e[0].1)
    } else {
        toml_get(e.drop_first(), key)
    }
}

/// The entry under `key` of a table (`Value::get` with a string key).
pub open spec fn toml_member(v: Option<TomlValue>, key: Seq<char>) -> Option<TomlValue> {
    match v {
        Some(TomlValue::Table(e)) => toml_get(e@, key),
        _ => None,
    }
}

/// The strings among the items of `a`, in order.
pub open spec fn toml_texts(a: Seq<TomlValue>) -> Seq<Seq<char>>
    decreases a.len(),
{
    if a.len() == 0 {
        Seq::empty()
    } else {
        let prev = toml_texts(a.drop_last());
        match a.last() {
            TomlValue::Text(s) => prev.push(s@),
            _ => prev,
        }
    }
}

/// The strings of an array value; none for anything else.
pub open spec fn toml_strings(v: Option<TomlValue>) -> Seq<Seq<char>> {
    match v {
        Some(TomlValue::Array(a)) => toml_texts(a@),
        _ => Seq::empty(),
    }
}

/// A manifest as values: its members, whether it declares a workspace, and
/// whether it declares a package.
pub open spec fn manifest_view(r: Option<ParsedManifest>) -> Option<(Seq<Seq<char>>, bool, bool)> {
    match r {
        Some(p) => Some((string_views(p.members@), p.declares_workspace, p.declares_package)),
        None => None,
    }
}

/// A `Cargo.toml`: the `[workspace]` table's `members`, and whether it has
/// `[workspace]` and `[package]`.
pub open spec fn cargo_manifest_of(doc: Option<TomlValue>) -> Option<(Seq<Seq<char>>, bool, bool)> {
    match doc {
        None => None,
        Some(v) => {
            let ws = toml_member(Some(v), "workspace"@);
            Some((toml_strings(toml_member(ws, "members"@)), ws is Some, toml_member(Some(v), "package"@) is Some))
        },
    }
}

/// A `pyproject.toml`: the `[tool.uv.workspace]` table's `members`, and
/// whether it has that table and `[project]`.
pub open spec fn pyproject_manifest_of(doc: Option<TomlValue>) -> Option<(Seq<Seq<char>>, bool, bool)> {
    match doc {
        None => None,
        Some(v) => {
            let ws = toml_member(toml_member(toml_member(Some(v), "tool"@), "uv"@), "workspace"@);
            Some((toml_strings(toml_member(ws, "members"@)), ws is Some, toml_member(Some(v), "project"@) is Some))
        },
    }
}

/// The entry under `key` of a JSON object (`Value::get` with a string key).
pub open spec fn json_member(v: JsonValue, key: Seq<char>) -> Option<JsonValue> {
    match v {
        JsonValue::Object(e) => json_get(e@, key),
        _ => None,
    }
}

/// The strings among the items of `a`, in order.
pub open spec fn json_texts(a: Seq<JsonValue>) -> Seq<Seq<char>>
    decreases a.len(),
{
    if a.len() == 0 {
        Seq::empty()
    } else {
        let prev = json_texts(a.drop_last());
        match a.last() {
            JsonValue::Text(s) => prev.push(s@),
            _ => prev,
        }
    }
}

/// A `package.json`: `workspaces` as an array of members, or an object with
/// a `packages` array; any other `workspaces` value, or text that is not
/// JSON, gives nothing. It declares a package where it has `name`.
pub open spec fn npm_manifest_of(doc: Result<JsonValue, (usize, usize)>) -> Option<(Seq<Seq<char>>, bool, bool)> {
    match doc {
        Err(_) => None,
        Ok(v) => {
            let named = json_member(v, "name"@) is Some;
            match json_member(v, "workspaces"@) {
                None => Some((Seq::empty(), false, named)),
                Some(JsonValue::Array(a)) => Some((json_texts(a@), true, named)),
                Some(JsonValue::Object(e)) => Some((
                    match json_get(e@, "packages"@) {
                        Some(JsonValue::Array(a)) => json_texts(a@),
                        _ => Seq::empty(),
                    },
                    true,
                    named,
                )),
                Some(_) => None,
            }
        },
    }
}

pub open spec fn owned_toml(v: Option<&TomlValue>) -> Option<TomlValue> {
    match v {
        Some(x) => Some(*x),
        None => None,
    }
}

/// `toml_get(e, key)`.
fn toml_entry<'a>(e: &'a Vec<(String, TomlValue)>, key: &str) -> (r: Option<&'a TomlValue>)
    ensures
        owned_toml(r) == toml_get(e@, key@),
{
    let mut k: usize = 0;
    assert(e@.skip(0) =~= e@);
    while k < e.len()
        invariant
            k <= e@.len(),
            toml_get(e@, key@) == toml_get(e@.skip(k as int), key@),
        decreases e.len() - k,
    {
        assert(e@.skip(k as int).drop_first() =~= e@.skip(k + 1));
        assert(e@.skip(k as int)[0] == e@[k as int]);
        let name = chars_of(e[k].0.as_str());
        if equals_str(name.as_slice(), key) {
            return Some(&e[k].1);
        }
        k = k + 1;
    }
    None
}

/// `toml_member(v, key)`.
fn toml_member_of<'a>(v: Option<&'a TomlValue>, key: &str) -> (r: Option<&'a TomlValue>)
    ensures
        owned_toml(r) == toml_member(owned_toml(v), key@),
{
    match v {
        Some(TomlValue::Table(e)) => toml_entry(e, key),
        _ => None,
    }
}

/// `toml_strings(v)`.
fn toml_strings_of(v: Option<&TomlValue>) -> (r: Vec<String>)
    ensures
        string_views(r@) == toml_strings(owned_toml(v)),
{
    let mut out: Vec<String> = Vec::new();
    match v {
        Some(TomlValue::Array(a)) => {
            let mut i: usize = 0;
            assert(a@.take(0) =~= Seq::<TomlValue>::empty());
            while i < a.len()
                invariant
                    i <= a@.len(),
                    string_views(out@) == toml_texts(a@.take(i as int)),
                decreases a.len() - i,
            {
                assert(a@.take(i + 1).drop_last() =~= a@.take(i as int));
                assert(a@.take(i + 1).last() == a@[i as int]);
                match &a[i] {
                    TomlValue::Text(s) => {
                        let ghost before = string_views(out@);
                        out.push(copy_text(s));
                        assert(string_views(out@) =~= before.push(s@));
                    },
                    _ => {},
                }
                i = i + 1;
            }
            assert(a@.take(a@.len() as int) =~= a@);
            out
        },
        _ => {
            assert(string_views(out@) =~= Seq::<Seq<char>>::empty());
            out
        },
    }
}

/// `json_texts(a)`.
fn json_strings_of(a: &Vec<JsonValue>) -> (r: Vec<String>)
    ensures
        string_views(r@) == json_texts(a@),
{
    let mut out: Vec<String> = Vec::new();
    let mut i: usize = 0;
    assert(a@.take(0) =~= Seq::<JsonValue>::empty());
    assert(string_views(out@) =~= Seq::<Seq<char>>::empty());
    while i < a.len()
        invariant
            i <= a@.len(),
            string_views(out@) == json_texts(a@.take(i as int)),
        decreases a.len() - i,
    {
        assert(a@.take(i + 1).drop_last() =~= a@.take(i as int));
        assert(a@.take(i + 1).last() == a@[i as int]);
        match &a[i] {
            JsonValue::Text(s) => {
                let ghost before = string_views(out@);
                out.push(copy_text(s));
                assert(string_views(out@) =~= before.push(s@));
            },
            _ => {},
        }
        i = i + 1;
    }
    assert(a@.take(a@.len() as int) =~= a@);
    out
}

/// The Cargo manifest that a decoded document gives: `cargo_manifest_of`.
pub fn cargo_members_of(doc: Option<TomlValue>) -> (r: Option<ParsedManifest>)
    ensures
        manifest_view(r) == cargo_manifest_of(doc),
{
    match &doc {
        None => None,
        Some(v) => {
            let ws = toml_member_of(Some(v), "workspace");
            let members = toml_strings_of(toml_member_of(ws, "members"));
            let package = toml_member_of(Some(v), "package");
            Some(ParsedManifest { members, declares_workspace: ws.is_some(), declares_package: package.is_some() })
        },
    }
}

/// A `Cargo.toml` text: `cargo_manifest_of` of what `toml` decodes.
pub fn cargo_members(text: &str) -> (r: Option<ParsedManifest>)
    ensures
        manifest_view(r) == cargo_manifest_of(toml_document(text@)),
{
    cargo_members_of(parse_toml(text))
}

/// The pyproject manifest that a decoded document gives:
/// `pyproject_manifest_of`.
pub fn pyproject_members_of(doc: Option<TomlValue>) -> (r: Option<ParsedManifest>)
    ensures
        manifest_view(r) == pyproject_manifest_of(doc),
{
    match &doc {
        None => None,
        Some(v) => {
            let ws = toml_member_of(toml_member_of(toml_member_of(Some(v), "tool"), "uv"), "workspace");
            let members = toml_strings_of(toml_member_of(ws, "members"));
            let project = toml_member_of(Some(v), "project");
            Some(ParsedManifest { members, declares_workspace: ws.is_some(), declares_package: project.is_some() })
        },
    }
}

/// A `pyproject.toml` text: `pyproject_manifest_of` of what `toml` decodes.
pub fn pyproject_members(text: &str) -> (r: Option<ParsedManifest>)
    ensures
        manifest_view(r) == pyproject_manifest_of(toml_document(text@)),
{
    pyproject_members_of(parse_toml(text))
}

fn json_member_of<'a>(v: &'a JsonValue, key: &str) -> (r: Option<&'a JsonValue>)
    ensures
        crate::github::renovate::owned(r) == json_member(*v, key@),
{
    match v {
        JsonValue::Object(e) => member(e, key),
        _ => None,
    }
}

/// The npm manifest that the JSON parser's result gives: `npm_manifest_of`.
pub fn npm_members_of(doc: Result<JsonValue, (usize, usize)>) -> (r: Option<ParsedManifest>)
    ensures
        manifest_view(r) == npm_manifest_of(doc),
{
    match &doc {
        Err(_) => None,
        Ok(v) => {
            let named = json_member_of(v, "name").is_some();
            match json_member_of(v, "workspaces") {
                None => {
                    let members: Vec<String> = Vec::new();
                    assert(string_views(members@) =~= Seq::<Seq<char>>::empty());
                    Some(ParsedManifest { members, declares_workspace: false, declares_package: named })
                },
                Some(JsonValue::Array(a)) => {
                    Some(ParsedManifest { members: json_strings_of(a), declares_workspace: true, declares_package: named })
                },
                Some(JsonValue::Object(e)) => {
                    let members = match member(e, "packages") {
                        Some(JsonValue::Array(a)) => json_strings_of(a),
                        _ => {
                            let none: Vec<String> = Vec::new();
                            assert(string_views(none@) =~= Seq::<Seq<char>>::empty());
                            none
                        },
                    };
                    Some(ParsedManifest { members, declares_workspace: true, declares_package: named })
                },
                Some(_) => None,
            }
        },
    }
}

/// A `package.json` text: `npm_manifest_of` of what the JSON parser gives.
pub fn npm_members(text: &str) -> (r: Option<ParsedManifest>)
    ensures
        manifest_view(r) == npm_manifest_of(json_document(text@)),
{
    npm_members_of(parse_json(text))
}

/// What a manifest of `kind` declares.
pub open spec fn manifest_of(kind: WorkspaceManifestKind, text: Seq<char>) -> Option<(Seq<Seq<char>>, bool, bool)> {
    match kind {
        WorkspaceManifestKind::Cargo => cargo_manifest_of(toml_document(text)),
        WorkspaceManifestKind::Npm => npm_manifest_of(json_document(text)),
        WorkspaceManifestKind::Pyproject => pyproject_manifest_of(toml_document(text)),
        WorkspaceManifestKind::GoWork => match go_work_spec(text) {
            Some(m) => Some((m, true, false)),
            None => None,
        },
    }
}

/// The members a manifest of `kind` declares; `None` when it does not parse.
pub fn parse_manifest(kind: WorkspaceManifestKind, text: &str) -> (r: Option<ParsedManifest>)
    ensures
        manifest_view(r) == manifest_of(kind, text@),
{
    match kind {
        WorkspaceManifestKind::Cargo => cargo_members(text),
        WorkspaceManifestKind::Npm => npm_members(text),
        WorkspaceManifestKind::Pyproject => pyproject_members(text),
        WorkspaceManifestKind::GoWork => go_work_members(text),
    }
}

} // verus!
