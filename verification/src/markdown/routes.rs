//! Route classification: which repository routes (security, support,
//! release, ...) a heading, link text or link target names, by matching a
//! fixed table of English and Japanese aliases.

use vstd::prelude::*;
use crate::text::{
    chars_of, contains_str, has_infix, is_ascii_alphanumeric, matches_at, occurs_at, to_lowercase,
    unicode_lowercase,
};

verus! {

/// A repository route that documentation can point a reader to.
#[derive(Debug, Clone, Copy, PartialEq, Eq, Structural)]
pub enum RouteKind {
    Hygiene,
    Quickstart,
    Docs,
    Intake,
    Lifecycle,
    Support,
    Contributing,
    Security,
    Release,
    Governance,
    License,
    Ownership,
    Automation,
    Identity,
    Unknown,
}

/// The routes in the order the classifier reports them.
pub open spec fn route_order() -> Seq<RouteKind> {
    seq![
        RouteKind::Hygiene,
        RouteKind::Quickstart,
        RouteKind::Docs,
        RouteKind::Intake,
        RouteKind::Lifecycle,
        RouteKind::Support,
        RouteKind::Contributing,
        RouteKind::Security,
        RouteKind::Release,
        RouteKind::Governance,
        RouteKind::License,
        RouteKind::Ownership,
        RouteKind::Automation,
        RouteKind::Identity,
    ]
}

/// The aliases that name each route.
pub open spec fn route_alias_table(route: RouteKind) -> Seq<Seq<char>> {
    match route {
        RouteKind::Hygiene => seq![
            "hygiene"@, "repository hygiene"@, "cleanup"@, "clean-up"@, "self-audit"@,
            "self audit"@, "リポジトリ整理"@, "衛生"@,
        ],
        RouteKind::Quickstart => seq![
            "quickstart"@, "quick start"@, "getting started"@, "install"@, "installation"@,
            "usage"@, "example"@, "examples"@, "クイックスタート"@, "はじめに"@, "始め方"@,
            "インストール"@, "使い方"@, "使用例"@,
        ],
        RouteKind::Docs => seq![
            "docs"@, "documentation"@, "guide"@, "guides"@, "manual"@, "reference"@,
            "ドキュメント"@, "文書"@, "ガイド"@, "手引き"@, "リファレンス"@,
        ],
        RouteKind::Intake => seq![
            "issue template"@, "issue form"@, "bug report"@, "feature request"@,
            "pull request template"@, "pr template"@, "triage"@, "intake"@,
            "issue テンプレート"@, "バグ報告"@, "機能要望"@, "受付"@,
        ],
        RouteKind::Lifecycle => seq![
            "lifecycle"@, "life cycle"@, "maintenance"@, "maintained"@, "deprecation"@,
            "deprecated"@, "end of life"@, "end-of-life"@, "eol"@, "lts"@, "long term support"@,
            "supported versions"@, "version support"@, "support matrix"@,
            "compatibility policy"@, "archive policy"@, "archival"@, "sunset"@,
            "ライフサイクル"@, "保守"@, "メンテナンス"@, "非推奨"@, "サポート対象バージョン"@,
        ],
        RouteKind::Support => seq![
            "support"@, "discussions"@, "discussion"@, "help"@, "contact"@, "questions"@,
            "question"@, "issues"@, "issue"@, "サポート"@, "問い合わせ"@, "質問"@, "相談"@,
        ],
        RouteKind::Contributing => seq![
            "contributing"@, "contribute"@, "contribution"@, "development"@,
            "コントリビューション"@, "貢献"@, "開発参加"@,
        ],
        RouteKind::Security => seq![
            "security"@, "vulnerability"@, "vulnerabilities"@, "disclosure"@, "セキュリティ"@,
            "脆弱性"@, "開示"@,
        ],
        RouteKind::Release => seq![
            "release"@, "releases"@, "changelog"@, "changes"@, "version"@, "versions"@,
            "versioning"@, "compatibility"@, "リリース"@, "変更履歴"@, "バージョン"@, "互換性"@,
        ],
        RouteKind::Governance => seq![
            "governance"@, "roadmap"@, "rfc"@, "proposal"@, "ガバナンス"@, "ロードマップ"@,
            "提案"@, "意思決定"@,
        ],
        RouteKind::License => seq!["license"@, "licence"@, "copying"@, "ライセンス"@, "許諾"@],
        RouteKind::Ownership => seq![
            "codeowners"@, "maintainer"@, "maintainers"@, "ownership"@, "owner"@, "owners"@,
            "メンテナー"@, "管理者"@, "所有者"@,
        ],
        RouteKind::Automation => seq![
            "workflow"@, "workflows"@, "actions"@, "ci"@, "build"@, "badge"@, "automation"@,
            "自動化"@, "ワークフロー"@, "ビルド"@,
        ],
        RouteKind::Identity => seq!["readme"@, "overview"@, "about"@, "概要"@, "このプロジェクトについて"@],
        RouteKind::Unknown => Seq::empty(),
    }
}

/// The aliases that mark an explicit release route.
pub open spec fn release_marker_aliases() -> Seq<Seq<char>> {
    seq!["release"@, "releases"@, "changelog"@, "changes"@, "versioning"@, "リリース"@, "変更履歴"@]
}

pub open spec fn str_views(v: Seq<&str>) -> Seq<Seq<char>> {
    v.map_values(|s: &str| s@)
}

pub open spec fn is_ascii_text(s: Seq<char>) -> bool {
    forall|i: int| 0 <= i < s.len() ==> (#[trigger] s[i]) < '\u{80}'
}

/// A character that continues an ASCII word.
pub open spec fn is_word_char(c: char) -> bool {
    is_ascii_alphanumeric(c) || c == '_'
}

/// The occurrence of `a` at `i` in `v` is not glued to a word character on
/// either side.
pub open spec fn bounded_at(v: Seq<char>, a: Seq<char>, i: int) -> bool {
    &&& (i == 0 || !is_word_char(v[i - 1]))
    &&& (i + a.len() >= v.len() || !is_word_char(v[i + a.len()]))
}

/// Scanning the non-overlapping occurrences of `a` in `v` from `i` on, left
/// to right (as `str::match_indices` does), one of them is bounded.
pub open spec fn bounded_match_from(v: Seq<char>, a: Seq<char>, i: int) -> bool
    recommends
        a.len() > 0,
    decreases v.len() - i,
{
    if a.len() == 0 || i < 0 || i + a.len() > v.len() {
        false
    } else if occurs_at(v, a, i) {
        bounded_at(v, a, i) || bounded_match_from(v, a, i + a.len())
    } else {
        bounded_match_from(v, a, i + 1)
    }
}

/// An ASCII alias must occur as a whole word; any other alias anywhere.
pub open spec fn contains_alias(v: Seq<char>, a: Seq<char>) -> bool {
    if is_ascii_text(a) {
        bounded_match_from(v, a, 0)
    } else {
        has_infix(v, a)
    }
}

pub open spec fn contains_any_alias(v: Seq<char>, aliases: Seq<Seq<char>>) -> bool {
    exists|k: int| 0 <= k < aliases.len() && contains_alias(v, #[trigger] aliases[k])
}

pub open spec fn route_matches(v: Seq<char>, route: RouteKind) -> bool {
    contains_any_alias(v, route_alias_table(route))
}

/// The value names a release route explicitly, not only through a version term.
pub open spec fn explicit_release(v: Seq<char>) -> bool {
    contains_any_alias(v, release_marker_aliases())
}

/// A matched route survives: support is dropped in favour of an intake route
/// unless support is named itself, and release in favour of a lifecycle route
/// unless release is named explicitly.
pub open spec fn route_kept(v: Seq<char>, route: RouteKind) -> bool {
    &&& route_matches(v, route)
    &&& !(route == RouteKind::Support && route_matches(v, RouteKind::Intake)
        && !contains_alias(v, "support"@) && !has_infix(v, "サポート"@))
    &&& !(route == RouteKind::Release && route_matches(v, RouteKind::Lifecycle) && !explicit_release(v))
}

pub open spec fn kept_filter(v: Seq<char>) -> spec_fn(RouteKind) -> bool {
    |route: RouteKind| route_kept(v, route)
}

/// The routes that a lower-cased value names, in `route_order`.
pub open spec fn routes_of(v: Seq<char>) -> Seq<RouteKind> {
    route_order().filter(kept_filter(v))
}

/// The routes of a text, or, when it names none, those of the target.
pub open spec fn classified_routes(text: Seq<char>, target: Option<Seq<char>>) -> Seq<RouteKind> {
    let routes = routes_of(unicode_lowercase(text));
    if routes.len() > 0 {
        routes
    } else {
        match target {
            Some(t) => routes_of(unicode_lowercase(t)),
            None => Seq::empty(),
        }
    }
}

/// The words that, read alone, name a route whatever else the classifier
/// knows: each alias of a route, except that support is named alone only by
/// its own name and release only by its explicit markers (their other
/// aliases give way to intake and lifecycle words).
#[verifier::opaque]
pub open spec fn route_words(route: RouteKind) -> Seq<Seq<char>> {
    match route {
        RouteKind::Hygiene => seq![
            "hygiene"@,
            "repository hygiene"@,
            "cleanup"@,
            "clean-up"@,
            "self-audit"@,
            "self audit"@,
            "リポジトリ整理"@,
            "衛生"@,
        ],
        RouteKind::Quickstart => seq![
            "quickstart"@,
            "quick start"@,
            "getting started"@,
            "install"@,
            "installation"@,
            "usage"@,
            "example"@,
            "examples"@,
            "クイックスタート"@,
            "はじめに"@,
            "始め方"@,
            "インストール"@,
            "使い方"@,
            "使用例"@,
        ],
        RouteKind::Docs => seq![
            "docs"@,
            "documentation"@,
            "guide"@,
            "guides"@,
            "manual"@,
            "reference"@,
            "ドキュメント"@,
            "文書"@,
            "ガイド"@,
            "手引き"@,
            "リファレンス"@,
        ],
        RouteKind::Intake => seq![
            "issue template"@,
            "issue form"@,
            "bug report"@,
            "feature request"@,
            "pull request template"@,
            "pr template"@,
            "triage"@,
            "intake"@,
            "issue テンプレート"@,
            "バグ報告"@,
            "機能要望"@,
            "受付"@,
        ],
        RouteKind::Lifecycle => seq![
            "lifecycle"@,
            "life cycle"@,
            "maintenance"@,
            "maintained"@,
            "deprecation"@,
            "deprecated"@,
            "end of life"@,
            "end-of-life"@,
            "eol"@,
            "lts"@,
            "long term support"@,
            "supported versions"@,
            "version support"@,
            "support matrix"@,
            "compatibility policy"@,
            "archive policy"@,
            "archival"@,
            "sunset"@,
            "ライフサイクル"@,
            "保守"@,
            "メンテナンス"@,
            "非推奨"@,
            "サポート対象バージョン"@,
        ],
        RouteKind::Support => seq![
            "support"@,
            "サポート"@,
        ],
        RouteKind::Contributing => seq![
            "contributing"@,
            "contribute"@,
            "contribution"@,
            "development"@,
            "コントリビューション"@,
            "貢献"@,
            "開発参加"@,
        ],
        RouteKind::Security => seq![
            "security"@,
            "vulnerability"@,
            "vulnerabilities"@,
            "disclosure"@,
            "セキュリティ"@,
            "脆弱性"@,
            "開示"@,
        ],
        RouteKind::Release => seq![
            "release"@,
            "releases"@,
            "changelog"@,
            "changes"@,
            "versioning"@,
            "リリース"@,
            "変更履歴"@,
        ],
        RouteKind::Governance => seq![
            "governance"@,
            "roadmap"@,
            "rfc"@,
            "proposal"@,
            "ガバナンス"@,
            "ロードマップ"@,
            "提案"@,
            "意思決定"@,
        ],
        RouteKind::License => seq![
            "license"@,
            "licence"@,
            "copying"@,
            "ライセンス"@,
            "許諾"@,
        ],
        RouteKind::Ownership => seq![
            "codeowners"@,
            "maintainer"@,
            "maintainers"@,
            "ownership"@,
            "owner"@,
            "owners"@,
            "メンテナー"@,
            "管理者"@,
            "所有者"@,
        ],
        RouteKind::Automation => seq![
            "workflow"@,
            "workflows"@,
            "actions"@,
            "ci"@,
            "build"@,
            "badge"@,
            "automation"@,
            "自動化"@,
            "ワークフロー"@,
            "ビルド"@,
        ],
        RouteKind::Identity => seq![
            "readme"@,
            "overview"@,
            "about"@,
            "概要"@,
            "このプロジェクトについて"@,
        ],
        RouteKind::Unknown => Seq::empty(),
    }
}

proof fn lemma_route_words_nonempty(route: RouteKind, k: int)
    requires
        0 <= k < route_words(route).len(),
    ensures
        route_words(route)[k].len() > 0,
        route != RouteKind::Unknown,
{
    reveal(route_words);
    match route {
        RouteKind::Hygiene => {
            reveal_strlit("hygiene");
            reveal_strlit("repository hygiene");
            reveal_strlit("cleanup");
            reveal_strlit("clean-up");
            reveal_strlit("self-audit");
            reveal_strlit("self audit");
            reveal_strlit("リポジトリ整理");
            reveal_strlit("衛生");
        },
        RouteKind::Quickstart => {
            reveal_strlit("quickstart");
            reveal_strlit("quick start");
            reveal_strlit("getting started");
            reveal_strlit("install");
            reveal_strlit("installation");
            reveal_strlit("usage");
            reveal_strlit("example");
            reveal_strlit("examples");
            reveal_strlit("クイックスタート");
            reveal_strlit("はじめに");
            reveal_strlit("始め方");
            reveal_strlit("インストール");
            reveal_strlit("使い方");
            reveal_strlit("使用例");
        },
        RouteKind::Docs => {
            reveal_strlit("docs");
            reveal_strlit("documentation");
            reveal_strlit("guide");
            reveal_strlit("guides");
            reveal_strlit("manual");
            reveal_strlit("reference");
            reveal_strlit("ドキュメント");
            reveal_strlit("文書");
            reveal_strlit("ガイド");
            reveal_strlit("手引き");
            reveal_strlit("リファレンス");
        },
        RouteKind::Intake => {
            reveal_strlit("issue template");
            reveal_strlit("issue form");
            reveal_strlit("bug report");
            reveal_strlit("feature request");
            reveal_strlit("pull request template");
            reveal_strlit("pr template");
            reveal_strlit("triage");
            reveal_strlit("intake");
            reveal_strlit("issue テンプレート");
            reveal_strlit("バグ報告");
            reveal_strlit("機能要望");
            reveal_strlit("受付");
        },
        RouteKind::Lifecycle => {
            reveal_strlit("lifecycle");
            reveal_strlit("life cycle");
            reveal_strlit("maintenance");
            reveal_strlit("maintained");
            reveal_strlit("deprecation");
            reveal_strlit("deprecated");
            reveal_strlit("end of life");
            reveal_strlit("end-of-life");
            reveal_strlit("eol");
            reveal_strlit("lts");
            reveal_strlit("long term support");
            reveal_strlit("supported versions");
            reveal_strlit("version support");
            reveal_strlit("support matrix");
            reveal_strlit("compatibility policy");
            reveal_strlit("archive policy");
            reveal_strlit("archival");
            reveal_strlit("sunset");
            reveal_strlit("ライフサイクル");
            reveal_strlit("保守");
            reveal_strlit("メンテナンス");
            reveal_strlit("非推奨");
            reveal_strlit("サポート対象バージョン");
        },
        RouteKind::Support => {
            reveal_strlit("support");
            reveal_strlit("サポート");
        },
        RouteKind::Contributing => {
            reveal_strlit("contributing");
            reveal_strlit("contribute");
            reveal_strlit("contribution");
            reveal_strlit("development");
            reveal_strlit("コントリビューション");
            reveal_strlit("貢献");
            reveal_strlit("開発参加");
        },
        RouteKind::Security => {
            reveal_strlit("security");
            reveal_strlit("vulnerability");
            reveal_strlit("vulnerabilities");
            reveal_strlit("disclosure");
            reveal_strlit("セキュリティ");
            reveal_strlit("脆弱性");
            reveal_strlit("開示");
        },
        RouteKind::Release => {
            reveal_strlit("release");
            reveal_strlit("releases");
            reveal_strlit("changelog");
            reveal_strlit("changes");
            reveal_strlit("versioning");
            reveal_strlit("リリース");
            reveal_strlit("変更履歴");
        },
        RouteKind::Governance => {
            reveal_strlit("governance");
            reveal_strlit("roadmap");
            reveal_strlit("rfc");
            reveal_strlit("proposal");
            reveal_strlit("ガバナンス");
            reveal_strlit("ロードマップ");
            reveal_strlit("提案");
            reveal_strlit("意思決定");
        },
        RouteKind::License => {
            reveal_strlit("license");
            reveal_strlit("licence");
            reveal_strlit("copying");
            reveal_strlit("ライセンス");
            reveal_strlit("許諾");
        },
        RouteKind::Ownership => {
            reveal_strlit("codeowners");
            reveal_strlit("maintainer");
            reveal_strlit("maintainers");
            reveal_strlit("ownership");
            reveal_strlit("owner");
            reveal_strlit("owners");
            reveal_strlit("メンテナー");
            reveal_strlit("管理者");
            reveal_strlit("所有者");
        },
        RouteKind::Automation => {
            reveal_strlit("workflow");
            reveal_strlit("workflows");
            reveal_strlit("actions");
            reveal_strlit("ci");
            reveal_strlit("build");
            reveal_strlit("badge");
            reveal_strlit("automation");
            reveal_strlit("自動化");
            reveal_strlit("ワークフロー");
            reveal_strlit("ビルド");
        },
        RouteKind::Identity => {
            reveal_strlit("readme");
            reveal_strlit("overview");
            reveal_strlit("about");
            reveal_strlit("概要");
            reveal_strlit("このプロジェクトについて");
        },
        RouteKind::Unknown => {},
    }
}

/// A non-empty alias occurs, as a whole word, in a value that is the alias
/// itself.
proof fn lemma_alias_alone(a: Seq<char>)
    requires
        a.len() > 0,
    ensures
        contains_alias(a, a),
        has_infix(a, a),
{
    assert(a.subrange(0, a.len() as int) =~= a);
    assert(occurs_at(a, a, 0));
    assert(bounded_at(a, a, 0));
    assert(bounded_match_from(a, a, 0));
}

proof fn lemma_word_in_table(route: RouteKind, k: int)
    requires
        0 <= k < route_words(route).len(),
    ensures
        exists|j: int|
            0 <= j < route_alias_table(route).len() && route_alias_table(route)[j] == route_words(
                route,
            )[k],
        route == RouteKind::Support ==> (route_words(route)[k] == "support"@ || route_words(route)[k]
            == "サポート"@),
        route == RouteKind::Release ==> (k < release_marker_aliases().len()
            && release_marker_aliases()[k] == route_words(route)[k]),
{
    reveal(route_words);
    let t = route_alias_table(route);
    let w = route_words(route);
    if route == RouteKind::Support {
        if k == 0 {
            assert(t[0] == w[0]);
        } else {
            assert(t[9] == w[1]);
        }
    } else if route == RouteKind::Release {
        if k == 0 { assert(t[0] == w[0]); }
        if k == 1 { assert(t[1] == w[1]); }
        if k == 2 { assert(t[2] == w[2]); }
        if k == 3 { assert(t[3] == w[3]); }
        if k == 4 { assert(t[6] == w[4]); }
        if k == 5 { assert(t[8] == w[5]); }
        if k == 6 { assert(t[9] == w[6]); }
    } else {
        assert(t == w);
        assert(t[k] == w[k]);
    }
}

proof fn lemma_word_kept(v: Seq<char>, route: RouteKind, k: int)
    requires
        0 <= k < route_words(route).len(),
        v == route_words(route)[k],
    ensures
        route_kept(v, route),
        route != RouteKind::Unknown,
{
    lemma_route_words_nonempty(route, k);
    lemma_alias_alone(v);
    lemma_word_in_table(route, k);
    let j = choose|j: int| 0 <= j < route_alias_table(route).len() && route_alias_table(route)[j] == v;
    assert(contains_alias(v, route_alias_table(route)[j]));
    assert(route_matches(v, route));
    if route == RouteKind::Release {
        assert(release_marker_aliases()[k] == v);
        assert(explicit_release(v));
    }
}

/// A heading or link text that reads, in any letter case, as one of a
/// route's words names that route, whatever its target: `Installation` is a
/// quickstart route, `SECURITY` a security route, `Changelog` a release
/// route.
pub proof fn lemma_words_name_routes(text: Seq<char>, target: Option<Seq<char>>, route: RouteKind, k: int)
    requires
        0 <= k < route_words(route).len(),
        unicode_lowercase(text) == route_words(route)[k],
    ensures
        routes_of(unicode_lowercase(text)).contains(route),
        classified_routes(text, target).contains(route),
{
    let v = unicode_lowercase(text);
    lemma_word_kept(v, route, k);
    let i: int = match route {
        RouteKind::Hygiene => 0,
        RouteKind::Quickstart => 1,
        RouteKind::Docs => 2,
        RouteKind::Intake => 3,
        RouteKind::Lifecycle => 4,
        RouteKind::Support => 5,
        RouteKind::Contributing => 6,
        RouteKind::Security => 7,
        RouteKind::Release => 8,
        RouteKind::Governance => 9,
        RouteKind::License => 10,
        RouteKind::Ownership => 11,
        RouteKind::Automation => 12,
        RouteKind::Identity => 13,
        RouteKind::Unknown => 0,
    };
    assert(route_order()[i] == route);
    assert(kept_filter(v)(route_order()[i]));
    route_order().lemma_filter_contains(kept_filter(v), i);
}

fn route_order_list() -> (r: Vec<RouteKind>)
    ensures
        r@ == route_order(),
{
    let r = vec![
        RouteKind::Hygiene,
        RouteKind::Quickstart,
        RouteKind::Docs,
        RouteKind::Intake,
        RouteKind::Lifecycle,
        RouteKind::Support,
        RouteKind::Contributing,
        RouteKind::Security,
        RouteKind::Release,
        RouteKind::Governance,
        RouteKind::License,
        RouteKind::Ownership,
        RouteKind::Automation,
        RouteKind::Identity,
    ];
    assert(r@ =~= route_order());
    r
}

/// The aliases of `route`, as `route_alias_table` lists them.
fn route_alias_list(route: RouteKind) -> (r: Vec<&'static str>)
    ensures
        str_views(r@) == route_alias_table(route),
{
    match route {
        RouteKind::Hygiene => {
            let r: Vec<&'static str> = vec!["hygiene", "repository hygiene", "cleanup", "clean-up", "self-audit", "self audit", "リポジトリ整理", "衛生"];
            assert(str_views(r@) =~= route_alias_table(route));
            r
        },
        RouteKind::Quickstart => {
            let r: Vec<&'static str> = vec!["quickstart", "quick start", "getting started", "install", "installation", "usage", "example", "examples", "クイックスタート", "はじめに", "始め方", "インストール", "使い方", "使用例"];
            assert(str_views(r@) =~= route_alias_table(route));
            r
        },
        RouteKind::Docs => {
            let r: Vec<&'static str> = vec!["docs", "documentation", "guide", "guides", "manual", "reference", "ドキュメント", "文書", "ガイド", "手引き", "リファレンス"];
            assert(str_views(r@) =~= route_alias_table(route));
            r
        },
        RouteKind::Intake => {
            let r: Vec<&'static str> = vec!["issue template", "issue form", "bug report", "feature request", "pull request template", "pr template", "triage", "intake", "issue テンプレート", "バグ報告", "機能要望", "受付"];
            assert(str_views(r@) =~= route_alias_table(route));
            r
        },
        RouteKind::Lifecycle => {
            let r: Vec<&'static str> = vec!["lifecycle", "life cycle", "maintenance", "maintained", "deprecation", "deprecated", "end of life", "end-of-life", "eol", "lts", "long term support", "supported versions", "version support", "support matrix", "compatibility policy", "archive policy", "archival", "sunset", "ライフサイクル", "保守", "メンテナンス", "非推奨", "サポート対象バージョン"];
            assert(str_views(r@) =~= route_alias_table(route));
            r
        },
        RouteKind::Support => {
            let r: Vec<&'static str> = vec!["support", "discussions", "discussion", "help", "contact", "questions", "question", "issues", "issue", "サポート", "問い合わせ", "質問", "相談"];
            assert(str_views(r@) =~= route_alias_table(route));
            r
        },
        RouteKind::Contributing => {
            let r: Vec<&'static str> = vec!["contributing", "contribute", "contribution", "development", "コントリビューション", "貢献", "開発参加"];
            assert(str_views(r@) =~= route_alias_table(route));
            r
        },
        RouteKind::Security => {
            let r: Vec<&'static str> = vec!["security", "vulnerability", "vulnerabilities", "disclosure", "セキュリティ", "脆弱性", "開示"];
            assert(str_views(r@) =~= route_alias_table(route));
            r
        },
        RouteKind::Release => {
            let r: Vec<&'static str> = vec!["release", "releases", "changelog", "changes", "version", "versions", "versioning", "compatibility", "リリース", "変更履歴", "バージョン", "互換性"];
            assert(str_views(r@) =~= route_alias_table(route));
            r
        },
        RouteKind::Governance => {
            let r: Vec<&'static str> = vec!["governance", "roadmap", "rfc", "proposal", "ガバナンス", "ロードマップ", "提案", "意思決定"];
            assert(str_views(r@) =~= route_alias_table(route));
            r
        },
        RouteKind::License => {
            let r: Vec<&'static str> = vec!["license", "licence", "copying", "ライセンス", "許諾"];
            assert(str_views(r@) =~= route_alias_table(route));
            r
        },
        RouteKind::Ownership => {
            let r: Vec<&'static str> = vec!["codeowners", "maintainer", "maintainers", "ownership", "owner", "owners", "メンテナー", "管理者", "所有者"];
            assert(str_views(r@) =~= route_alias_table(route));
            r
        },
        RouteKind::Automation => {
            let r: Vec<&'static str> = vec!["workflow", "workflows", "actions", "ci", "build", "badge", "automation", "自動化", "ワークフロー", "ビルド"];
            assert(str_views(r@) =~= route_alias_table(route));
            r
        },
        RouteKind::Identity => {
            let r: Vec<&'static str> = vec!["readme", "overview", "about", "概要", "このプロジェクトについて"];
            assert(str_views(r@) =~= route_alias_table(route));
            r
        },
        RouteKind::Unknown => {
            let r: Vec<&'static str> = vec![];
            assert(str_views(r@) =~= route_alias_table(route));
            r
        },
    }
}


fn release_marker_list() -> (r: Vec<&'static str>)
    ensures
        str_views(r@) == release_marker_aliases(),
{
    let r: Vec<&'static str> = vec!["release", "releases", "changelog", "changes", "versioning", "リリース", "変更履歴"];
    assert(str_views(r@) =~= release_marker_aliases());
    r
}

fn ascii_text(a: &[char]) -> (r: bool)
    ensures
        r == is_ascii_text(a@),
{
    let mut i: usize = 0;
    while i < a.len()
        invariant
            i <= a.len(),
            forall|k: int| 0 <= k < i ==> (#[trigger] a@[k]) < '\u{80}',
        decreases a.len() - i,
    {
        if a[i] >= '\u{80}' {
            return false;
        }
        i = i + 1;
    }
    true
}

fn word_char(c: char) -> (r: bool)
    ensures
        r == is_word_char(c),
{
    crate::text::char_is_ascii_alphanumeric(c) || c == '_'
}

fn bounded(value: &[char], a: &[char], i: usize) -> (r: bool)
    requires
        i + a.len() <= value.len(),
    ensures
        r == bounded_at(value@, a@, i as int),
{
    let before = i == 0 || !word_char(value[i - 1]);
    let end = i + a.len();
    let after = end >= value.len() || !word_char(value[end]);
    before && after
}

/// `contains_alias(value, alias)` on characters.
fn alias_in(value: &[char], alias: &str) -> (r: bool)
    ensures
        r == contains_alias(value@, alias@),
{
    let a = chars_of(alias);
    let aa = a.as_slice();
    if !ascii_text(aa) {
        return crate::text::contains(value, aa);
    }
    if aa.len() == 0 {
        return false;
    }
    let mut i: usize = 0;
    while aa.len() <= value.len() - i
        invariant
            aa@ == alias@,
            aa.len() > 0,
            i <= value.len(),
            bounded_match_from(value@, aa@, 0) == bounded_match_from(value@, aa@, i as int),
        decreases value.len() - i,
    {
        if matches_at(value, aa, i) {
            if bounded(value, aa, i) {
                return true;
            }
            i = i + aa.len();
        } else {
            i = i + 1;
        }
    }
    false
}

fn any_alias_in(value: &[char], aliases: &[&str]) -> (r: bool)
    ensures
        r == contains_any_alias(value@, str_views(aliases@)),
{
    let mut i: usize = 0;
    while i < aliases.len()
        invariant
            i <= aliases.len(),
            forall|k: int| 0 <= k < i ==> !contains_alias(value@, #[trigger] str_views(aliases@)[k]),
        decreases aliases.len() - i,
    {
        if alias_in(value, aliases[i]) {
            assert(str_views(aliases@)[i as int] == aliases@[i as int]@);
            return true;
        }
        i = i + 1;
    }
    false
}

fn route_matches_in(value: &[char], route: RouteKind) -> (r: bool)
    ensures
        r == route_matches(value@, route),
{
    let aliases = route_alias_list(route);
    any_alias_in(value, aliases.as_slice())
}

/// Whether `value` contains `alias`: an ASCII alias as a whole word (its
/// neighbours are not ASCII letters, digits or `_`, taking the occurrences
/// left to right without overlap), any other alias anywhere.
pub fn contains_route_alias(value: &str, alias: &str) -> (r: bool)
    ensures
        r == contains_alias(value@, alias@),
{
    let v = chars_of(value);
    alias_in(v.as_slice(), alias)
}

/// Whether `value` names a release route explicitly.
pub fn has_explicit_release_marker(value: &str) -> (r: bool)
    ensures
        r == explicit_release(value@),
{
    let v = chars_of(value);
    let markers = release_marker_list();
    any_alias_in(v.as_slice(), markers.as_slice())
}

/// The routes that an already lower-cased `value` names, in `route_order`.
pub fn route_aliases(value: &str) -> (r: Vec<RouteKind>)
    ensures
        r@ == routes_of(value@),
{
    let cv = chars_of(value);
    let v = cv.as_slice();
    let intake = route_matches_in(v, RouteKind::Intake);
    let lifecycle = route_matches_in(v, RouteKind::Lifecycle);
    let support_named = alias_in(v, "support") || crate::text::contains_str(v, "サポート");
    let markers = release_marker_list();
    let explicit = any_alias_in(v, markers.as_slice());
    let order = route_order_list();
    let mut out: Vec<RouteKind> = Vec::new();
    let mut i: usize = 0;
    proof {
        reveal(Seq::filter);
        assert(order@.take(0) =~= Seq::<RouteKind>::empty());
    }
    while i < order.len()
        invariant
            cv@ == value@,
            v@ == value@,
            order@ == route_order(),
            intake == route_matches(value@, RouteKind::Intake),
            lifecycle == route_matches(value@, RouteKind::Lifecycle),
            support_named == (contains_alias(value@, "support"@) || has_infix(value@, "サポート"@)),
            explicit == explicit_release(value@),
            i <= order.len(),
            out@ == order@.take(i as int).filter(kept_filter(value@)),
        decreases order.len() - i,
    {
        let route = order[i];
        let keep = route_matches_in(v, route) && !(route == RouteKind::Support && intake && !support_named)
            && !(route == RouteKind::Release && lifecycle && !explicit);
        proof {
            reveal(Seq::filter);
            assert(order@.take(i + 1).drop_last() =~= order@.take(i as int));
            assert(keep == route_kept(value@, route));
        }
        if keep {
            out.push(route);
        }
        i = i + 1;
    }
    assert(order@.take(order.len() as int) =~= order@);
    out
}

/// The routes of `text` (lower-cased), or, when it names none, those of
/// `target` (lower-cased).
pub fn classify_routes(text: &str, target: Option<&str>) -> (r: Vec<RouteKind>)
    ensures
        r@ == classified_routes(text@, match target { Some(t) => Some(t@), None => None }),
{
    let lower = to_lowercase(text);
    let routes = route_aliases(lower.as_str());
    if routes.len() > 0 {
        return routes;
    }
    match target {
        Some(t) => {
            let lower_target = to_lowercase(t);
            route_aliases(lower_target.as_str())
        },
        None => Vec::new(),
    }
}

/// The first route that `classify_routes` reports, or `Unknown`.
pub fn classify_route(text: &str, target: Option<&str>) -> (r: RouteKind)
    ensures
        ({
            let routes = classified_routes(text@, match target { Some(t) => Some(t@), None => None });
            r == if routes.len() > 0 { routes[0] } else { RouteKind::Unknown }
        }),
{
    let routes = classify_routes(text, target);
    if routes.len() > 0 {
        routes[0]
    } else {
        RouteKind::Unknown
    }
}

} // verus!
