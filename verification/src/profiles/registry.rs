//! Profiles, their rule definitions, and the registry that holds exactly
//! one non-empty definition per profile.

use vstd::prelude::*;
use crate::profiles::weight::StaticProfileWeight;
use crate::text::{chars_of, equals_str, string_of};

verus! {

/// The repository profiles that rules are weighted for.
#[derive(Debug, Clone, Copy, PartialEq, Eq, Structural, PartialOrd, Ord, Hash)]
pub enum ProfileKind {
    Common,
    Library,
    Cli,
    Infra,
    Product,
    Runtime,
    Docs,
    Tutorial,
    Ml,
    Research,
    Template,
}

/// Every profile, in declaration order.
pub open spec fn all_profiles() -> Seq<ProfileKind> {
    seq![
        ProfileKind::Common,
        ProfileKind::Library,
        ProfileKind::Cli,
        ProfileKind::Infra,
        ProfileKind::Product,
        ProfileKind::Runtime,
        ProfileKind::Docs,
        ProfileKind::Tutorial,
        ProfileKind::Ml,
        ProfileKind::Research,
        ProfileKind::Template,
    ]
}

/// A profile's position in declaration order.
pub open spec fn profile_rank(p: ProfileKind) -> nat {
    match p {
        ProfileKind::Common => 0,
        ProfileKind::Library => 1,
        ProfileKind::Cli => 2,
        ProfileKind::Infra => 3,
        ProfileKind::Product => 4,
        ProfileKind::Runtime => 5,
        ProfileKind::Docs => 6,
        ProfileKind::Tutorial => 7,
        ProfileKind::Ml => 8,
        ProfileKind::Research => 9,
        ProfileKind::Template => 10,
    }
}

/// A profile's name as reports print it.
pub open spec fn profile_name(p: ProfileKind) -> Seq<char> {
    match p {
        ProfileKind::Common => "common"@,
        ProfileKind::Library => "library"@,
        ProfileKind::Cli => "cli"@,
        ProfileKind::Infra => "infra"@,
        ProfileKind::Product => "product"@,
        ProfileKind::Runtime => "runtime"@,
        ProfileKind::Docs => "docs"@,
        ProfileKind::Tutorial => "tutorial"@,
        ProfileKind::Ml => "ml"@,
        ProfileKind::Research => "research"@,
        ProfileKind::Template => "template"@,
    }
}

impl ProfileKind {
    /// Every profile, in declaration order.
    pub fn all() -> (r: Vec<ProfileKind>)
        ensures
            r@ == all_profiles(),
    {
        let r = vec![
            ProfileKind::Common,
            ProfileKind::Library,
            ProfileKind::Cli,
            ProfileKind::Infra,
            ProfileKind::Product,
            ProfileKind::Runtime,
            ProfileKind::Docs,
            ProfileKind::Tutorial,
            ProfileKind::Ml,
            ProfileKind::Research,
            ProfileKind::Template,
        ];
        assert(r@ =~= all_profiles());
        r
    }

    /// The profile's position in declaration order.
    pub fn order(self) -> (r: u8)
        ensures
            r == profile_rank(self),
    {
        match self {
            ProfileKind::Common => 0,
            ProfileKind::Library => 1,
            ProfileKind::Cli => 2,
            ProfileKind::Infra => 3,
            ProfileKind::Product => 4,
            ProfileKind::Runtime => 5,
            ProfileKind::Docs => 6,
            ProfileKind::Tutorial => 7,
            ProfileKind::Ml => 8,
            ProfileKind::Research => 9,
            ProfileKind::Template => 10,
        }
    }

    /// The profile's name.
    pub fn as_str(self) -> (r: &'static str)
        ensures
            r@ == profile_name(self),
    {
        match self {
            ProfileKind::Common => "common",
            ProfileKind::Library => "library",
            ProfileKind::Cli => "cli",
            ProfileKind::Infra => "infra",
            ProfileKind::Product => "product",
            ProfileKind::Runtime => "runtime",
            ProfileKind::Docs => "docs",
            ProfileKind::Tutorial => "tutorial",
            ProfileKind::Ml => "ml",
            ProfileKind::Research => "research",
            ProfileKind::Template => "template",
        }
    }
}

/// How urgently a missing rule should be addressed.
#[derive(Debug, Clone, Copy, PartialEq, Eq, Structural)]
pub enum ProfilePriority {
    Low,
    Normal,
    High,
    Critical,
}

/// One weighted baseline pattern in a profile.
#[derive(Debug, Clone, PartialEq, Eq)]
pub struct ProfileRuleDefinition {
    pub pattern_id: &'static str,
    pub weight: StaticProfileWeight,
    pub priority: ProfilePriority,
    pub reason: &'static str,
}

/// A rule definition as values.
pub struct RuleView {
    pub pattern_id: Seq<char>,
    pub weight: u16,
    pub priority: ProfilePriority,
    pub reason: Seq<char>,
}

impl View for ProfileRuleDefinition {
    type V = RuleView;

    open spec fn view(&self) -> RuleView {
        RuleView {
            pattern_id: self.pattern_id@,
            weight: self.weight.value(),
            priority: self.priority,
            reason: self.reason@,
        }
    }
}

pub open spec fn rule_views(rules: Seq<ProfileRuleDefinition>) -> Seq<RuleView> {
    rules.map_values(|d: ProfileRuleDefinition| d@)
}

pub open spec fn rule_ids(rules: Seq<ProfileRuleDefinition>) -> Seq<Seq<char>> {
    rules.map_values(|d: ProfileRuleDefinition| d.pattern_id@)
}

/// The rules of one profile.
#[derive(Debug, Clone, PartialEq, Eq)]
pub struct ProfileDefinition {
    pub profile: ProfileKind,
    pub rules: Vec<ProfileRuleDefinition>,
}

/// Why a set of profile definitions is not a complete registry.
#[derive(Debug, Clone, PartialEq, Eq)]
pub enum ProfileRegistryError {
    DuplicateProfile(ProfileKind),
    EmptyProfile(ProfileKind),
    DuplicateRule { profile: ProfileKind, pattern_id: &'static str },
    MissingProfile(ProfileKind),
}

/// The `j`th id repeats an earlier one.
pub open spec fn repeats_earlier(ids: Seq<Seq<char>>, j: int) -> bool {
    0 <= j < ids.len() && ids.take(j).contains(ids[j])
}

/// The first repeated id is at `j`.
pub open spec fn first_repeat_at(ids: Seq<Seq<char>>, j: int) -> bool {
    repeats_earlier(ids, j) && forall|k: int| 0 <= k < j ==> !repeats_earlier(ids, k)
}

pub open spec fn has_repeat(ids: Seq<Seq<char>>) -> bool {
    exists|j: int| repeats_earlier(ids, j)
}

pub open spec fn profiles_of(defs: Seq<ProfileDefinition>) -> Seq<ProfileKind> {
    defs.map_values(|d: ProfileDefinition| d.profile)
}

/// What is wrong with the `i`th definition, given the ones before it: a
/// profile defined twice, a profile without rules, or a pattern named twice
/// (the first repeat).
pub open spec fn definition_error(defs: Seq<ProfileDefinition>, i: int) -> Option<ProfileRegistryError> {
    let d = defs[i];
    let ids = rule_ids(d.rules@);
    if profiles_of(defs).take(i).contains(d.profile) {
        Some(ProfileRegistryError::DuplicateProfile(d.profile))
    } else if d.rules@.len() == 0 {
        Some(ProfileRegistryError::EmptyProfile(d.profile))
    } else if has_repeat(ids) {
        let j = choose|j: int| first_repeat_at(ids, j);
        Some(ProfileRegistryError::DuplicateRule { profile: d.profile, pattern_id: d.rules@[j].pattern_id })
    } else {
        None
    }
}

/// The first definition that has an error is at `i`.
pub open spec fn first_bad_definition(defs: Seq<ProfileDefinition>, i: int) -> bool {
    &&& 0 <= i < defs.len()
    &&& definition_error(defs, i) is Some
    &&& forall|k: int| 0 <= k < i ==> definition_error(defs, k) is None
}

/// The first profile, in declaration order, that no definition covers is at `i`.
pub open spec fn first_missing(defs: Seq<ProfileDefinition>, i: int) -> bool {
    &&& 0 <= i < all_profiles().len()
    &&& !profiles_of(defs).contains(all_profiles()[i])
    &&& forall|k: int| 0 <= k < i ==> profiles_of(defs).contains(all_profiles()[k])
}

/// The registry check: the first definition error in order, else the first
/// profile without a definition, else success.
pub open spec fn registry_check(defs: Seq<ProfileDefinition>) -> Result<(), ProfileRegistryError> {
    if exists|i: int| first_bad_definition(defs, i) {
        let i = choose|i: int| first_bad_definition(defs, i);
        Err(definition_error(defs, i).unwrap())
    } else if exists|i: int| first_missing(defs, i) {
        let i = choose|i: int| first_missing(defs, i);
        Err(ProfileRegistryError::MissingProfile(all_profiles()[i]))
    } else {
        Ok(())
    }
}

/// Where the first repeated id is, if any.
fn first_repeat(rules: &Vec<ProfileRuleDefinition>) -> (r: Option<usize>)
    ensures
        match r {
            Some(j) => first_repeat_at(rule_ids(rules@), j as int),
            None => !has_repeat(rule_ids(rules@)),
        },
{
    let ghost ids = rule_ids(rules@);
    let mut j: usize = 0;
    while j < rules.len()
        invariant
            j <= rules.len(),
            ids == rule_ids(rules@),
            forall|k: int| 0 <= k < j ==> !repeats_earlier(ids, k),
        decreases rules.len() - j,
    {
        let cj = chars_of(rules[j].pattern_id);
        let mut k: usize = 0;
        while k < j
            invariant
                k <= j < rules.len(),
                ids == rule_ids(rules@),
                cj@ == ids[j as int],
                forall|m: int| 0 <= m < k ==> ids[m] != ids[j as int],
                forall|m: int| 0 <= m < j ==> !repeats_earlier(ids, m),
            decreases j - k,
        {
            if equals_str(cj.as_slice(), rules[k].pattern_id) {
                assert(ids.take(j as int)[k as int] == ids[j as int]);
                assert(repeats_earlier(ids, j as int));
                return Some(j);
            }
            k = k + 1;
        }
        assert(!ids.take(j as int).contains(ids[j as int])) by {
            if ids.take(j as int).contains(ids[j as int]) {
                let m = choose|m: int| 0 <= m < j && ids.take(j as int)[m] == ids[j as int];
                assert(ids[m] == ids[j as int]);
            }
        }
        j = j + 1;
    }
    None
}

proof fn lemma_first_repeat_unique(ids: Seq<Seq<char>>, a: int, b: int)
    requires
        first_repeat_at(ids, a),
        first_repeat_at(ids, b),
    ensures
        a == b,
{
    if a < b {
        assert(!repeats_earlier(ids, a));
    } else if b < a {
        assert(!repeats_earlier(ids, b));
    }
}

/// `definition_error(defs, i)`.
fn check_definition(defs: &Vec<ProfileDefinition>, i: usize) -> (r: Option<ProfileRegistryError>)
    requires
        i < defs.len(),
    ensures
        r == definition_error(defs@, i as int),
{
    let d = &defs[i];
    let mut k: usize = 0;
    while k < i
        invariant
            k <= i < defs.len(),
            d == defs@[i as int],
            forall|m: int| 0 <= m < k ==> defs@[m].profile != d.profile,
        decreases i - k,
    {
        if defs[k].profile == d.profile {
            assert(profiles_of(defs@).take(i as int)[k as int] == d.profile);
            return Some(ProfileRegistryError::DuplicateProfile(d.profile));
        }
        k = k + 1;
    }
    assert(!profiles_of(defs@).take(i as int).contains(d.profile)) by {
        if profiles_of(defs@).take(i as int).contains(d.profile) {
            let m = choose|m: int| 0 <= m < i && profiles_of(defs@).take(i as int)[m] == d.profile;
            assert(defs@[m].profile == d.profile);
        }
    }
    if d.rules.len() == 0 {
        return Some(ProfileRegistryError::EmptyProfile(d.profile));
    }
    match first_repeat(&d.rules) {
        Some(j) => {
            proof {
                let ids = rule_ids(d.rules@);
                let c = choose|c: int| first_repeat_at(ids, c);
                lemma_first_repeat_unique(ids, c, j as int);
            }
            Some(ProfileRegistryError::DuplicateRule { profile: d.profile, pattern_id: d.rules[j].pattern_id })
        },
        None => None,
    }
}

/// Whether some definition is for `p`.
fn defines(defs: &Vec<ProfileDefinition>, p: ProfileKind) -> (r: bool)
    ensures
        r == profiles_of(defs@).contains(p),
{
    let mut k: usize = 0;
    while k < defs.len()
        invariant
            k <= defs.len(),
            forall|m: int| 0 <= m < k ==> defs@[m].profile != p,
        decreases defs.len() - k,
    {
        if defs[k].profile == p {
            assert(profiles_of(defs@)[k as int] == p);
            return true;
        }
        k = k + 1;
    }
    assert(!profiles_of(defs@).contains(p)) by {
        if profiles_of(defs@).contains(p) {
            let m = choose|m: int| 0 <= m < defs@.len() && profiles_of(defs@)[m] == p;
            assert(defs@[m].profile == p);
        }
    }
    false
}

/// Some profile is missing once one is: the first in declaration order.
proof fn lemma_first_missing_exists(defs: Seq<ProfileDefinition>, i: int)
    requires
        0 <= i < all_profiles().len(),
        !profiles_of(defs).contains(all_profiles()[i]),
    ensures
        exists|c: int| first_missing(defs, c),
    decreases i,
{
    if forall|k: int| 0 <= k < i ==> profiles_of(defs).contains(all_profiles()[k]) {
        assert(first_missing(defs, i));
    } else {
        let k = choose|k: int| 0 <= k < i && !profiles_of(defs).contains(all_profiles()[k]);
        lemma_first_missing_exists(defs, k);
    }
}

/// `registry_check(defs)`.
fn check_registry(defs: &Vec<ProfileDefinition>) -> (r: Result<(), ProfileRegistryError>)
    ensures
        r == registry_check(defs@),
{
    let mut i: usize = 0;
    while i < defs.len()
        invariant
            i <= defs.len(),
            forall|k: int| 0 <= k < i ==> definition_error(defs@, k) is None,
        decreases defs.len() - i,
    {
        match check_definition(defs, i) {
            Some(e) => {
                proof {
                    assert(first_bad_definition(defs@, i as int));
                    let c = choose|c: int| first_bad_definition(defs@, c);
                    if c < i {
                    } else if i < c {
                        assert(definition_error(defs@, i as int) is None);
                    }
                }
                return Err(e);
            },
            None => {},
        }
        i = i + 1;
    }
    assert(!exists|c: int| first_bad_definition(defs@, c));
    let all = ProfileKind::all();
    let mut p: usize = 0;
    while p < all.len()
        invariant
            p <= all.len(),
            all@ == all_profiles(),
            !exists|c: int| first_bad_definition(defs@, c),
            forall|k: int| 0 <= k < p ==> profiles_of(defs@).contains(all_profiles()[k]),
        decreases all.len() - p,
    {
        if !defines(defs, all[p]) {
            proof {
                assert(first_missing(defs@, p as int));
                let c = choose|c: int| first_missing(defs@, c);
                if c < p {
                } else if p < c {
                    assert(profiles_of(defs@).contains(all_profiles()[p as int]));
                }
            }
            return Err(ProfileRegistryError::MissingProfile(all[p]));
        }
        p = p + 1;
    }
    assert(!exists|c: int| first_missing(defs@, c));
    Ok(())
}

/// A complete set of profile definitions: each profile once, each with
/// rules, no pattern twice in a profile.
#[derive(Debug, PartialEq, Eq)]
pub struct ProfileRegistry {
    definitions: Vec<ProfileDefinition>,
}

impl ProfileRegistry {
    #[verifier::type_invariant]
    spec fn complete(self) -> bool {
        registry_check(self.definitions@) is Ok
    }

    pub closed spec fn defs(self) -> Seq<ProfileDefinition> {
        self.definitions@
    }

    /// A registry of `definitions`, or the first reason they are not complete.
    pub fn try_complete(definitions: Vec<ProfileDefinition>) -> (r: Result<Self, ProfileRegistryError>)
        ensures
            match r {
                Ok(reg) => registry_check(definitions@) is Ok && reg.defs() == definitions@,
                Err(e) => registry_check(definitions@) matches Err(e2) && e2 == e,
            },
    {
        match check_registry(&definitions) {
            Ok(()) => Ok(ProfileRegistry { definitions }),
            Err(e) => Err(e),
        }
    }

    /// A registry of definitions already known to be complete.
    pub(crate) fn from_complete(definitions: Vec<ProfileDefinition>) -> (r: Self)
        requires
            registry_check(definitions@) is Ok,
        ensures
            r.defs() == definitions@,
    {
        ProfileRegistry { definitions }
    }

    pub fn definitions(&self) -> (r: &[ProfileDefinition])
        ensures
            r@ == self.defs(),
    {
        self.definitions.as_slice()
    }

    /// The definition for `profile`; a complete registry always has one.
    pub fn definition(&self, profile: ProfileKind) -> (r: Option<&ProfileDefinition>)
        ensures
            match r {
                Some(d) => d.profile == profile && self.defs().contains(*d),
                None => !profiles_of(self.defs()).contains(profile),
            },
            r is Some,
    {
        proof { use_type_invariant(self); }
        let mut k: usize = 0;
        while k < self.definitions.len()
            invariant
                k <= self.definitions.len(),
                forall|m: int| 0 <= m < k ==> self.definitions@[m].profile != profile,
            decreases self.definitions.len() - k,
        {
            if self.definitions[k].profile == profile {
                return Some(&self.definitions[k]);
            }
            k = k + 1;
        }
        proof {
            let defs = self.definitions@;
            let i = profile_rank(profile) as int;
            assert(all_profiles()[i] == profile);
            if !profiles_of(defs).contains(profile) {
                lemma_first_missing_exists(defs, i);
            } else {
                let m = choose|m: int| 0 <= m < defs.len() && profiles_of(defs)[m] == profile;
                assert(defs[m].profile == profile);
            }
        }
        None
    }

    /// Whether the registry is complete; a registry always is.
    pub fn validate_complete(&self) -> (r: Result<(), ProfileRegistryError>)
        ensures
            r == registry_check(self.defs()),
            r is Ok,
    {
        proof { use_type_invariant(self); }
        check_registry(&self.definitions)
    }
}

fn push_str(out: &mut Vec<char>, s: &str)
    ensures
        final(out)@ == old(out)@ + s@,
{
    let mut t = chars_of(s);
    out.append(&mut t);
}

impl ProfileRegistryError {
    /// The error as a sentence.
    pub fn message(&self) -> (r: String)
        ensures
            r@ == registry_error_message(*self),
    {
        let mut out: Vec<char> = Vec::new();
        match self {
            ProfileRegistryError::DuplicateProfile(p) => {
                push_str(&mut out, "duplicate profile '");
                push_str(&mut out, p.as_str());
                push_str(&mut out, "'");
            },
            ProfileRegistryError::EmptyProfile(p) => {
                push_str(&mut out, "profile '");
                push_str(&mut out, p.as_str());
                push_str(&mut out, "' has no rules");
            },
            ProfileRegistryError::DuplicateRule { profile, pattern_id } => {
                push_str(&mut out, "profile '");
                push_str(&mut out, profile.as_str());
                push_str(&mut out, "' has duplicate rule '");
                push_str(&mut out, pattern_id);
                push_str(&mut out, "'");
            },
            ProfileRegistryError::MissingProfile(p) => {
                push_str(&mut out, "profile '");
                push_str(&mut out, p.as_str());
                push_str(&mut out, "' is missing");
            },
        }
        string_of(out.as_slice())
    }
}

pub open spec fn registry_error_message(e: ProfileRegistryError) -> Seq<char> {
    match e {
        ProfileRegistryError::DuplicateProfile(p) => "duplicate profile '"@ + profile_name(p) + "'"@,
        ProfileRegistryError::EmptyProfile(p) => "profile '"@ + profile_name(p) + "' has no rules"@,
        ProfileRegistryError::DuplicateRule { profile, pattern_id } =>
            "profile '"@ + profile_name(profile) + "' has duplicate rule '"@ + pattern_id@ + "'"@,
        ProfileRegistryError::MissingProfile(p) => "profile '"@ + profile_name(p) + "' is missing"@,
    }
}

} // verus!
