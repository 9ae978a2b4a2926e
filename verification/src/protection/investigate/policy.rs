//! Which signals call for action, and what the lock file says on them.

use vstd::prelude::*;

use crate::config::Config;
use crate::path::{file_name, last_name};
use crate::protection::dependency::graph::{CargoPackageCoordinate, CargoReachabilitySnapshot};
use crate::protection::types::{
    ReviewView, SecurityCategory, SecurityConfidence, SecurityReviewDecision, SecuritySeverity,
};
use crate::text::number::{count_text, decimal};
use crate::text::order::lemma_push_contains;
use crate::text::pattern::{replace, replaced};
use crate::text::{
    ascii_lower, concat3, concat5, holds_text, join, joined, push_text, same_text, texts,
    to_ascii_lower, trim, trimmed,
};

verus! {

/// Whether a kind of weakness is never accepted.
pub open spec fn is_universal(category: SecurityCategory) -> bool {
    match category {
        SecurityCategory::PermanentServiceHalt => false,
        SecurityCategory::ResourceExhaustion => false,
        SecurityCategory::InformationDisclosure => false,
        SecurityCategory::Other => false,
        _ => true,
    }
}

/// Whether one of some kinds of weakness is never accepted.
pub open spec fn any_universal(categories: Seq<SecurityCategory>) -> bool {
    exists|i: int| 0 <= i < categories.len() && is_universal(#[trigger] categories[i])
}

/// Whether a judgement calls for action: the project is not known to be unaffected, and the weakness
/// is of a kind that is never accepted, or severe enough for the chosen profiles.
pub open spec fn calls_for_action(profiles: Seq<Seq<char>>, review: ReviewView) -> bool {
    review.affected != Some(false) && (any_universal(review.categories) || review.severity
        == SecuritySeverity::P0 || review.severity == SecuritySeverity::P1 || (profiles.contains(
        "strict"@,
    ) && review.severity == SecuritySeverity::P2))
}

fn category_is_universal(category: SecurityCategory) -> (r: bool)
    ensures
        r == is_universal(category),
{
    match category {
        SecurityCategory::PermanentServiceHalt => false,
        SecurityCategory::ResourceExhaustion => false,
        SecurityCategory::InformationDisclosure => false,
        SecurityCategory::Other => false,
        _ => true,
    }
}

fn has_universal(categories: &Vec<SecurityCategory>) -> (r: bool)
    ensures
        r == any_universal(categories@),
{
    let mut i: usize = 0;
    while i < categories.len()
        invariant
            i <= categories@.len(),
            forall|j: int| 0 <= j < i ==> !is_universal(#[trigger] categories@[j]),
        decreases categories@.len() - i,
    {
        if category_is_universal(categories[i]) {
            return true;
        }
        i = i + 1;
    }
    false
}

/// Whether a judgement calls for action.
pub fn requires_remediation(config: &Config, review: &SecurityReviewDecision) -> (r: bool)
    ensures
        r == calls_for_action(texts(config.protection.profiles@), review@),
{
    if review.affected == Some(false) {
        return false;
    }
    has_universal(&review.categories) || review.severity == SecuritySeverity::P0
        || review.severity == SecuritySeverity::P1 || (holds_text(
        &config.protection.profiles,
        "strict",
    ) && review.severity == SecuritySeverity::P2)
}

/// The name of a package, as names are compared.
pub open spec fn plain_name(name: Seq<char>) -> Seq<char> {
    replaced(ascii_lower(name), "_"@, "-"@)
}

fn to_plain_name(name: &str) -> (r: String)
    ensures
        r@ == plain_name(name@),
{
    proof {
        reveal_strlit("_");
    }
    let lower = to_ascii_lower(name);
    replace(lower.as_str(), "_", "-")
}

/// The versions of a package that the project reaches.
pub open spec fn versions_of(packages: Seq<CargoPackageCoordinate>, name: Seq<char>) -> Seq<Seq<char>>
    decreases packages.len(),
{
    if packages.len() == 0 {
        Seq::empty()
    } else {
        let before = versions_of(packages.drop_last(), name);
        if plain_name(packages.last().name@) == name {
            before.push(packages.last().version@)
        } else {
            before
        }
    }
}

fn find_versions(packages: &Vec<CargoPackageCoordinate>, name: &str) -> (r: Vec<String>)
    ensures
        texts(r@) == versions_of(packages@, name@),
{
    let mut versions: Vec<String> = Vec::new();
    assert(texts(versions@) =~= versions_of(packages@.take(0), name@));
    let mut i: usize = 0;
    while i < packages.len()
        invariant
            i <= packages@.len(),
            texts(versions@) == versions_of(packages@.take(i as int), name@),
        decreases packages@.len() - i,
    {
        assert(packages@.take(i + 1).drop_last() =~= packages@.take(i as int));
        let plain = to_plain_name(packages[i].name.as_str());
        if same_text(plain.as_str(), name) {
            push_text(&mut versions, packages[i].version.clone());
        }
        i = i + 1;
    }
    assert(packages@.take(i as int) =~= packages@);
    versions
}

/// What the lock file says on a package.
pub open spec fn package_line(
    packages: Seq<CargoPackageCoordinate>,
    claimed: Seq<char>,
) -> Seq<char> {
    let versions = versions_of(packages, plain_name(trimmed(claimed)));
    if versions.len() == 0 {
        "程序化依赖证据："@ + claimed + " 不在 Cargo.lock 根包依赖闭包中"@
    } else {
        "程序化依赖证据："@ + claimed + " 进入 Cargo.lock 根包依赖闭包，版本 "@ + joined(
            versions,
            ","@,
        ) + "；这不等同于生产运行时可达"@
    }
}

fn line_of_package(packages: &Vec<CargoPackageCoordinate>, claimed: &str) -> (r: String)
    ensures
        r@ == package_line(packages@, claimed@),
{
    let inner = trim(claimed);
    let name = to_plain_name(inner.as_str());
    let versions = find_versions(packages, name.as_str());
    if versions.len() == 0 {
        concat3("程序化依赖证据：", claimed, " 不在 Cargo.lock 根包依赖闭包中")
    } else {
        let list = join(&versions, ",");
        concat5(
            "程序化依赖证据：",
            claimed,
            " 进入 Cargo.lock 根包依赖闭包，版本 ",
            list.as_str(),
            "；这不等同于生产运行时可达",
        )
    }
}

/// What the lock file says on the packages that a judgement names.
pub open spec fn dependency_lines(
    claimed: Seq<Seq<char>>,
    snapshot: Option<CargoReachabilitySnapshot>,
) -> Seq<Seq<char>> {
    if claimed.len() == 0 {
        Seq::empty()
    } else {
        match snapshot {
            None => seq!["程序化依赖证据：项目没有可解析的 Cargo.lock 依赖图"@],
            Some(s) => claimed.map_values(
                |name: Seq<char>| package_line(s.reachable_packages@, name),
            ) + (if s.ambiguous_edges@.len() > 0 {
                seq![
                    "程序化依赖证据：存在 "@ + decimal(s.ambiguous_edges@.len())
                        + " 条无法唯一解析的锁文件边，按保守结果处理"@,
                ]
            } else {
                Seq::<Seq<char>>::empty()
            }),
        }
    }
}

/// What the lock file says on the packages that a judgement names.
pub fn dependency_evidence(
    affected_packages: &Vec<String>,
    snapshot: &Option<CargoReachabilitySnapshot>,
) -> (r: Vec<String>)
    ensures
        texts(r@) == dependency_lines(texts(affected_packages@), *snapshot),
{
    let mut lines: Vec<String> = Vec::new();
    if affected_packages.len() == 0 {
        assert(texts(lines@) =~= Seq::<Seq<char>>::empty());
        return lines;
    }
    match snapshot {
        None => {
            lines.push("程序化依赖证据：项目没有可解析的 Cargo.lock 依赖图".to_owned());
            assert(texts(lines@) =~= dependency_lines(texts(affected_packages@), *snapshot));
        },
        Some(s) => {
            lines = lines_of_packages(&s.reachable_packages, affected_packages);
            if s.ambiguous_edges.len() > 0 {
                let count = count_text(s.ambiguous_edges.len());
                push_text(
                    &mut lines,
                    concat3(
                        "程序化依赖证据：存在 ",
                        count.as_str(),
                        " 条无法唯一解析的锁文件边，按保守结果处理",
                    ),
                );
            }
            assert(texts(lines@) =~= dependency_lines(texts(affected_packages@), *snapshot));
        },
    }
    lines
}

fn lines_of_packages(packages: &Vec<CargoPackageCoordinate>, claimed: &Vec<String>) -> (r: Vec<
    String,
>)
    ensures
        texts(r@) == texts(claimed@).map_values(
            |name: Seq<char>| package_line(packages@, name),
        ),
{
    let mut lines: Vec<String> = Vec::new();
    let mut i: usize = 0;
    while i < claimed.len()
        invariant
            i <= claimed@.len(),
            lines@.len() == i,
            forall|j: int|
                0 <= j < i ==> (#[trigger] lines@[j])@ == package_line(packages@, claimed@[j]@),
        decreases claimed@.len() - i,
    {
        lines.push(line_of_package(packages, claimed[i].as_str()));
        i = i + 1;
    }
    assert(texts(lines@) =~= texts(claimed@).map_values(
        |name: Seq<char>| package_line(packages@, name),
    ));
    lines
}

/// The name of the project: that of the settings, or the name of its directory.
pub open spec fn project_name(config: Config) -> Seq<char> {
    let name = trimmed(config.protection.project_name@);
    if name.len() > 0 {
        name
    } else {
        match last_name(config.repo.path@) {
            Some(found) => found,
            None => "protected-project"@,
        }
    }
}

/// The name of the project.
pub fn configured_project_name(config: &Config) -> (r: String)
    ensures
        r@ == project_name(*config),
{
    let name = trim(config.protection.project_name.as_str());
    if !name.as_str().is_empty() {
        return name;
    }
    match file_name(config.repo.path.as_str()) {
        Some(found) => found,
        None => "protected-project".to_owned(),
    }
}

/// The name of a severity.
pub open spec fn severity_name(severity: SecuritySeverity) -> Seq<char> {
    match severity {
        SecuritySeverity::P0 => "p0"@,
        SecuritySeverity::P1 => "p1"@,
        SecuritySeverity::P2 => "p2"@,
        SecuritySeverity::P3 => "p3"@,
        SecuritySeverity::Informational => "informational"@,
    }
}

/// The name of a severity.
pub fn severity_text(severity: SecuritySeverity) -> (r: &'static str)
    ensures
        r@ == severity_name(severity),
{
    match severity {
        SecuritySeverity::P0 => "p0",
        SecuritySeverity::P1 => "p1",
        SecuritySeverity::P2 => "p2",
        SecuritySeverity::P3 => "p3",
        SecuritySeverity::Informational => "informational",
    }
}

/// The name of a confidence.
pub open spec fn confidence_name(confidence: SecurityConfidence) -> Seq<char> {
    match confidence {
        SecurityConfidence::High => "high"@,
        SecurityConfidence::Medium => "medium"@,
        SecurityConfidence::Low => "low"@,
    }
}

/// The name of a confidence.
pub fn confidence_text(confidence: SecurityConfidence) -> (r: &'static str)
    ensures
        r@ == confidence_name(confidence),
{
    match confidence {
        SecurityConfidence::High => "high",
        SecurityConfidence::Medium => "medium",
        SecurityConfidence::Low => "low",
    }
}

/// A project that is known to be unaffected never calls for action.
pub proof fn lemma_unaffected_calls_for_nothing(profiles: Seq<Seq<char>>, review: ReviewView)
    requires
        review.affected == Some(false),
    ensures
        !calls_for_action(profiles, review),
{
}

/// Whatever the profiles, a weakness of one of the two highest severities, or of a kind that is
/// never accepted, calls for action unless the project is known to be unaffected.
pub proof fn lemma_grave_calls_for_action(profiles: Seq<Seq<char>>, review: ReviewView)
    requires
        review.affected != Some(false),
        review.severity == SecuritySeverity::P0 || review.severity == SecuritySeverity::P1
            || any_universal(review.categories),
    ensures
        calls_for_action(profiles, review),
{
}

/// Whether a kind of weakness is one of those that are never accepted.
pub open spec fn is_never_accepted(category: SecurityCategory) -> bool {
    ||| category == SecurityCategory::RemoteCodeExecution
    ||| category == SecurityCategory::CommandInjection
    ||| category == SecurityCategory::CodeInjection
    ||| category == SecurityCategory::ServerSideRequestForgery
    ||| category == SecurityCategory::AuthenticationBypass
    ||| category == SecurityCategory::AuthorizationBypass
    ||| category == SecurityCategory::SignatureBypass
    ||| category == SecurityCategory::ProofVerificationBypass
    ||| category == SecurityCategory::ArbitraryFileRead
    ||| category == SecurityCategory::ArbitraryFileWrite
    ||| category == SecurityCategory::PathTraversal
    ||| category == SecurityCategory::UnsafeDeserialization
    ||| category == SecurityCategory::SecretOrKeyDisclosure
    ||| category == SecurityCategory::SupplyChainMalware
    ||| category == SecurityCategory::ConsensusSafety
    ||| category == SecurityCategory::UnauthorizedUpgrade
}

/// A weakness of a kind that is never accepted calls for action whatever its severity and the
/// profiles, unless the project is known to be unaffected.
pub proof fn lemma_never_accepted_calls_for_action(
    profiles: Seq<Seq<char>>,
    review: ReviewView,
    at: int,
)
    requires
        review.affected != Some(false),
        0 <= at < review.categories.len(),
        is_never_accepted(review.categories[at]),
    ensures
        calls_for_action(profiles, review),
{
    assert(is_universal(review.categories[at]));
}

/// A judgement calls for action only where the project is not known to be unaffected, and then only
/// for a kind of weakness that is never accepted, for one of the two highest severities, or, under
/// the strict profile, for the third.
pub proof fn lemma_action_has_a_reason(profiles: Seq<Seq<char>>, review: ReviewView)
    requires
        calls_for_action(profiles, review),
    ensures
        review.affected != Some(false),
        ({
            ||| review.severity == SecuritySeverity::P0
            ||| review.severity == SecuritySeverity::P1
            ||| review.severity == SecuritySeverity::P2 && profiles.contains("strict"@)
            ||| exists|i: int|
                0 <= i < review.categories.len() && is_never_accepted(
                    #[trigger] review.categories[i],
                )
        }),
{
    if any_universal(review.categories) {
        let i = choose|i: int|
            0 <= i < review.categories.len() && is_universal(#[trigger] review.categories[i]);
        assert(is_never_accepted(review.categories[i]));
    }
}

/// Under the strict profile a weakness of the third severity calls for action, unless the project is
/// known to be unaffected.
pub proof fn lemma_strict_calls_for_action(profiles: Seq<Seq<char>>, review: ReviewView)
    requires
        review.affected != Some(false),
        review.severity == SecuritySeverity::P2,
        profiles.contains("strict"@),
    ensures
        calls_for_action(profiles, review),
{
}

/// The versions under which a package is reached are those of the reached packages with its name,
/// and no others.
pub proof fn lemma_versions_are_those_reached(
    packages: Seq<CargoPackageCoordinate>,
    name: Seq<char>,
    version: Seq<char>,
)
    ensures
        versions_of(packages, name).contains(version) <==> exists|i: int|
            0 <= i < packages.len() && plain_name((#[trigger] packages[i]).name@) == name
                && packages[i].version@ == version,
    decreases packages.len(),
{
    if packages.len() > 0 {
        let before = packages.drop_last();
        let last = packages.last();
        lemma_versions_are_those_reached(before, name, version);
        lemma_push_contains(versions_of(before, name), last.version@);
        if versions_of(before, name).contains(version) {
            let i = choose|i: int|
                0 <= i < before.len() && plain_name((#[trigger] before[i]).name@) == name
                    && before[i].version@ == version;
            assert(packages[i] == before[i]);
        }
        if plain_name(last.name@) == name && last.version@ == version {
            assert(packages[packages.len() - 1] == last);
        }
        if exists|i: int|
            0 <= i < packages.len() && plain_name((#[trigger] packages[i]).name@) == name
                && packages[i].version@ == version {
            let i = choose|i: int|
                0 <= i < packages.len() && plain_name((#[trigger] packages[i]).name@) == name
                    && packages[i].version@ == version;
            if i < before.len() {
                assert(before[i] == packages[i]);
            }
        }
    }
}

/// Choosing one more profile takes no call for action back.
pub proof fn lemma_profiles_only_add(
    profiles: Seq<Seq<char>>,
    more: Seq<char>,
    review: ReviewView,
)
    requires
        calls_for_action(profiles, review),
    ensures
        calls_for_action(profiles.push(more), review),
{
    if profiles.contains("strict"@) {
        let i = choose|i: int| 0 <= i < profiles.len() && profiles[i] == "strict"@;
        assert(profiles.push(more)[i] == "strict"@);
    }
}

/// What the lock file says on a package that a judgement names: that it is not reached, where no
/// reached package has its name, and else each version under which one is.
pub proof fn lemma_package_line_tells_versions(
    packages: Seq<CargoPackageCoordinate>,
    claimed: Seq<char>,
)
    ensures
        ({
            let name = plain_name(trimmed(claimed));
            let reached = exists|i: int|
                0 <= i < packages.len() && plain_name((#[trigger] packages[i]).name@) == name;
            if reached {
                package_line(packages, claimed) == "程序化依赖证据："@ + claimed
                    + " 进入 Cargo.lock 根包依赖闭包，版本 "@ + joined(
                    versions_of(packages, name),
                    ","@,
                ) + "；这不等同于生产运行时可达"@
            } else {
                package_line(packages, claimed) == "程序化依赖证据："@ + claimed
                    + " 不在 Cargo.lock 根包依赖闭包中"@
            }
        }),
{
    let name = plain_name(trimmed(claimed));
    let versions = versions_of(packages, name);
    if versions.len() > 0 {
        lemma_versions_are_those_reached(packages, name, versions[0]);
        assert(versions.contains(versions[0]));
    }
    if exists|i: int| 0 <= i < packages.len() && plain_name((#[trigger] packages[i]).name@) == name {
        let i = choose|i: int|
            0 <= i < packages.len() && plain_name((#[trigger] packages[i]).name@) == name;
        lemma_versions_are_those_reached(packages, name, packages[i].version@);
    }
}

/// The project has the name in the settings, without white space around it; without one, that of
/// its directory; and without that, a name of last resort.
pub proof fn lemma_project_has_a_name(config: Config)
    ensures
        project_name(config).len() > 0 || last_name(config.repo.path@) is Some,
        trimmed(config.protection.project_name@).len() > 0 ==> project_name(config) == trimmed(
            config.protection.project_name@,
        ),
        trimmed(config.protection.project_name@).len() == 0 && last_name(config.repo.path@)
            is None ==> project_name(config) == "protected-project"@,
        trimmed(config.protection.project_name@).len() == 0 ==> (last_name(
            config.repo.path@,
        ) matches Some(name) ==> project_name(config) == name),
{
    reveal_strlit("protected-project");
}

/// Severities and confidences have names of their own.
pub proof fn lemma_names_of_judgements()
    ensures
        severity_name(SecuritySeverity::P0) == "p0"@,
        severity_name(SecuritySeverity::P1) == "p1"@,
        severity_name(SecuritySeverity::P2) == "p2"@,
        severity_name(SecuritySeverity::P3) == "p3"@,
        severity_name(SecuritySeverity::Informational) == "informational"@,
        confidence_name(SecurityConfidence::High) == "high"@,
        confidence_name(SecurityConfidence::Medium) == "medium"@,
        confidence_name(SecurityConfidence::Low) == "low"@,
{
}

} // verus!
