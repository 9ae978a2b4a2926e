//! Evidence for the model, as JSON.
//!
//! What comes from outside reaches the model only inside marks that say so.

use vstd::prelude::*;

use crate::data::{
    evidence_views, optional_view, texts_view, DataView, Evidence, EvidenceTable,
};
use crate::llm::types::{
    file_views, SecurityContractVerificationRequest, SignalFacts, SignalFileSelectionRequest,
    SignalInvestigationRequest,
};
use crate::protection::dependency::graph::{CargoPackageCoordinate, CargoReachabilitySnapshot};
use crate::protection::types::{ContractView, FixContract};
use crate::text::{text_option, texts};

verus! {

/// A package as a value.
pub open spec fn package_data(package: CargoPackageCoordinate) -> DataView {
    DataView::Table(
        Map::<Seq<char>, DataView>::empty().insert("name"@, DataView::Text(package.name@)).insert(
            "version"@,
            DataView::Text(package.version@),
        ).insert("source"@, DataView::Text(package.source@)),
    )
}

/// What a project reaches, as a value.
pub open spec fn reachability_data(snapshot: Option<CargoReachabilitySnapshot>) -> DataView {
    match snapshot {
        None => DataView::Null,
        Some(s) => DataView::Table(
            Map::<Seq<char>, DataView>::empty().insert("roots"@, texts_view(texts(s.roots@))).insert(
                "reachable_packages"@,
                DataView::List(
                    s.reachable_packages@.map_values(|p: CargoPackageCoordinate| package_data(p)),
                ),
            ).insert("ambiguous_edges"@, texts_view(texts(s.ambiguous_edges@))),
        ),
    }
}

fn package_evidence(package: &CargoPackageCoordinate) -> (r: Evidence)
    ensures
        r@ == package_data(*package),
{
    let mut table = EvidenceTable::new();
    table.set("name", Evidence::text(package.name.as_str()));
    table.set("version", Evidence::text(package.version.as_str()));
    table.set("source", Evidence::text(package.source.as_str()));
    table.build()
}

fn reachability_evidence(snapshot: &Option<CargoReachabilitySnapshot>) -> (r: Evidence)
    ensures
        r@ == reachability_data(*snapshot),
{
    match snapshot {
        None => Evidence::null(),
        Some(s) => {
            let packages = packages_evidence(&s.reachable_packages);
            let mut table = EvidenceTable::new();
            table.set("roots", Evidence::texts(&s.roots));
            table.set("reachable_packages", packages);
            table.set("ambiguous_edges", Evidence::texts(&s.ambiguous_edges));
            table.build()
        },
    }
}

fn packages_evidence(packages: &Vec<CargoPackageCoordinate>) -> (r: Evidence)
    ensures
        r@ == DataView::List(packages@.map_values(|p: CargoPackageCoordinate| package_data(p))),
{
    let mut items: Vec<Evidence> = Vec::new();
    let mut i: usize = 0;
    while i < packages.len()
        invariant
            i <= packages@.len(),
            items@.len() == i,
            forall|j: int| 0 <= j < i ==> (#[trigger] items@[j])@ == package_data(packages@[j]),
        decreases packages@.len() - i,
    {
        items.push(package_evidence(&packages[i]));
        i = i + 1;
    }
    assert(evidence_views(items@) =~= packages@.map_values(
        |p: CargoPackageCoordinate| package_data(p),
    ));
    Evidence::list(items)
}

/// A contract as a value.
pub open spec fn contract_data(contract: ContractView) -> DataView {
    DataView::Table(
        Map::<Seq<char>, DataView>::empty().insert(
            "security_property"@,
            DataView::Text(contract.security_property),
        ).insert("vulnerable_behavior"@, DataView::Text(contract.vulnerable_behavior)).insert(
            "fixed_behavior"@,
            DataView::Text(contract.fixed_behavior),
        ).insert("attack_preconditions"@, texts_view(contract.attack_preconditions)).insert(
            "regression_cases"@,
            texts_view(contract.regression_cases),
        ),
    )
}

fn contract_evidence(contract: &FixContract) -> (r: Evidence)
    ensures
        r@ == contract_data(contract@),
{
    let mut table = EvidenceTable::new();
    table.set("security_property", Evidence::text(contract.security_property.as_str()));
    table.set("vulnerable_behavior", Evidence::text(contract.vulnerable_behavior.as_str()));
    table.set("fixed_behavior", Evidence::text(contract.fixed_behavior.as_str()));
    table.set("attack_preconditions", Evidence::texts(&contract.attack_preconditions));
    table.set("regression_cases", Evidence::texts(&contract.regression_cases));
    table.build()
}

/// The evidence for the verification of a contract.
pub open spec fn verification_data(request: SecurityContractVerificationRequest) -> DataView {
    DataView::Table(
        Map::<Seq<char>, DataView>::empty().insert("project"@, DataView::Text(request.project@)).insert(
            "commit"@,
            DataView::Text(request.commit@),
        ).insert("fix_contract"@, contract_data(request.contract@)).insert(
            "final_candidate_patch"@,
            DataView::Text(request.final_patch@),
        ).insert("test_commands"@, texts_view(texts(request.test_commands@))).insert(
            "test_output"@,
            DataView::Text(request.test_output@),
        ),
    )
}

/// The evidence for the verification of a contract.
pub fn verification_evidence(request: &SecurityContractVerificationRequest) -> (r: Evidence)
    ensures
        r@ == verification_data(*request),
{
    let mut table = EvidenceTable::new();
    table.set("project", Evidence::text(request.project.as_str()));
    table.set("commit", Evidence::text(request.commit.as_str()));
    table.set("fix_contract", contract_evidence(&request.contract));
    table.set("final_candidate_patch", Evidence::text(request.final_patch.as_str()));
    table.set("test_commands", Evidence::texts(&request.test_commands));
    table.set("test_output", Evidence::text(request.test_output.as_str()));
    table.build()
}

/// The part of the evidence on a signal that both of its stages share.
pub open spec fn signal_data(facts: SignalFacts) -> Map<Seq<char>, DataView> {
    Map::<Seq<char>, DataView>::empty().insert("project"@, DataView::Text(facts.project)).insert(
        "project_description"@,
        DataView::Text(facts.project_description),
    ).insert("signal_summary"@, DataView::Text(facts.summary)).insert(
        "signal_reference"@,
        optional_view(facts.reference),
    ).insert("signal_content"@, DataView::Text(facts.content)).insert(
        "cargo_reachability"@,
        reachability_data(facts.reachability),
    )
}

fn signal_evidence(
    project: &str,
    project_description: &str,
    summary: &str,
    reference: &Option<String>,
    content: &str,
    reachability: &Option<CargoReachabilitySnapshot>,
) -> (r: EvidenceTable)
    ensures
        r@ == signal_data(
            SignalFacts {
                project: project@,
                project_description: project_description@,
                summary: summary@,
                reference: text_option(*reference),
                content: content@,
                reachability: *reachability,
            },
        ),
{
    let mut table = EvidenceTable::new();
    table.set("project", Evidence::text(project));
    table.set("project_description", Evidence::text(project_description));
    table.set("signal_summary", Evidence::text(summary));
    table.set("signal_reference", Evidence::optional(reference));
    table.set("signal_content", Evidence::text(content));
    table.set("cargo_reachability", reachability_evidence(reachability));
    table
}

/// The evidence from which files are chosen.
pub open spec fn selection_data(facts: SignalFacts, tracked_files: Seq<Seq<char>>) -> DataView {
    DataView::Table(signal_data(facts).insert("tracked_files"@, texts_view(tracked_files)))
}

/// The evidence from which files are chosen.
pub fn selection_evidence(request: &SignalFileSelectionRequest) -> (r: Evidence)
    ensures
        r@ == selection_data(request.facts(), texts(request.tracked_files@)),
{
    let mut table = signal_evidence(
        request.project.as_str(),
        request.project_description.as_str(),
        request.signal_summary.as_str(),
        &request.signal_reference,
        request.signal_content.as_str(),
        &request.cargo_reachability,
    );
    table.set("tracked_files", Evidence::texts(&request.tracked_files));
    table.build()
}

/// A file with its content, as a value.
pub open spec fn file_data(file: (Seq<char>, Seq<char>)) -> DataView {
    DataView::List(seq![DataView::Text(file.0), DataView::Text(file.1)])
}

/// Files with their contents, as a value.
pub open spec fn files_data(files: Seq<(Seq<char>, Seq<char>)>) -> DataView {
    DataView::List(files.map_values(|f: (Seq<char>, Seq<char>)| file_data(f)))
}

fn file_evidence(file: &(String, String)) -> (r: Evidence)
    ensures
        r@ == file_data((file.0@, file.1@)),
{
    let mut items: Vec<Evidence> = Vec::new();
    items.push(Evidence::text(file.0.as_str()));
    items.push(Evidence::text(file.1.as_str()));
    assert(evidence_views(items@) =~= seq![DataView::Text(file.0@), DataView::Text(file.1@)]);
    Evidence::list(items)
}

fn files_evidence(files: &Vec<(String, String)>) -> (r: Evidence)
    ensures
        r@ == files_data(file_views(files@)),
{
    let mut items: Vec<Evidence> = Vec::new();
    let mut i: usize = 0;
    while i < files.len()
        invariant
            i <= files@.len(),
            items@.len() == i,
            forall|j: int|
                0 <= j < i ==> (#[trigger] items@[j])@ == file_data((files@[j].0@, files@[j].1@)),
        decreases files@.len() - i,
    {
        items.push(file_evidence(&files[i]));
        i = i + 1;
    }
    assert(evidence_views(items@) =~= file_views(files@).map_values(
        |f: (Seq<char>, Seq<char>)| file_data(f),
    ));
    Evidence::list(items)
}

/// The evidence from which a signal is judged.
pub open spec fn investigation_data(
    facts: SignalFacts,
    files: Seq<(Seq<char>, Seq<char>)>,
) -> DataView {
    DataView::Table(signal_data(facts).insert("selected_files"@, files_data(files)))
}

/// The evidence from which a signal is judged.
pub fn investigation_evidence(request: &SignalInvestigationRequest) -> (r: Evidence)
    ensures
        r@ == investigation_data(request.facts(), file_views(request.file_evidence@)),
{
    let mut table = signal_evidence(
        request.project.as_str(),
        request.project_description.as_str(),
        request.signal_summary.as_str(),
        &request.signal_reference,
        request.signal_content.as_str(),
        &request.cargo_reachability,
    );
    table.set("selected_files", files_evidence(&request.file_evidence));
    table.build()
}

} // verus!
