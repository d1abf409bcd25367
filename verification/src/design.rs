//! Design packages: the requests and outcomes of the design commands, the
//! files a package manifest names, and the readiness report items.

use vstd::prelude::*;

verus! {

/// The manifest of a design package. `arc42` holds the arc42 sections as
/// (section, relative path) pairs in increasing order of section key, each
/// key once, as the manifest's map yields them.
#[derive(Clone, Debug, PartialEq, Eq)]
pub struct DesignManifest {
    pub id: String,
    pub title: String,
    pub format: String,
    pub version: i64,
    pub status: String,
    pub arc42: Vec<(String, String)>,
    pub requirements: Vec<String>,
    pub validation: Vec<String>,
    pub depends_on: Vec<String>,
}

/// A design file the manifest names, with the section it belongs to.
#[derive(Clone, Debug, PartialEq, Eq)]
pub struct ManifestDesignFile {
    pub section_key: String,
    pub relative_path: String,
}

pub open spec fn file_view(f: ManifestDesignFile) -> (Seq<char>, Seq<char>) {
    (f.section_key@, f.relative_path@)
}

pub open spec fn arc42_files(sections: Seq<(String, String)>) -> Seq<(Seq<char>, Seq<char>)> {
    sections.map_values(|e: (String, String)| ("arc42."@ + e.0@, e.1@))
}

pub open spec fn section_files(section: Seq<char>, paths: Seq<String>) -> Seq<(Seq<char>, Seq<char>)> {
    paths.map_values(|p: String| (section, p@))
}

/// The files of a manifest: its arc42 sections, then its requirement files,
/// then its validation files.
pub open spec fn spec_design_files(m: DesignManifest) -> Seq<(Seq<char>, Seq<char>)> {
    arc42_files(m.arc42@) + section_files("requirements"@, m.requirements@) + section_files(
        "validation"@,
        m.validation@,
    )
}

fn push_section_files(files: &mut Vec<ManifestDesignFile>, section: &str, paths: &Vec<String>)
    ensures
        final(files)@.map_values(|f: ManifestDesignFile| file_view(f)) == old(files)@.map_values(
            |f: ManifestDesignFile| file_view(f),
        ) + section_files(section@, paths@),
{
    let ghost start = files@.map_values(|f: ManifestDesignFile| file_view(f));
    let mut i: usize = 0;
    while i < paths.len()
        invariant
            i <= paths@.len(),
            files@.map_values(|f: ManifestDesignFile| file_view(f)) == start + section_files(
                section@,
                paths@.take(i as int),
            ),
        decreases paths@.len() - i,
    {
        let f = ManifestDesignFile {
            section_key: String::from_str(section),
            relative_path: paths[i].clone(),
        };
        assert(file_view(f) == (section@, paths@[i as int]@));
        let ghost before = files@;
        files.push(f);
        proof {
            assert(files@.map_values(|f: ManifestDesignFile| file_view(f)) =~= before.map_values(
                |f: ManifestDesignFile| file_view(f),
            ).push(file_view(f)));
            assert(section_files(section@, paths@.take(i as int + 1)) =~= section_files(
                section@,
                paths@.take(i as int),
            ).push((section@, paths@[i as int]@)));
            assert(files@.map_values(|f: ManifestDesignFile| file_view(f)) =~= start
                + section_files(section@, paths@.take(i as int + 1)));
        }
        i += 1;
    }
    assert(paths@.take(paths@.len() as int) =~= paths@);
}

impl DesignManifest {
    /// The files the manifest names, each with its section.
    pub fn design_files(&self) -> (files: Vec<ManifestDesignFile>)
        ensures
            files@.map_values(|f: ManifestDesignFile| file_view(f)) == spec_design_files(*self),
    {
        let mut files: Vec<ManifestDesignFile> = Vec::new();
        let mut i: usize = 0;
        while i < self.arc42.len()
            invariant
                i <= self.arc42@.len(),
                files@.map_values(|f: ManifestDesignFile| file_view(f)) == arc42_files(
                    self.arc42@.take(i as int),
                ),
            decreases self.arc42@.len() - i,
        {
            let key = String::from_str("arc42.").concat(self.arc42[i].0.as_str());
            files.push(
                ManifestDesignFile { section_key: key, relative_path: self.arc42[i].1.clone() },
            );
            proof {
                assert(arc42_files(self.arc42@.take(i as int + 1)) =~= arc42_files(
                    self.arc42@.take(i as int),
                ).push(("arc42."@ + self.arc42@[i as int].0@, self.arc42@[i as int].1@)));
                assert(files@.map_values(|f: ManifestDesignFile| file_view(f)) =~= arc42_files(
                    self.arc42@.take(i as int + 1),
                ));
            }
            i += 1;
        }
        assert(self.arc42@.take(self.arc42@.len() as int) =~= self.arc42@);
        push_section_files(&mut files, "requirements", &self.requirements);
        push_section_files(&mut files, "validation", &self.validation);
        files
    }
}

pub struct NewDesignPackage<'a> {
    pub design_id: &'a str,
    pub title: &'a str,
}

pub struct DesignPackageImport<'a> {
    pub package_path: &'a str,
    pub status: &'a str,
}

pub struct DesignVersionApproval<'a> {
    pub design_version_id: i64,
    pub summary: Option<&'a str>,
}

pub struct DesignReadyCheck {
    pub design_version_id: Option<i64>,
}

pub struct DesignRequirementListQuery {
    pub design_version_id: i64,
}

pub struct DesignDecisionListQuery {
    pub design_version_id: i64,
}

pub struct ValidationGateTemplateListQuery {
    pub design_version_id: i64,
}

pub struct NewDesignExceptionAcceptance<'a> {
    pub design_version_id: Option<i64>,
    pub design_package: Option<&'a str>,
    pub target: &'a str,
    pub acceptance_type: &'a str,
    pub reason: &'a str,
    pub approval_authority_event_id: i64,
}

pub struct NewGeneralAcceptance<'a> {
    pub target: &'a str,
    pub acceptance_type: &'a str,
    pub reason: &'a str,
    pub approval_authority_event_id: i64,
}

#[derive(Debug, PartialEq, Eq)]
pub struct DesignPackageInitOutcome {
    pub package_path: String,
}

#[derive(Debug, PartialEq, Eq)]
pub struct DesignPackageImportOutcome {
    pub design_package_id: i64,
    pub design_version_id: i64,
    pub version_number: i64,
    pub content_hash: String,
    pub file_count: usize,
    pub requirement_count: usize,
    pub decision_count: usize,
    pub validation_gate_template_count: usize,
    pub warning_count: usize,
}

#[derive(Debug, PartialEq, Eq)]
pub struct DesignVersionApprovalOutcome {
    pub design_package_id: i64,
    pub design_version_id: i64,
    pub authority_event_id: i64,
}

#[derive(Debug, PartialEq, Eq)]
pub struct DesignReadyOutcome {
    pub result: String,
    pub blocking_reason: Option<String>,
    pub design_package_id: Option<i64>,
    pub design_version_id: Option<i64>,
    pub items: Vec<DesignReadyItem>,
}

impl DesignReadyOutcome {
    /// A blocked readiness report for the requested version, with its reason.
    pub fn blocked(
        requested_design_version_id: Option<i64>,
        design_package_id: Option<i64>,
        reason: &str,
        items: Vec<DesignReadyItem>,
    ) -> (outcome: Self)
        ensures
            outcome.result@ == "blocked"@,
            outcome.blocking_reason is Some,
            outcome.blocking_reason->0@ == reason@,
            outcome.design_package_id == design_package_id,
            outcome.design_version_id == requested_design_version_id,
            outcome.items@ == items@,
    {
        DesignReadyOutcome {
            result: String::from_str("blocked"),
            blocking_reason: Some(String::from_str(reason)),
            design_package_id,
            design_version_id: requested_design_version_id,
            items,
        }
    }
}

#[derive(Debug, PartialEq, Eq)]
pub struct DesignReadyItem {
    pub name: String,
    pub result: String,
    pub detail: Option<String>,
}

impl DesignReadyItem {
    /// A passing readiness check.
    pub fn pass(name: &str, detail: Option<String>) -> (item: Self)
        ensures
            item.name@ == name@,
            item.result@ == "pass"@,
            item.detail == detail,
    {
        DesignReadyItem { name: String::from_str(name), result: String::from_str("pass"), detail }
    }

    /// A failing readiness check.
    pub fn fail(name: &str, detail: Option<String>) -> (item: Self)
        ensures
            item.name@ == name@,
            item.result@ == "fail"@,
            item.detail == detail,
    {
        DesignReadyItem { name: String::from_str(name), result: String::from_str("fail"), detail }
    }
}

#[derive(Debug, PartialEq, Eq)]
pub struct DesignRequirementRecord {
    pub id: i64,
    pub design_version_id: i64,
    pub source_design_file_id: i64,
    pub source_path: String,
    pub source_section: String,
    pub requirement_key: String,
    pub revision: i64,
    pub requirement_text: String,
    pub priority: String,
    pub required_surfaces: Option<String>,
    pub validation_expectation: Option<String>,
    pub status: String,
}

#[derive(Debug, PartialEq, Eq)]
pub struct DesignDecisionRecord {
    pub id: i64,
    pub design_version_id: i64,
    pub source_design_file_id: i64,
    pub source_path: String,
    pub source_section: String,
    pub decision_key: String,
    pub topic: String,
    pub decision_text: String,
    pub rationale: Option<String>,
    pub supersedes_decision_keys: Option<String>,
    pub status: String,
}

#[derive(Debug, PartialEq, Eq)]
pub struct ValidationGateTemplateRecord {
    pub id: i64,
    pub design_version_id: i64,
    pub source_design_file_id: i64,
    pub source_path: String,
    pub source_section: String,
    pub gate_key: String,
    pub stage: String,
    pub command: Option<String>,
    pub expected_result: String,
    pub requirement_keys: Option<String>,
    pub gate_text: String,
    pub status: String,
}

#[derive(Debug, PartialEq, Eq)]
pub struct DesignExceptionAcceptanceOutcome {
    pub acceptance_record_id: i64,
    pub authority_event_id: i64,
    pub target_type: String,
    pub design_requirement_id: Option<i64>,
    pub validation_gate_template_id: Option<i64>,
    pub coverage_item_id: Option<i64>,
    pub design_package_key: Option<String>,
    pub design_file_path: Option<String>,
    pub design_requirement_key: Option<String>,
}

#[derive(Debug, PartialEq, Eq)]
pub struct GeneralAcceptanceOutcome {
    pub acceptance_record_id: i64,
    pub authority_event_id: i64,
    pub target_type: String,
}

/// The record a general acceptance resolves its target to: the target type
/// and the one id (or stale record) that the target names.
#[derive(Clone, Debug, PartialEq, Eq)]
pub struct ResolvedGeneralAcceptanceTarget {
    pub target_type: &'static str,
    pub task_id: Option<i64>,
    pub finding_id: Option<i64>,
    pub validation_gate_id: Option<i64>,
    pub validation_run_id: Option<i64>,
    pub repository_state_classification_id: Option<i64>,
    pub repository_snapshot_comparison_id: Option<i64>,
    pub review_plan_id: Option<i64>,
    pub checklist_item_id: Option<i64>,
    pub command_profile_id: Option<i64>,
    pub command_usage_id: Option<i64>,
    pub command_deviation_id: Option<i64>,
    pub rule_binding_id: Option<i64>,
    pub stale_record_type: Option<String>,
    pub stale_record_id: Option<i64>,
}

impl ResolvedGeneralAcceptanceTarget {
    /// A target of the given type that names no record yet.
    pub fn new(target_type: &'static str) -> (t: Self)
        ensures
            t.target_type@ == target_type@,
            t.task_id is None,
            t.finding_id is None,
            t.validation_gate_id is None,
            t.validation_run_id is None,
            t.repository_state_classification_id is None,
            t.repository_snapshot_comparison_id is None,
            t.review_plan_id is None,
            t.checklist_item_id is None,
            t.command_profile_id is None,
            t.command_usage_id is None,
            t.command_deviation_id is None,
            t.rule_binding_id is None,
            t.stale_record_type is None,
            t.stale_record_id is None,
    {
        ResolvedGeneralAcceptanceTarget {
            target_type,
            task_id: None,
            finding_id: None,
            validation_gate_id: None,
            validation_run_id: None,
            repository_state_classification_id: None,
            repository_snapshot_comparison_id: None,
            review_plan_id: None,
            checklist_item_id: None,
            command_profile_id: None,
            command_usage_id: None,
            command_deviation_id: None,
            rule_binding_id: None,
            stale_record_type: None,
            stale_record_id: None,
        }
    }
}

} // verus!
