//! Project status and the next action: where the ledger lives, the checks of
//! project initialization, the status report, the next action an agent takes,
//! and the blocker that holds the current phase.

use vstd::prelude::*;

use crate::text::{decimal, i64_decimal, str_eq};

verus! {

/// The directory that holds the ledger and the private workspace.
pub open spec fn ledger_dir() -> Seq<char> {
    ".agent-workbench"@
}

pub open spec fn ledger_file() -> Seq<char> {
    "ledger.sqlite3"@
}

pub open spec fn design_dir() -> Seq<char> {
    "designs"@
}

pub open spec fn export_dir() -> Seq<char> {
    "exports"@
}

pub open spec fn log_dir() -> Seq<char> {
    "logs"@
}

/// `base` joined with the relative path `segment`, as `Path::join` joins
/// them: no separator after an empty base or one that already ends in `/`.
pub open spec fn join(base: Seq<char>, segment: Seq<char>) -> Seq<char> {
    if base.len() == 0 {
        segment
    } else if base.last() == '/' {
        base + segment
    } else {
        base + seq!['/'] + segment
    }
}

pub fn join_path(base: &str, segment: &str) -> (r: String)
    ensures
        r@ == join(base@, segment@),
{
    let n = base.unicode_len();
    if n == 0 {
        return String::from_str(segment);
    }
    if base.get_char(n - 1) == '/' {
        return String::from_str(base).concat(segment);
    }
    proof {
        reveal_strlit("/");
    }
    let r = String::from_str(base).concat("/").concat(segment);
    assert(r@ =~= base@ + seq!['/'] + segment@);
    r
}

fn workbench_dir(root: &str) -> (r: String)
    ensures
        r@ == join(root@, ledger_dir()),
{
    join_path(root, ".agent-workbench")
}

/// The ledger database of the project at `root`.
pub fn default_ledger_path(root: &str) -> (r: String)
    ensures
        r@ == join(join(root@, ledger_dir()), ledger_file()),
{
    join_path(workbench_dir(root).as_str(), "ledger.sqlite3")
}

/// The private design workspace of the project at `root`.
pub fn default_design_root(root: &str) -> (r: String)
    ensures
        r@ == join(join(root@, ledger_dir()), design_dir()),
{
    join_path(workbench_dir(root).as_str(), "designs")
}

/// Where the project at `root` writes exports.
pub fn default_export_root(root: &str) -> (r: String)
    ensures
        r@ == join(join(root@, ledger_dir()), export_dir()),
{
    join_path(workbench_dir(root).as_str(), "exports")
}

/// Where the project at `root` writes logs.
pub fn default_log_root(root: &str) -> (r: String)
    ensures
        r@ == join(join(root@, ledger_dir()), log_dir()),
{
    join_path(workbench_dir(root).as_str(), "logs")
}

/// Why a status, initialization or next-action request is refused.
#[derive(Clone, Debug, PartialEq, Eq)]
pub enum StatusIssue {
    EmptyProjectName,
    UpdateRequired,
    DifferentProjectName,
    IntegrityUnclassified { error: String },
    DuplicateWorkOwner,
    WorkNotFound { work_unit_id: i64 },
    SelectedOwnerMissing { work_unit_id: i64 },
}

pub open spec fn status_issue_text(i: StatusIssue) -> Seq<char> {
    match i {
        StatusIssue::EmptyProjectName => "project name must not be empty"@,
        StatusIssue::UpdateRequired => "existing project state requires an explicit update; run agent-workbench update inspect"@,
        StatusIssue::DifferentProjectName => "project is already initialized with a different name"@,
        StatusIssue::IntegrityUnclassified { error } => "project integrity evaluation failed without a global classification: "@
            + error@,
        StatusIssue::DuplicateWorkOwner => "owner resolution returned more than one result for the same work"@,
        StatusIssue::WorkNotFound { work_unit_id } => "work unit "@ + decimal(work_unit_id as int)
            + " not found in this project"@,
        StatusIssue::SelectedOwnerMissing { work_unit_id } => "resolver did not return the selected work owner "@
            + decimal(work_unit_id as int),
    }
}

impl StatusIssue {
    pub fn message(&self) -> (res: String)
        ensures
            res@ == status_issue_text(*self),
    {
        match self {
            StatusIssue::EmptyProjectName => String::from_str("project name must not be empty"),
            StatusIssue::UpdateRequired => String::from_str(
                "existing project state requires an explicit update; run agent-workbench update inspect",
            ),
            StatusIssue::DifferentProjectName => String::from_str(
                "project is already initialized with a different name",
            ),
            StatusIssue::IntegrityUnclassified { error } => String::from_str(
                "project integrity evaluation failed without a global classification: ",
            ).concat(error.as_str()),
            StatusIssue::DuplicateWorkOwner => String::from_str(
                "owner resolution returned more than one result for the same work",
            ),
            StatusIssue::WorkNotFound { work_unit_id } => String::from_str("work unit ").concat(
                i64_decimal(*work_unit_id).as_str(),
            ).concat(" not found in this project"),
            StatusIssue::SelectedOwnerMissing { work_unit_id } => String::from_str(
                "resolver did not return the selected work owner ",
            ).concat(i64_decimal(*work_unit_id).as_str()),
        }
    }
}

/// What initializing the project at `root` sets up: the ledger, and the
/// design, export and log directories.
#[derive(Clone, Debug, PartialEq, Eq)]
pub struct InitLayout {
    pub ledger_path: String,
    pub directories: Vec<String>,
}

/// The layout that initializing the project at `root` creates.
pub fn init_project(root: &str) -> (r: InitLayout)
    ensures
        r.ledger_path@ == join(join(root@, ledger_dir()), ledger_file()),
        r.directories@.len() == 3,
        r.directories@[0]@ == join(join(root@, ledger_dir()), design_dir()),
        r.directories@[1]@ == join(join(root@, ledger_dir()), export_dir()),
        r.directories@[2]@ == join(join(root@, ledger_dir()), log_dir()),
{
    let mut directories: Vec<String> = Vec::new();
    directories.push(default_design_root(root));
    directories.push(default_export_root(root));
    directories.push(default_log_root(root));
    InitLayout { ledger_path: default_ledger_path(root), directories }
}

/// The layout of initializing the project at `root` under a requested
/// name, which must not be blank.
pub fn init_project_with_name(root: &str, requested_name: Option<&str>) -> (res: Result<
    InitLayout,
    StatusIssue,
>)
    ensures
        requested_name is Some && crate::successor::all_white_space(requested_name->0@) ==> res
            == Err::<InitLayout, StatusIssue>(StatusIssue::EmptyProjectName),
        !(requested_name is Some && crate::successor::all_white_space(requested_name->0@)) ==> (
        res matches Ok(l) && l.ledger_path@ == join(join(root@, ledger_dir()), ledger_file())
            && l.directories@.len() == 3 && l.directories@[0]@ == join(
            join(root@, ledger_dir()),
            design_dir(),
        ) && l.directories@[1]@ == join(join(root@, ledger_dir()), export_dir())
            && l.directories@[2]@ == join(join(root@, ledger_dir()), log_dir())),
{
    match check_project_name(requested_name) {
        Err(e) => Err(e),
        Ok(()) => Ok(init_project(root)),
    }
}

/// Refuses a requested project name that is blank.
pub fn check_project_name(requested: Option<&str>) -> (res: Result<(), StatusIssue>)
    ensures
        res is Ok <==> !(requested is Some && crate::successor::all_white_space(requested->0@)),
        res is Err ==> res == Err::<(), StatusIssue>(StatusIssue::EmptyProjectName),
{
    match requested {
        None => Ok(()),
        Some(name) => {
            let chars = crate::text::chars_of(name);
            let mut i: usize = 0;
            while i < chars.len()
                invariant
                    i <= chars@.len(),
                    chars@ == name@,
                    requested is Some && requested->0@ == name@,
                    forall|k: int| 0 <= k < i ==> crate::text::is_white_space(#[trigger] name@[k]),
                decreases chars@.len() - i,
            {
                if !crate::text::white_space(chars[i]) {
                    assert(!crate::successor::all_white_space(name@)) by {
                        assert(!crate::text::is_white_space(name@[i as int]));
                    }
                    return Ok(());
                }
                i += 1;
            }
            Err(StatusIssue::EmptyProjectName)
        },
    }
}

/// Refuses initializing over an existing ledger that needs an update.
pub fn check_existing_ledger(existing: bool, requires_update: bool) -> (res: Result<(), StatusIssue>)
    ensures
        res is Ok <==> !(existing && requires_update),
        res is Err ==> res == Err::<(), StatusIssue>(StatusIssue::UpdateRequired),
{
    if existing && requires_update {
        return Err(StatusIssue::UpdateRequired);
    }
    Ok(())
}

/// Refuses renaming an existing project on initialization.
pub fn check_project_rename(existing: bool, current: &str, requested: &str) -> (res: Result<
    (),
    StatusIssue,
>)
    ensures
        res is Ok <==> !(existing && current@ != requested@),
        res is Err ==> res == Err::<(), StatusIssue>(StatusIssue::DifferentProjectName),
{
    if existing && !str_eq(current, requested) {
        return Err(StatusIssue::DifferentProjectName);
    }
    Ok(())
}

/// The owner of a next action, as the owner resolver reports it.
#[derive(Clone, Debug, PartialEq, Eq)]
pub struct OwnerAction {
    pub owner_type: String,
    pub owner_id: i64,
    pub blocker_kind: Option<String>,
    pub actions: Vec<String>,
}

/// No two work owners name the same work.
pub open spec fn work_owners_distinct(owners: Seq<OwnerAction>) -> bool {
    forall|i: int, j: int|
        0 <= i < j < owners.len() && (#[trigger] owners[i]).owner_type@ == "work_unit"@
            && (#[trigger] owners[j]).owner_type@ == "work_unit"@ ==> owners[i].owner_id
            != owners[j].owner_id
}

/// Refuses an owner resolution with two results for one work.
pub fn resolved_owner_actions(owners: Vec<OwnerAction>) -> (res: Result<Vec<OwnerAction>, StatusIssue>)
    ensures
        res is Ok <==> work_owners_distinct(owners@),
        res matches Ok(o) ==> o == owners,
        res is Err ==> res == Err::<Vec<OwnerAction>, StatusIssue>(StatusIssue::DuplicateWorkOwner),
{
    let mut i: usize = 0;
    while i < owners.len()
        invariant
            i <= owners@.len(),
            forall|a: int, b: int|
                0 <= a < b < i && (#[trigger] owners@[a]).owner_type@ == "work_unit"@ && (
                #[trigger] owners@[b]).owner_type@ == "work_unit"@ ==> owners@[a].owner_id
                    != owners@[b].owner_id,
        decreases owners@.len() - i,
    {
        if str_eq(owners[i].owner_type.as_str(), "work_unit") {
            let mut j: usize = 0;
            while j < i
                invariant
                    j <= i < owners@.len(),
                    owners@[i as int].owner_type@ == "work_unit"@,
                    forall|a: int|
                        0 <= a < j && (#[trigger] owners@[a]).owner_type@ == "work_unit"@
                            ==> owners@[a].owner_id != owners@[i as int].owner_id,
                decreases i - j,
            {
                if str_eq(owners[j].owner_type.as_str(), "work_unit") && owners[j].owner_id
                    == owners[i].owner_id {
                    return Err(StatusIssue::DuplicateWorkOwner);
                }
                j += 1;
            }
        }
        i += 1;
    }
    Ok(owners)
}

/// The integrity result the status reports.
#[derive(Clone, Debug, PartialEq, Eq)]
pub struct ProjectIntegrityStatus {
    pub result: String,
    pub predicates: Vec<String>,
}

/// A work unit an agent can continue, resume or activate, with the next
/// phase it would work on.
#[derive(Clone, Debug, PartialEq, Eq)]
pub struct ActiveWorkUnit {
    pub id: i64,
    pub title: String,
    pub design_version_id: Option<i64>,
    pub next_phase_id: Option<i64>,
    pub next_phase_key: Option<String>,
    pub next_phase_title: Option<String>,
}

/// The next action of the project.
#[derive(Clone, Debug, PartialEq, Eq)]
pub enum NextAction {
    NotInitialized { ledger_path: String },
    ProjectIntegrityBlocked { integrity: ProjectIntegrityStatus },
    SelectedWorkTerminal { work_unit_id: i64, status: String },
    OwnerActions { owners: Vec<OwnerAction> },
    ContinueActive { work_unit: ActiveWorkUnit },
    ResumeSuspended { work_unit: ActiveWorkUnit },
    ActivateOpen { work_unit: ActiveWorkUnit },
    NoOpenWorkUnit,
}

/// What evaluating the project's integrity gave.
pub enum IntegrityOutcome {
    /// The evaluation failed without a global classification.
    Unclassified { error: String },
    /// The project is blocked.
    Blocked { status: ProjectIntegrityStatus, schema_version: Option<i64> },
    /// The project can be worked on.
    Sound { status: ProjectIntegrityStatus },
}

/// What the ledger says for the next action: the resolved owners, the
/// status of the selected work (none when the project has no such work),
/// and the most recent active activation, the most recent suspended one of
/// an open work, and the first open work without either.
pub struct NextActionFacts {
    pub owners: Vec<OwnerAction>,
    pub selected_status: Option<String>,
    pub active: Option<ActiveWorkUnit>,
    pub suspended: Option<ActiveWorkUnit>,
    pub inactive: Option<ActiveWorkUnit>,
}

/// The index of the first work owner of `work_unit_id`, or -1.
pub open spec fn first_work_owner(owners: Seq<OwnerAction>, work_unit_id: i64) -> int
    decreases owners.len(),
{
    if owners.len() == 0 {
        -1
    } else if owners[0].owner_type@ == "work_unit"@ && owners[0].owner_id == work_unit_id {
        0
    } else {
        let rest = first_work_owner(owners.drop_first(), work_unit_id);
        if rest < 0 {
            -1
        } else {
            rest + 1
        }
    }
}

pub open spec fn any_blocked(owners: Seq<OwnerAction>) -> bool {
    exists|i: int| 0 <= i < owners.len() && (#[trigger] owners[i]).blocker_kind is Some
}

/// The next action: initialize a missing ledger; repair a blocked project;
/// for a selected work, report that it is closed or abandoned, or else
/// its owner's actions alone (`None` stands for that case, which the
/// `ensures` of `next_action_for` spells out); the owners' actions when
/// several owners (or a blocked one) need them; otherwise continue the
/// active work, resume the suspended one, activate an open one, or report
/// that no work is open.
pub open spec fn spec_next_action(
    ledger_path: String,
    ledger: Option<IntegrityOutcome>,
    facts: NextActionFacts,
    work_unit_id: Option<i64>,
) -> Option<Result<NextAction, StatusIssue>> {
    match ledger {
        None => Some(Ok(NextAction::NotInitialized { ledger_path })),
        Some(IntegrityOutcome::Unclassified { error }) => Some(
            Err(StatusIssue::IntegrityUnclassified { error }),
        ),
        Some(IntegrityOutcome::Blocked { status, .. }) => Some(
            Ok(NextAction::ProjectIntegrityBlocked { integrity: status }),
        ),
        Some(IntegrityOutcome::Sound { .. }) => if !work_owners_distinct(facts.owners@) {
            Some(Err(StatusIssue::DuplicateWorkOwner))
        } else {
            match work_unit_id {
                Some(w) => match facts.selected_status {
                    None => Some(Err(StatusIssue::WorkNotFound { work_unit_id: w })),
                    Some(status) => if status@ == "closed"@ || status@ == "abandoned"@ {
                        Some(Ok(NextAction::SelectedWorkTerminal { work_unit_id: w, status }))
                    } else if first_work_owner(facts.owners@, w) < 0 {
                        Some(Err(StatusIssue::SelectedOwnerMissing { work_unit_id: w }))
                    } else {
                        None
                    },
                },
                None => if facts.owners@.len() > 1 || any_blocked(facts.owners@) {
                    Some(Ok(NextAction::OwnerActions { owners: facts.owners }))
                } else {
                    Some(
                        match facts.active {
                            Some(a) => Ok(NextAction::ContinueActive { work_unit: a }),
                            None => match facts.suspended {
                                Some(s) => Ok(NextAction::ResumeSuspended { work_unit: s }),
                                None => match facts.inactive {
                                    Some(i) => Ok(NextAction::ActivateOpen { work_unit: i }),
                                    None => Ok(NextAction::NoOpenWorkUnit),
                                },
                            },
                        },
                    )
                },
            }
        },
    }
}

proof fn lemma_first_work_owner_found(owners: Seq<OwnerAction>, work_unit_id: i64)
    ensures
        first_work_owner(owners, work_unit_id) >= 0 ==> (first_work_owner(owners, work_unit_id)
            < owners.len() && owners[first_work_owner(owners, work_unit_id)].owner_type@
            == "work_unit"@ && owners[first_work_owner(owners, work_unit_id)].owner_id
            == work_unit_id),
    decreases owners.len(),
{
    if owners.len() > 0 {
        lemma_first_work_owner_found(owners.drop_first(), work_unit_id);
    }
}

fn find_work_owner(owners: &Vec<OwnerAction>, work_unit_id: i64) -> (r: Option<usize>)
    ensures
        match r {
            Some(i) => i as int == first_work_owner(owners@, work_unit_id) && i < owners@.len(),
            None => first_work_owner(owners@, work_unit_id) == -1,
        },
{
    let mut i: usize = 0;
    assert(owners@.skip(0) =~= owners@);
    while i < owners.len()
        invariant
            i <= owners@.len(),
            first_work_owner(owners@, work_unit_id) == (if first_work_owner(
                owners@.skip(i as int),
                work_unit_id,
            ) < 0 {
                -1
            } else {
                first_work_owner(owners@.skip(i as int), work_unit_id) + i
            }),
        decreases owners@.len() - i,
    {
        assert(owners@.skip(i as int)[0] == owners@[i as int]);
        assert(owners@.skip(i as int).drop_first() =~= owners@.skip(i as int + 1));
        if str_eq(owners[i].owner_type.as_str(), "work_unit") && owners[i].owner_id == work_unit_id {
            return Some(i);
        }
        i += 1;
    }
    assert(owners@.skip(i as int) =~= Seq::<OwnerAction>::empty());
    None
}

fn has_blocked(owners: &Vec<OwnerAction>) -> (r: bool)
    ensures
        r == any_blocked(owners@),
{
    let mut i: usize = 0;
    while i < owners.len()
        invariant
            i <= owners@.len(),
            forall|k: int| 0 <= k < i ==> (#[trigger] owners@[k]).blocker_kind is None,
        decreases owners@.len() - i,
    {
        if owners[i].blocker_kind.is_some() {
            return true;
        }
        i += 1;
    }
    false
}

/// Decides the next action of the project; `ledger` is none when the ledger
/// does not exist, else what its integrity evaluation gave.
pub fn next_action_for(
    ledger_path: String,
    ledger: Option<IntegrityOutcome>,
    facts: NextActionFacts,
    work_unit_id: Option<i64>,
) -> (res: Result<NextAction, StatusIssue>)
    ensures
        match spec_next_action(ledger_path, ledger, facts, work_unit_id) {
            Some(r) => res == r,
            None => res matches Ok(NextAction::OwnerActions { owners }) && owners@ == seq![
                facts.owners@[first_work_owner(facts.owners@, work_unit_id->0)],
            ],
        },
        match (ledger, work_unit_id, facts.selected_status) {
            (Some(IntegrityOutcome::Sound { .. }), Some(w), Some(status)) => (work_owners_distinct(
                facts.owners@,
            ) && (status@ == "closed"@ || status@ == "abandoned"@)) ==> res == Ok::<
                NextAction,
                StatusIssue,
            >(NextAction::SelectedWorkTerminal { work_unit_id: w, status }),
            _ => true,
        },
        ledger is None ==> res == Ok::<NextAction, StatusIssue>(
            NextAction::NotInitialized { ledger_path },
        ),
        match ledger {
            Some(IntegrityOutcome::Blocked { status, .. }) => res == Ok::<NextAction, StatusIssue>(
                NextAction::ProjectIntegrityBlocked { integrity: status },
            ),
            Some(IntegrityOutcome::Unclassified { error }) => res == Err::<NextAction, StatusIssue>(
                StatusIssue::IntegrityUnclassified { error },
            ),
            Some(IntegrityOutcome::Sound { .. }) => if !work_owners_distinct(facts.owners@) {
                res == Err::<NextAction, StatusIssue>(StatusIssue::DuplicateWorkOwner)
            } else if work_unit_id is Some {
                facts.selected_status is None ==> res == Err::<NextAction, StatusIssue>(
                    StatusIssue::WorkNotFound { work_unit_id: work_unit_id->0 },
                )
            } else if facts.owners@.len() > 1 || (exists|i: int|
                0 <= i < facts.owners@.len() && (#[trigger] facts.owners@[i]).blocker_kind is Some) {
                res == Ok::<NextAction, StatusIssue>(NextAction::OwnerActions { owners: facts.owners })
            } else {
                res == Ok::<NextAction, StatusIssue>(
                    if facts.active is Some {
                        NextAction::ContinueActive { work_unit: facts.active->0 }
                    } else if facts.suspended is Some {
                        NextAction::ResumeSuspended { work_unit: facts.suspended->0 }
                    } else if facts.inactive is Some {
                        NextAction::ActivateOpen { work_unit: facts.inactive->0 }
                    } else {
                        NextAction::NoOpenWorkUnit
                    },
                )
            },
            None => true,
        },
        match (work_unit_id, res) {
            (Some(w), Ok(NextAction::OwnerActions { owners })) => (facts.selected_status is Some
                && facts.selected_status->0@ != "closed"@ && facts.selected_status->0@
                != "abandoned"@ && owners@.len() == 1 && owners@[0].owner_type@ == "work_unit"@
                && owners@[0].owner_id == w),
            _ => true,
        },
{
    proof {
        if work_unit_id is Some {
            lemma_first_work_owner_found(facts.owners@, work_unit_id->0);
        }
    }
    let integrity = match ledger {
        None => return Ok(NextAction::NotInitialized { ledger_path }),
        Some(i) => i,
    };
    match integrity {
        IntegrityOutcome::Unclassified { error } => {
            return Err(StatusIssue::IntegrityUnclassified { error });
        },
        IntegrityOutcome::Blocked { status, .. } => {
            return Ok(NextAction::ProjectIntegrityBlocked { integrity: status });
        },
        IntegrityOutcome::Sound { .. } => {},
    }
    let NextActionFacts { owners, selected_status, active, suspended, inactive } = facts;
    let owners = match resolved_owner_actions(owners) {
        Ok(o) => o,
        Err(e) => return Err(e),
    };
    if let Some(w) = work_unit_id {
        let status = match selected_status {
            None => return Err(StatusIssue::WorkNotFound { work_unit_id: w }),
            Some(s) => s,
        };
        if str_eq(status.as_str(), "closed") || str_eq(status.as_str(), "abandoned") {
            return Ok(NextAction::SelectedWorkTerminal { work_unit_id: w, status });
        }
        let index = match find_work_owner(&owners, w) {
            None => return Err(StatusIssue::SelectedOwnerMissing { work_unit_id: w }),
            Some(i) => i,
        };
        let mut owners = owners;
        let owner = owners.remove(index);
        let mut selected: Vec<OwnerAction> = Vec::new();
        selected.push(owner);
        assert(selected@ =~= seq![facts.owners@[index as int]]);
        return Ok(NextAction::OwnerActions { owners: selected });
    }
    if owners.len() > 1 || has_blocked(&owners) {
        return Ok(NextAction::OwnerActions { owners });
    }
    match active {
        Some(a) => Ok(NextAction::ContinueActive { work_unit: a }),
        None => match suspended {
            Some(s) => Ok(NextAction::ResumeSuspended { work_unit: s }),
            None => match inactive {
                Some(i) => Ok(NextAction::ActivateOpen { work_unit: i }),
                None => Ok(NextAction::NoOpenWorkUnit),
            },
        },
    }
}

/// The next action of the project as a whole.
pub fn next_action(ledger_path: String, ledger: Option<IntegrityOutcome>, facts: NextActionFacts) -> (res:
    Result<NextAction, StatusIssue>)
    ensures
        spec_next_action(ledger_path, ledger, facts, None) == Some(res),
{
    next_action_for(ledger_path, ledger, facts, None)
}

/// What holds the current phase back.
#[derive(Clone, Debug, PartialEq, Eq)]
pub struct PhaseBlocker {
    pub kind: String,
    pub review_plan_id: Option<i64>,
    pub work_unit_id: Option<i64>,
    pub review_type: Option<String>,
    pub stage: Option<String>,
    pub review_run_id: Option<i64>,
    pub finding_id: Option<i64>,
    pub severity: Option<String>,
    pub classification: Option<String>,
    pub description: String,
    pub next_action: String,
}

pub type OptText = Option<Seq<char>>;

pub type BlockerView = (
    Seq<char>,
    Option<i64>,
    Option<i64>,
    OptText,
    OptText,
    Option<i64>,
    Option<i64>,
    OptText,
    OptText,
    Seq<char>,
    Seq<char>,
);

pub open spec fn ot(o: Option<String>) -> OptText {
    match o {
        Some(s) => Some(s@),
        None => None,
    }
}

pub open spec fn blocker_view(b: PhaseBlocker) -> BlockerView {
    (
        b.kind@,
        b.review_plan_id,
        b.work_unit_id,
        ot(b.review_type),
        ot(b.stage),
        b.review_run_id,
        b.finding_id,
        ot(b.severity),
        ot(b.classification),
        b.description@,
        b.next_action@,
    )
}

/// The stale design record selected for repair: its kind, id and work.
#[derive(Clone, Debug, PartialEq, Eq)]
pub struct StaleSelection {
    pub kind: String,
    pub record_id: i64,
    pub work_unit_id: i64,
}

/// The remediation of the first active finding binding: its finding,
/// closure and work, the work's status, the review plan's status, and how
/// many open blocking dependencies the work has.
#[derive(Clone, Debug, PartialEq, Eq)]
pub struct ActiveRemediation {
    pub finding_id: i64,
    pub closure_id: i64,
    pub work_unit_id: i64,
    pub work_status: String,
    pub plan_status: String,
    pub dependencies: i64,
}

/// What the ledger says about the current phase's blockers: the selected
/// stale record and the pending transition that repairs it, the first
/// blocking review finding (with its next action), the action that clears a
/// dormant remediation's work dependency (for the review finding's work and
/// for the active remediation's work), the active remediation, whether a
/// source correction is active, and the first blocked work with its title.
pub struct BlockerFacts {
    pub stale: Option<StaleSelection>,
    pub stale_transition: Option<(i64, i64)>,
    pub review_blocker: Option<PhaseBlocker>,
    pub review_dependency_action: Option<String>,
    pub active_remediation: Option<ActiveRemediation>,
    pub active_dependency_action: Option<String>,
    pub active_source_correction: bool,
    pub blocked_work: Option<(i64, String)>,
}

pub open spec fn remediate_action(finding_id: i64) -> Seq<char> {
    "agent-workbench work remediate --finding "@ + decimal(finding_id as int)
}

pub open spec fn unblock_action(work_unit_id: i64) -> Seq<char> {
    "agent-workbench work unblock "@ + decimal(work_unit_id as int) + " --reason \"<reason>\""@
}

pub open spec fn recover_owner_action(work_unit_id: i64, finding_id: i64) -> Seq<char> {
    let w = decimal(work_unit_id as int);
    let f = decimal(finding_id as int);
    "agent-workbench authority event add --type user_instruction --summary \"recover remediation owner "@
        + w + "\" --scope \"work-unit:"@ + w + "\"; then agent-workbench work reopen "@ + w
        + " --reason \"recover finding "@ + f
        + "\" --reason-type closure_invalid --authority <authority-event-id>; then agent-workbench work remediate --finding "@
        + f
}

pub open spec fn stale_action(stale: StaleSelection, transition: Option<(i64, i64)>) -> Seq<char> {
    match transition {
        Some((closure, token)) => "agent-workbench closure transition apply "@ + decimal(
            closure as int,
        ) + " --token "@ + decimal(token as int),
        None => "agent-workbench stale accept "@ + stale.kind@ + " "@ + decimal(
            stale.record_id as int,
        ) + " --reason \"<reason>\""@,
    }
}

pub open spec fn or_text(o: Option<String>, default: Seq<char>) -> Seq<char> {
    match o {
        Some(s) => s@,
        None => default,
    }
}

/// The review finding blocker, adjusted for a dormant remediation.
pub open spec fn adjusted_review_blocker(b: BlockerView, f: BlockerFacts) -> BlockerView {
    let b1 = if "agent-workbench work remediate"@.is_prefix_of(b.10) && b.2 is Some && b.6 is Some
        && f.review_dependency_action is Some {
        (
            "finding_remediation_recovery"@,
            b.1,
            b.2,
            b.3,
            b.4,
            b.5,
            b.6,
            b.7,
            b.8,
            "remediation owner is dormant behind an ordinary work dependency"@,
            f.review_dependency_action->0@,
        )
    } else {
        b
    };
    match f.active_remediation {
        Some(a) => if b1.6 == Some(a.finding_id) && (a.dependencies > 0 || a.work_status@ != "open"@) {
            (
                "finding_remediation_recovery"@,
                b1.1,
                b1.2,
                b1.3,
                b1.4,
                b1.5,
                b1.6,
                b1.7,
                b1.8,
                "active remediation for closure "@ + decimal(a.closure_id as int)
                    + " is dormant behind an owner guard"@,
                if a.work_status@ == "blocked"@ {
                    unblock_action(a.work_unit_id)
                } else if a.work_status@ != "open"@ {
                    recover_owner_action(a.work_unit_id, a.finding_id)
                } else {
                    or_text(f.active_dependency_action, remediate_action(a.finding_id))
                },
            )
        } else {
            b1
        },
        None => b1,
    }
}

/// The blocker of an active remediation that cannot proceed, if any.
pub open spec fn remediation_blocker(a: ActiveRemediation, f: BlockerFacts) -> Option<BlockerView> {
    let next = if a.plan_status@ == "exhausted"@ || a.plan_status@ == "needs_user_decision"@ {
        Some(
            "record authority and waive the exhausted review plan before continuing finding "@
                + decimal(a.finding_id as int),
        )
    } else if a.work_status@ == "blocked"@ {
        Some(unblock_action(a.work_unit_id) + "; then continue finding "@ + decimal(
            a.finding_id as int,
        ))
    } else if a.work_status@ != "open"@ {
        Some(recover_owner_action(a.work_unit_id, a.finding_id))
    } else if a.dependencies > 0 {
        Some(or_text(f.active_dependency_action, remediate_action(a.finding_id)))
    } else {
        None
    };
    match next {
        None => None,
        Some(n) => Some(
            (
                "finding_remediation_recovery"@,
                None,
                Some(a.work_unit_id),
                Some("implementation_review"@),
                Some("close-ready"@),
                None,
                Some(a.finding_id),
                Some("high"@),
                Some("valid"@),
                "active remediation for closure "@ + decimal(a.closure_id as int)
                    + " requires lifecycle recovery"@,
                n,
            ),
        ),
    }
}

/// What holds the current phase back, in order: a stale design record; the
/// first blocking review finding; an active remediation that cannot
/// proceed; nothing while a source correction is active; the first blocked
/// work.
pub open spec fn spec_phase_blocker(f: BlockerFacts) -> Option<BlockerView> {
    match f.stale {
        Some(s) => Some(
            (
                "stale_design"@,
                None,
                Some(s.work_unit_id),
                None,
                None,
                None,
                None,
                Some("critical"@),
                None,
                "stale design-derived state blocks implementation and scoped remediation"@,
                stale_action(s, f.stale_transition),
            ),
        ),
        None => match f.review_blocker {
            Some(b) => Some(adjusted_review_blocker(blocker_view(b), f)),
            None => match f.active_remediation {
                Some(a) => remediation_blocker(a, f),
                None => if f.active_source_correction {
                    None
                } else {
                    match f.blocked_work {
                        Some((w, title)) => Some(
                            (
                                "blocked_work_unit"@,
                                None,
                                Some(w),
                                None,
                                None,
                                None,
                                None,
                                None,
                                None,
                                "work unit "@ + decimal(w as int) + " is blocked: "@ + title@,
                                "resolve the blocker, then run "@ + unblock_action(w),
                            ),
                        ),
                        None => None,
                    }
                },
            },
        },
    }
}

fn dec(x: i64) -> (r: String)
    ensures
        r@ == decimal(x as int),
{
    i64_decimal(x)
}

fn remediate_text(finding_id: i64) -> (r: String)
    ensures
        r@ == remediate_action(finding_id),
{
    String::from_str("agent-workbench work remediate --finding ").concat(dec(finding_id).as_str())
}

fn unblock_text(work_unit_id: i64) -> (r: String)
    ensures
        r@ == unblock_action(work_unit_id),
{
    String::from_str("agent-workbench work unblock ").concat(dec(work_unit_id).as_str()).concat(
        " --reason \"<reason>\"",
    )
}

fn recover_owner_text(work_unit_id: i64, finding_id: i64) -> (r: String)
    ensures
        r@ == recover_owner_action(work_unit_id, finding_id),
{
    let w = dec(work_unit_id);
    let f = dec(finding_id);
    String::from_str(
        "agent-workbench authority event add --type user_instruction --summary \"recover remediation owner ",
    ).concat(w.as_str()).concat("\" --scope \"work-unit:").concat(w.as_str()).concat(
        "\"; then agent-workbench work reopen ",
    ).concat(w.as_str()).concat(" --reason \"recover finding ").concat(f.as_str()).concat(
        "\" --reason-type closure_invalid --authority <authority-event-id>; then agent-workbench work remediate --finding ",
    ).concat(f.as_str())
}

fn text_or(o: &Option<String>, default: String) -> (r: String)
    ensures
        r@ == or_text(*o, default@),
{
    match o {
        Some(s) => s.clone(),
        None => default,
    }
}

fn some_text(s: &str) -> (r: Option<String>)
    ensures
        ot(r) == Some(s@),
{
    Some(String::from_str(s))
}

/// Decides what holds the current phase back.
pub fn current_phase_blocker(f: BlockerFacts) -> (r: Option<PhaseBlocker>)
    ensures
        match r {
            Some(b) => spec_phase_blocker(f) == Some(blocker_view(b)),
            None => spec_phase_blocker(f) is None,
        },
        f.stale is Some ==> (r is Some && r->0.kind@ == "stale_design"@ && r->0.work_unit_id
            == Some(f.stale->0.work_unit_id)),
        f.stale is None && f.review_blocker is Some ==> r is Some,
        match f.active_remediation {
            Some(a) => (f.stale is None && f.review_blocker is None) ==> (if a.plan_status@
                == "exhausted"@ || a.plan_status@ == "needs_user_decision"@ {
                r is Some && r->0.next_action@
                    == "record authority and waive the exhausted review plan before continuing finding "@
                    + decimal(a.finding_id as int)
            } else if a.work_status@ == "blocked"@ {
                r is Some
            } else if a.work_status@ != "open"@ {
                r is Some && r->0.next_action@ == recover_owner_action(a.work_unit_id, a.finding_id)
            } else if a.dependencies > 0 {
                r is Some && r->0.next_action@ == or_text(
                    f.active_dependency_action,
                    "agent-workbench work remediate --finding "@ + decimal(a.finding_id as int),
                )
            } else {
                r is None
            }),
            None => (f.stale is None && f.review_blocker is None) ==> (if f.active_source_correction {
                r is None
            } else {
                match f.blocked_work {
                    Some((w, title)) => r is Some && r->0.kind@ == "blocked_work_unit"@
                        && r->0.work_unit_id == Some(w) && r->0.next_action@
                        == "resolve the blocker, then run "@ + ("agent-workbench work unblock "@
                        + decimal(w as int) + " --reason \"<reason>\""@),
                    None => r is None,
                }
            }),
        },
        match f.active_remediation {
            Some(a) => (f.stale is None && f.review_blocker is None && a.plan_status@
                != "exhausted"@ && a.plan_status@ != "needs_user_decision"@ && a.work_status@
                == "blocked"@) ==> (match r {
                Some(b) => b.next_action@ == "agent-workbench work unblock "@ + decimal(
                    a.work_unit_id as int,
                ) + " --reason \"<reason>\""@ + "; then continue finding "@ + decimal(
                    a.finding_id as int,
                ),
                None => false,
            }),
            None => true,
        },
{
    let BlockerFacts {
        stale,
        stale_transition,
        review_blocker,
        review_dependency_action,
        active_remediation,
        active_dependency_action,
        active_source_correction,
        blocked_work,
    } = f;
    if let Some(s) = stale {
        let next_action = match stale_transition {
            Some((closure, token)) => String::from_str("agent-workbench closure transition apply ").concat(
                dec(closure).as_str(),
            ).concat(" --token ").concat(dec(token).as_str()),
            None => String::from_str("agent-workbench stale accept ").concat(s.kind.as_str()).concat(
                " ",
            ).concat(dec(s.record_id).as_str()).concat(" --reason \"<reason>\""),
        };
        return Some(
            PhaseBlocker {
                kind: String::from_str("stale_design"),
                review_plan_id: None,
                work_unit_id: Some(s.work_unit_id),
                review_type: None,
                stage: None,
                review_run_id: None,
                finding_id: None,
                severity: some_text("critical"),
                classification: None,
                description: String::from_str(
                    "stale design-derived state blocks implementation and scoped remediation",
                ),
                next_action,
            },
        );
    }
    if let Some(b) = review_blocker {
        let mut b = b;
        let remediate_prefix = crate::projection::text_starts_with(
            b.next_action.as_str(),
            "agent-workbench work remediate",
        );
        if remediate_prefix && b.work_unit_id.is_some() && b.finding_id.is_some() {
            if let Some(action) = &review_dependency_action {
                b.kind = String::from_str("finding_remediation_recovery");
                b.description = String::from_str(
                    "remediation owner is dormant behind an ordinary work dependency",
                );
                b.next_action = action.clone();
            }
        }
        if let Some(a) = &active_remediation {
            if b.finding_id == Some(a.finding_id) && (a.dependencies > 0 || !str_eq(
                a.work_status.as_str(),
                "open",
            )) {
                b.kind = String::from_str("finding_remediation_recovery");
                b.description = String::from_str("active remediation for closure ").concat(
                    dec(a.closure_id).as_str(),
                ).concat(" is dormant behind an owner guard");
                b.next_action = if str_eq(a.work_status.as_str(), "blocked") {
                    unblock_text(a.work_unit_id)
                } else if !str_eq(a.work_status.as_str(), "open") {
                    recover_owner_text(a.work_unit_id, a.finding_id)
                } else {
                    text_or(&active_dependency_action, remediate_text(a.finding_id))
                };
            }
        }
        return Some(b);
    }
    if let Some(a) = active_remediation {
        let next = if str_eq(a.plan_status.as_str(), "exhausted") || str_eq(
            a.plan_status.as_str(),
            "needs_user_decision",
        ) {
            String::from_str(
                "record authority and waive the exhausted review plan before continuing finding ",
            ).concat(dec(a.finding_id).as_str())
        } else if str_eq(a.work_status.as_str(), "blocked") {
            unblock_text(a.work_unit_id).concat("; then continue finding ").concat(
                dec(a.finding_id).as_str(),
            )
        } else if !str_eq(a.work_status.as_str(), "open") {
            recover_owner_text(a.work_unit_id, a.finding_id)
        } else if a.dependencies > 0 {
            text_or(&active_dependency_action, remediate_text(a.finding_id))
        } else {
            return None;
        };
        return Some(
            PhaseBlocker {
                kind: String::from_str("finding_remediation_recovery"),
                review_plan_id: None,
                work_unit_id: Some(a.work_unit_id),
                review_type: some_text("implementation_review"),
                stage: some_text("close-ready"),
                review_run_id: None,
                finding_id: Some(a.finding_id),
                severity: some_text("high"),
                classification: some_text("valid"),
                description: String::from_str("active remediation for closure ").concat(
                    dec(a.closure_id).as_str(),
                ).concat(" requires lifecycle recovery"),
                next_action: next,
            },
        );
    }
    if active_source_correction {
        return None;
    }
    match blocked_work {
        Some((w, title)) => Some(
            PhaseBlocker {
                kind: String::from_str("blocked_work_unit"),
                review_plan_id: None,
                work_unit_id: Some(w),
                review_type: None,
                stage: None,
                review_run_id: None,
                finding_id: None,
                severity: None,
                classification: None,
                description: String::from_str("work unit ").concat(dec(w).as_str()).concat(
                    " is blocked: ",
                ).concat(title.as_str()),
                next_action: String::from_str("resolve the blocker, then run ").concat(
                    unblock_text(w).as_str(),
                ),
            },
        ),
        None => None,
    }
}

/// A registered fix of a valid finding that the active work carries out.
#[derive(Clone, Debug, PartialEq, Eq)]
pub struct FindingRemediation {
    pub review_plan_id: i64,
    pub work_unit_id: i64,
    pub finding_id: i64,
    pub closure_id: i64,
    pub description: String,
    pub affected_surfaces: String,
    pub fix_plan: String,
    pub design_invariant: Option<String>,
    pub tests_or_gates: Option<String>,
    pub verification_plan: Option<String>,
    pub next_action: String,
}

/// An active correction session of a valid finding.
#[derive(Clone, Debug, PartialEq, Eq)]
pub struct SourceCorrection {
    pub review_plan_id: i64,
    pub work_unit_id: i64,
    pub finding_id: i64,
    pub closure_id: i64,
    pub correction_session_id: i64,
    pub description: String,
    pub affected_surfaces: Option<String>,
    pub fix_plan: Option<String>,
    pub design_invariant: Option<String>,
    pub tests_or_gates: Option<String>,
    pub verification_plan: Option<String>,
    pub next_action: String,
}

pub open spec fn spec_remediation_action(closure_id: i64) -> Seq<char> {
    "implement the scoped fix, then agent-workbench closure ready "@ + decimal(closure_id as int)
        + " --evidence \"<evidence>\" --tests \"<tests>\""@
}

/// The next action of a finding remediation.
pub fn remediation_next_action(closure_id: i64) -> (r: String)
    ensures
        r@ == spec_remediation_action(closure_id),
{
    String::from_str("implement the scoped fix, then agent-workbench closure ready ").concat(
        dec(closure_id).as_str(),
    ).concat(" --evidence \"<evidence>\" --tests \"<tests>\"")
}

/// The operand a pending transition needs at run time.
pub open spec fn runtime_operand(operation: Seq<char>) -> Seq<char> {
    if operation == "task-accept-out-of-scope"@ || operation == "phase-dependency-accept"@ {
        " --authority <authority-event-id>"@
    } else if operation == "phase-dependency-satisfy"@ {
        " --evidence <evidence-ref>"@
    } else {
        ""@
    }
}

/// The next action of a source correction: apply its first pending
/// transition, or apply the file correction and report the closure ready.
pub open spec fn spec_correction_action(closure_id: i64, token: Option<i64>, operation: Option<Seq<char>>) -> Seq<
    char,
> {
    if token is Some && operation is Some {
        "agent-workbench closure transition apply "@ + decimal(closure_id as int) + " --token "@
            + decimal(token->0 as int) + runtime_operand(operation->0)
    } else {
        "apply only the typed file correction contract, then agent-workbench closure ready "@
            + decimal(closure_id as int) + " --evidence \"<evidence>\" --tests \"<tests>\""@
    }
}

pub fn correction_next_action(closure_id: i64, token: Option<i64>, operation: Option<&str>) -> (r:
    String)
    ensures
        r@ == spec_correction_action(
            closure_id,
            token,
            match operation {
                Some(o) => Some(o@),
                None => None,
            },
        ),
{
    match (token, operation) {
        (Some(t), Some(op)) => {
            let runtime = if str_eq(op, "task-accept-out-of-scope") || str_eq(
                op,
                "phase-dependency-accept",
            ) {
                " --authority <authority-event-id>"
            } else if str_eq(op, "phase-dependency-satisfy") {
                " --evidence <evidence-ref>"
            } else {
                ""
            };
            String::from_str("agent-workbench closure transition apply ").concat(
                dec(closure_id).as_str(),
            ).concat(" --token ").concat(dec(t).as_str()).concat(runtime)
        },
        _ => String::from_str(
            "apply only the typed file correction contract, then agent-workbench closure ready ",
        ).concat(dec(closure_id).as_str()).concat(" --evidence \"<evidence>\" --tests \"<tests>\""),
    }
}

/// The status of a project.
#[derive(Clone, Debug, PartialEq, Eq)]
pub struct ProjectStatus {
    pub initialized: bool,
    pub ledger_path: String,
    pub project_name: Option<String>,
    pub open_work_units: i64,
    pub active_activations: i64,
    pub schema_version: Option<i64>,
    pub project_integrity: ProjectIntegrityStatus,
    pub phase_blocker: Option<PhaseBlocker>,
    pub owner_actions: Vec<OwnerAction>,
    pub finding_remediations: Vec<FindingRemediation>,
    pub source_corrections: Vec<SourceCorrection>,
}

/// What the ledger says for the status report, counted for the selected
/// work when one is selected.
pub struct StatusFacts {
    pub project_name: Option<String>,
    pub selected_exists: bool,
    pub open_work_units: i64,
    pub active_activations: i64,
    pub schema_version: Option<i64>,
    pub finding_remediations: Vec<FindingRemediation>,
    pub source_corrections: Vec<SourceCorrection>,
    pub owners: Vec<OwnerAction>,
}

pub open spec fn remediations_of(s: Seq<FindingRemediation>, w: i64) -> Seq<FindingRemediation>
    decreases s.len(),
{
    if s.len() == 0 {
        s
    } else if s.last().work_unit_id == w {
        remediations_of(s.drop_last(), w).push(s.last())
    } else {
        remediations_of(s.drop_last(), w)
    }
}

pub open spec fn corrections_of(s: Seq<SourceCorrection>, w: i64) -> Seq<SourceCorrection>
    decreases s.len(),
{
    if s.len() == 0 {
        s
    } else if s.last().work_unit_id == w {
        corrections_of(s.drop_last(), w).push(s.last())
    } else {
        corrections_of(s.drop_last(), w)
    }
}

pub open spec fn owners_of(s: Seq<OwnerAction>, w: i64) -> Seq<OwnerAction>
    decreases s.len(),
{
    if s.len() == 0 {
        s
    } else if s.last().owner_type@ == "work_unit"@ && s.last().owner_id == w {
        owners_of(s.drop_last(), w).push(s.last())
    } else {
        owners_of(s.drop_last(), w)
    }
}

fn keep_remediations(s: Vec<FindingRemediation>, w: i64) -> (r: Vec<FindingRemediation>)
    ensures
        r@ == remediations_of(s@, w),
{
    let ghost src = s@;
    let n: usize = s.len();
    let mut out: Vec<FindingRemediation> = Vec::new();
    let mut rest = s;
    let mut i: usize = 0;
    while rest.len() > 0
        invariant
            i + rest@.len() == src.len(),
            src.len() == n,
            rest@ == src.subrange(i as int, src.len() as int),
            out@ == remediations_of(src.take(i as int), w),
        decreases rest@.len(),
    {
        let x = rest.remove(0);
        assert(x == src[i as int]);
        assert(src.take(i as int + 1).drop_last() =~= src.take(i as int));
        if x.work_unit_id == w {
            out.push(x);
        }
        assert(rest@ =~= src.subrange(i as int + 1, src.len() as int));
        i += 1;
    }
    assert(src.take(src.len() as int) =~= src);
    out
}

fn keep_corrections(s: Vec<SourceCorrection>, w: i64) -> (r: Vec<SourceCorrection>)
    ensures
        r@ == corrections_of(s@, w),
{
    let ghost src = s@;
    let n: usize = s.len();
    let mut out: Vec<SourceCorrection> = Vec::new();
    let mut rest = s;
    let mut i: usize = 0;
    while rest.len() > 0
        invariant
            i + rest@.len() == src.len(),
            src.len() == n,
            rest@ == src.subrange(i as int, src.len() as int),
            out@ == corrections_of(src.take(i as int), w),
        decreases rest@.len(),
    {
        let x = rest.remove(0);
        assert(x == src[i as int]);
        assert(src.take(i as int + 1).drop_last() =~= src.take(i as int));
        if x.work_unit_id == w {
            out.push(x);
        }
        assert(rest@ =~= src.subrange(i as int + 1, src.len() as int));
        i += 1;
    }
    assert(src.take(src.len() as int) =~= src);
    out
}

fn keep_owners(s: Vec<OwnerAction>, w: i64) -> (r: Vec<OwnerAction>)
    ensures
        r@ == owners_of(s@, w),
{
    let ghost src = s@;
    let n: usize = s.len();
    let mut out: Vec<OwnerAction> = Vec::new();
    let mut rest = s;
    let mut i: usize = 0;
    while rest.len() > 0
        invariant
            i + rest@.len() == src.len(),
            src.len() == n,
            rest@ == src.subrange(i as int, src.len() as int),
            out@ == owners_of(src.take(i as int), w),
        decreases rest@.len(),
    {
        let x = rest.remove(0);
        assert(x == src[i as int]);
        assert(src.take(i as int + 1).drop_last() =~= src.take(i as int));
        if str_eq(x.owner_type.as_str(), "work_unit") && x.owner_id == w {
            out.push(x);
        }
        assert(rest@ =~= src.subrange(i as int + 1, src.len() as int));
        i += 1;
    }
    assert(src.take(src.len() as int) =~= src);
    out
}

/// The status report: uninitialized without a ledger; refused when the
/// integrity evaluation fails unclassified; the integrity alone when the
/// project is blocked; otherwise the counts, remediations, corrections and
/// owners, narrowed to the selected work when one is selected (which must
/// exist).
pub open spec fn status_holds(
    ledger_path: String,
    ledger: Option<IntegrityOutcome>,
    facts: StatusFacts,
    work_unit_id: Option<i64>,
    res: Result<ProjectStatus, StatusIssue>,
) -> bool {
    match ledger {
        None => res matches Ok(st) && !st.initialized && st.ledger_path == ledger_path
            && st.project_name is None && st.open_work_units == 0 && st.active_activations == 0
            && st.schema_version is None && st.project_integrity.result@ == "not_initialized"@
            && st.project_integrity.predicates@.len() == 0 && st.phase_blocker is None
            && st.owner_actions@.len() == 0 && st.finding_remediations@.len() == 0
            && st.source_corrections@.len() == 0,
        Some(IntegrityOutcome::Unclassified { error }) => res == Err::<ProjectStatus, StatusIssue>(
            StatusIssue::IntegrityUnclassified { error },
        ),
        Some(IntegrityOutcome::Blocked { status, schema_version }) => res matches Ok(st)
            && st.initialized && st.ledger_path == ledger_path && st.project_name is None
            && st.open_work_units == 0 && st.active_activations == 0 && st.schema_version
            == schema_version && st.project_integrity == status && st.phase_blocker is None
            && st.owner_actions@.len() == 0 && st.finding_remediations@.len() == 0
            && st.source_corrections@.len() == 0,
        Some(IntegrityOutcome::Sound { status }) => if work_unit_id is Some && !facts.selected_exists {
            res == Err::<ProjectStatus, StatusIssue>(
                StatusIssue::WorkNotFound { work_unit_id: work_unit_id->0 },
            )
        } else if !work_owners_distinct(facts.owners@) {
            res == Err::<ProjectStatus, StatusIssue>(StatusIssue::DuplicateWorkOwner)
        } else {
            res matches Ok(st) && st.initialized && st.ledger_path == ledger_path
                && st.project_name == facts.project_name && st.open_work_units
                == facts.open_work_units && st.active_activations == facts.active_activations
                && st.schema_version == facts.schema_version && st.project_integrity == status
                && st.phase_blocker is None && match work_unit_id {
                Some(w) => st.owner_actions@ == owners_of(facts.owners@, w)
                    && st.finding_remediations@ == remediations_of(facts.finding_remediations@, w)
                    && st.source_corrections@ == corrections_of(facts.source_corrections@, w),
                None => st.owner_actions@ == facts.owners@ && st.finding_remediations@
                    == facts.finding_remediations@ && st.source_corrections@
                    == facts.source_corrections@,
            }
        },
    }
}

fn empty_integrity(result: &str) -> (r: ProjectIntegrityStatus)
    ensures
        r.result@ == result@,
        r.predicates@.len() == 0,
{
    ProjectIntegrityStatus { result: String::from_str(result), predicates: Vec::new() }
}

/// The status of the project, narrowed to a selected work when one is
/// given; `ledger` is none when the ledger does not exist.
pub fn project_status_for(
    ledger_path: String,
    ledger: Option<IntegrityOutcome>,
    facts: StatusFacts,
    work_unit_id: Option<i64>,
) -> (res: Result<ProjectStatus, StatusIssue>)
    ensures
        status_holds(ledger_path, ledger, facts, work_unit_id, res),
{
    let integrity = match ledger {
        None => {
            return Ok(
                ProjectStatus {
                    initialized: false,
                    ledger_path,
                    project_name: None,
                    open_work_units: 0,
                    active_activations: 0,
                    schema_version: None,
                    project_integrity: empty_integrity("not_initialized"),
                    phase_blocker: None,
                    owner_actions: Vec::new(),
                    finding_remediations: Vec::new(),
                    source_corrections: Vec::new(),
                },
            )
        },
        Some(i) => i,
    };
    let status = match integrity {
        IntegrityOutcome::Unclassified { error } => {
            return Err(StatusIssue::IntegrityUnclassified { error });
        },
        IntegrityOutcome::Blocked { status, schema_version } => {
            return Ok(
                ProjectStatus {
                    initialized: true,
                    ledger_path,
                    project_name: None,
                    open_work_units: 0,
                    active_activations: 0,
                    schema_version,
                    project_integrity: status,
                    phase_blocker: None,
                    owner_actions: Vec::new(),
                    finding_remediations: Vec::new(),
                    source_corrections: Vec::new(),
                },
            );
        },
        IntegrityOutcome::Sound { status } => status,
    };
    let StatusFacts {
        project_name,
        selected_exists,
        open_work_units,
        active_activations,
        schema_version,
        finding_remediations,
        source_corrections,
        owners,
    } = facts;
    if let Some(w) = work_unit_id {
        if !selected_exists {
            return Err(StatusIssue::WorkNotFound { work_unit_id: w });
        }
    }
    let owners = match resolved_owner_actions(owners) {
        Ok(o) => o,
        Err(e) => return Err(e),
    };
    let (owner_actions, finding_remediations, source_corrections) = match work_unit_id {
        Some(w) => (
            keep_owners(owners, w),
            keep_remediations(finding_remediations, w),
            keep_corrections(source_corrections, w),
        ),
        None => (owners, finding_remediations, source_corrections),
    };
    Ok(
        ProjectStatus {
            initialized: true,
            ledger_path,
            project_name,
            open_work_units,
            active_activations,
            schema_version,
            project_integrity: status,
            phase_blocker: None,
            owner_actions,
            finding_remediations,
            source_corrections,
        },
    )
}

/// The status of the whole project.
pub fn project_status(ledger_path: String, ledger: Option<IntegrityOutcome>, facts: StatusFacts) -> (res:
    Result<ProjectStatus, StatusIssue>)
    ensures
        status_holds(ledger_path, ledger, facts, None, res),
{
    project_status_for(ledger_path, ledger, facts, None)
}

} // verus!
