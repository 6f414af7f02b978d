//! The automated run: create, wait until running, list, stop, check, destroy, check, destroy.
use vstd::prelude::*;

use crate::e2e::label::build_spec;
use crate::error::SandboxError;
use crate::text::{decimal, decimal_text};
use crate::types::{
    Deadline, ImageRef, SandboxId, SandboxResources, SandboxSpec, SandboxState, SecretRef,
};

verus! {

broadcast use vstd::string::group_string_axioms;

/// The image that a sandbox runs when none is given.
pub const DEFAULT_IMAGE: &'static str = "registry.k8s.io/pause:3.9";

/// The megabytes of memory that a sandbox is given where nothing else is asked for.
pub const DEFAULT_MEMORY_MB: u32 = 64;

/// The thousandths of a processor that a sandbox is given where nothing else is asked for.
pub const DEFAULT_CPU_MILLIS: u32 = 100;

/// The seconds that a sandbox is given where nothing else is asked for.
pub const DEFAULT_DEADLINE_SECS: u64 = 300;

/// How often the status is asked for while the sandbox is not running yet.
pub const STATUS_POLL_ATTEMPTS: u32 = 30;

/// The seconds between two of these questions.
pub const STATUS_POLL_INTERVAL_SECS: u64 = 1;

/// The spec of the sandbox that a run creates.
pub fn run_spec(image: String) -> (r: SandboxSpec)
    ensures
        r.image == ImageRef::Tag(image),
        r.resources == (SandboxResources {
            memory_mb: 64,
            cpu_millis: 100,
            disk_mb: 0,
            max_pids: 0,
        }),
        r.env.vars@ == Map::<Seq<char>, String>::empty(),
        r.env.secrets@ == Map::<Seq<char>, SecretRef>::empty(),
        r.storage.workspace_mb == 0,
        r.storage.seed@.len() == 0,
        r.storage.state_volume is None,
        r.deadline == (Deadline { secs: 300, subsec_nanos: 0 }),
        r.labels@ == Map::<Seq<char>, String>::empty(),
{
    build_spec(image, DEFAULT_MEMORY_MB, DEFAULT_CPU_MILLIS, DEFAULT_DEADLINE_SECS, Vec::new())
}

/// Where a run stands.
#[derive(Debug, PartialEq, Eq)]
pub enum E2eRun {
    /// The sandbox is being created.
    Creating,
    /// The sandbox `id` exists, and `all_passed` tells whether every step so far behaved as
    /// expected.
    Living { id: SandboxId, stage: Stage, all_passed: bool },
    /// Nothing is left to do, and `passed` is the result.
    Finished { passed: bool },
}

/// What a run is at while its sandbox exists.
#[derive(Debug, Clone, Copy, PartialEq, Eq)]
pub enum Stage {
    /// Asking whether the sandbox runs, after `attempts` vain questions.
    Polling { attempts: u32 },
    /// Waiting after a vain question that `attempts` others went before.
    Waiting { attempts: u32 },
    Listing,
    Stopping,
    CheckingAfterStop,
    Destroying,
    CheckingAfterDestroy,
    DestroyingAgain,
}

/// What a run needs done next.
#[derive(Debug, Clone, Copy, PartialEq, Eq)]
pub enum Action {
    Create,
    Status,
    Wait,
    List,
    Stop,
    Destroy,
    Finish { passed: bool },
}

/// What came of an action.
#[derive(Debug)]
pub enum Answer {
    Created(Result<SandboxId, SandboxError>),
    Status(Result<SandboxState, SandboxError>),
    Waited,
    Listed(Result<Vec<SandboxId>, SandboxError>),
    Stopped(Result<(), SandboxError>),
    Destroyed(Result<(), SandboxError>),
}

/// The judgement on a step of the run.
#[derive(Debug, PartialEq, Eq)]
pub struct Report {
    pub name: String,
    pub ok: bool,
    pub detail: String,
}

/// What a report says.
pub struct ReportModel {
    pub name: Seq<char>,
    pub ok: bool,
    pub detail: Seq<char>,
}

/// What an optional report says.
pub open spec fn report_model(report: Option<Report>) -> Option<ReportModel> {
    match report {
        Some(report) => Some(
            ReportModel { name: report.name@, ok: report.ok, detail: report.detail@ },
        ),
        None => None,
    }
}

/// What a report with these parts says.
pub open spec fn said(name: Seq<char>, ok: bool, detail: Seq<char>) -> Option<ReportModel> {
    Some(ReportModel { name, ok, detail })
}

impl Report {
    fn new(name: &str, ok: bool, detail: &str) -> (r: Self)
        ensures
            report_model(Some(r)) == said(name@, ok, detail@),
    {
        Report { name: name.to_owned(), ok, detail: detail.to_owned() }
    }

    /// The report as a line: the verdict in brackets, the step and the detail.
    pub fn line(&self) -> (r: String)
        ensures
            r@ == "["@ + (if self.ok {
                "PASS"@
            } else {
                "FAIL"@
            }) + "] "@ + self.name@ + ": "@ + self.detail@,
    {
        let tag: &str = if self.ok {
            "PASS"
        } else {
            "FAIL"
        };
        String::from_str("[").concat(tag).concat("] ").concat(self.name.as_str()).concat(
            ": ",
        ).concat(self.detail.as_str())
    }
}

/// Whether `id` is among `ids`.
pub open spec fn lists(ids: Seq<SandboxId>, id: SandboxId) -> bool {
    exists|i: int| 0 <= i < ids.len() && (#[trigger] ids[i])@ == id@
}

/// Whether `id` is among `ids`.
fn contains_id(ids: &Vec<SandboxId>, id: &SandboxId) -> (r: bool)
    ensures
        r == lists(ids@, *id),
{
    for i in 0..ids.len()
        invariant
            forall|j: int| 0 <= j < i ==> (#[trigger] ids@[j])@ != id@,
    {
        if ids[i].same(id) {
            return true;
        }
    }
    false
}

impl E2eRun {
    /// What the run needs done next.
    pub open spec fn wants(self) -> Action {
        match self {
            E2eRun::Creating => Action::Create,
            E2eRun::Living { stage, .. } => match stage {
                Stage::Polling { .. } => Action::Status,
                Stage::Waiting { .. } => Action::Wait,
                Stage::Listing => Action::List,
                Stage::Stopping => Action::Stop,
                Stage::CheckingAfterStop => Action::Status,
                Stage::Destroying => Action::Destroy,
                Stage::CheckingAfterDestroy => Action::Status,
                Stage::DestroyingAgain => Action::Destroy,
            },
            E2eRun::Finished { passed } => Action::Finish { passed },
        }
    }

    /// Whether `answer` is one to the action that the run wants.
    pub open spec fn awaits(self, answer: Answer) -> bool {
        match self.wants() {
            Action::Create => answer is Created,
            Action::Status => answer is Status,
            Action::Wait => answer is Waited,
            Action::List => answer is Listed,
            Action::Stop => answer is Stopped,
            Action::Destroy => answer is Destroyed,
            Action::Finish { .. } => false,
        }
    }

    /// What the run reports on `answer`: nothing while it waits for the sandbox to run.
    pub open spec fn reports(self, answer: Answer) -> Option<ReportModel> {
        match (self, answer) {
            (E2eRun::Creating, Answer::Created(Ok(id))) => said("create"@, true, id@),
            (E2eRun::Creating, Answer::Created(Err(err))) => said("create"@, false, err.text()),
            (E2eRun::Living { id, stage, .. }, answer) => match (stage, answer) {
                (Stage::Polling { .. }, Answer::Status(Ok(SandboxState::Running))) => said(
                    "status (poll to Running)"@,
                    true,
                    "reached Running"@,
                ),
                (Stage::Polling { .. }, Answer::Status(Err(err))) => said(
                    "status (poll to Running)"@,
                    false,
                    err.text(),
                ),
                (Stage::Waiting { attempts }, Answer::Waited) => if attempts + 1
                    >= STATUS_POLL_ATTEMPTS {
                    said("status (poll to Running)"@, false, "timed out before Running"@)
                } else {
                    None
                },
                (Stage::Listing, Answer::Listed(Ok(ids))) => if lists(ids@, id) {
                    said("list (contains created id)"@, true, decimal(ids@.len()))
                } else {
                    said(
                        "list (contains created id)"@,
                        false,
                        decimal(ids@.len()) + " ids, missing "@ + id@,
                    )
                },
                (Stage::Listing, Answer::Listed(Err(err))) => said("list"@, false, err.text()),
                (Stage::Stopping, Answer::Stopped(Err(_))) => said(
                    "stop (expected unsupported)"@,
                    true,
                    "returned error as expected"@,
                ),
                (Stage::Stopping, Answer::Stopped(Ok(_))) => said(
                    "stop (expected unsupported)"@,
                    false,
                    "unexpectedly succeeded"@,
                ),
                (Stage::CheckingAfterStop, Answer::Status(Ok(state))) => said(
                    "status (unaffected by stop)"@,
                    true,
                    state.name(),
                ),
                (Stage::CheckingAfterStop, Answer::Status(Err(err))) => said(
                    "status (unaffected by stop)"@,
                    false,
                    err.text(),
                ),
                (Stage::Destroying, Answer::Destroyed(Ok(_))) => said("destroy"@, true, "ok"@),
                (Stage::Destroying, Answer::Destroyed(Err(err))) => said(
                    "destroy"@,
                    false,
                    err.text(),
                ),
                (Stage::CheckingAfterDestroy, Answer::Status(Err(SandboxError::NotFound(_)))) =>
                    said("status (NotFound after destroy)"@, true, "not found as expected"@),
                (Stage::CheckingAfterDestroy, Answer::Status(Ok(state))) => said(
                    "status (NotFound after destroy)"@,
                    false,
                    "still "@ + state.name(),
                ),
                (Stage::CheckingAfterDestroy, Answer::Status(Err(err))) => said(
                    "status (NotFound after destroy)"@,
                    false,
                    err.text(),
                ),
                (Stage::DestroyingAgain, Answer::Destroyed(Ok(_))) => said(
                    "destroy (idempotent)"@,
                    true,
                    "ok"@,
                ),
                (Stage::DestroyingAgain, Answer::Destroyed(Err(err))) => said(
                    "destroy (idempotent)"@,
                    false,
                    err.text(),
                ),
                _ => None,
            },
            _ => None,
        }
    }

    /// Where the run stands after `answer`.
    pub open spec fn after(self, answer: Answer) -> E2eRun {
        let fine = match self.reports(answer) {
            Some(report) => report.ok,
            None => true,
        };
        match self {
            E2eRun::Creating => match answer {
                Answer::Created(Ok(id)) => E2eRun::Living {
                    id,
                    stage: Stage::Polling { attempts: 0 },
                    all_passed: true,
                },
                _ => E2eRun::Finished { passed: false },
            },
            E2eRun::Living { id, stage, all_passed } => {
                let passed = all_passed && fine;
                match stage {
                    Stage::DestroyingAgain => E2eRun::Finished { passed },
                    _ => E2eRun::Living { id, stage: next_stage(stage, answer), all_passed: passed },
                }
            },
            finished => finished,
        }
    }
}

/// The stage that comes after `stage` when its action was answered by `answer`: the stages come
/// one after the other, but for the status, which is asked for until the sandbox runs, the
/// question fails, or it was asked often enough.
pub open spec fn next_stage(stage: Stage, answer: Answer) -> Stage {
    match stage {
        Stage::Polling { attempts } => match answer {
            Answer::Status(Ok(SandboxState::Running)) => Stage::Listing,
            Answer::Status(Ok(_)) => Stage::Waiting { attempts },
            _ => Stage::Listing,
        },
        Stage::Waiting { attempts } => if attempts + 1 >= STATUS_POLL_ATTEMPTS {
            Stage::Listing
        } else {
            Stage::Polling { attempts: (attempts + 1) as u32 }
        },
        Stage::Listing => Stage::Stopping,
        Stage::Stopping => Stage::CheckingAfterStop,
        Stage::CheckingAfterStop => Stage::Destroying,
        Stage::Destroying => Stage::CheckingAfterDestroy,
        Stage::CheckingAfterDestroy => Stage::DestroyingAgain,
        Stage::DestroyingAgain => Stage::DestroyingAgain,
    }
}

impl E2eRun {
    /// A run at its start.
    pub fn start() -> (r: Self)
        ensures
            r == E2eRun::Creating,
    {
        E2eRun::Creating
    }

    /// What the run needs done next.
    pub fn action(&self) -> (r: Action)
        ensures
            r == self.wants(),
    {
        match self {
            E2eRun::Creating => Action::Create,
            E2eRun::Living { stage, .. } => match stage {
                Stage::Polling { .. } => Action::Status,
                Stage::Waiting { .. } => Action::Wait,
                Stage::Listing => Action::List,
                Stage::Stopping => Action::Stop,
                Stage::CheckingAfterStop => Action::Status,
                Stage::Destroying => Action::Destroy,
                Stage::CheckingAfterDestroy => Action::Status,
                Stage::DestroyingAgain => Action::Destroy,
            },
            E2eRun::Finished { passed } => Action::Finish { passed: *passed },
        }
    }

    /// The sandbox of the run, while it has one.
    pub fn id(&self) -> (r: Option<&SandboxId>)
        ensures
            match *self {
                E2eRun::Living { id, .. } => r == Some(&id),
                _ => r is None,
            },
    {
        match self {
            E2eRun::Living { id, .. } => Some(id),
            _ => None,
        }
    }

    /// Whether `answer` is one to the action that the run wants.
    pub fn accepts(&self, answer: &Answer) -> (r: bool)
        ensures
            r == self.awaits(*answer),
    {
        match (self.action(), answer) {
            (Action::Create, Answer::Created(_)) => true,
            (Action::Status, Answer::Status(_)) => true,
            (Action::Wait, Answer::Waited) => true,
            (Action::List, Answer::Listed(_)) => true,
            (Action::Stop, Answer::Stopped(_)) => true,
            (Action::Destroy, Answer::Destroyed(_)) => true,
            _ => false,
        }
    }

    /// Takes the answer to the action that the run wanted: where the run stands then, and what
    /// it reports.
    pub fn step(self, answer: Answer) -> (r: (E2eRun, Option<Report>))
        requires
            self.awaits(answer),
        ensures
            r.0 == self.after(answer),
            report_model(r.1) == self.reports(answer),
    {
        match self {
            E2eRun::Creating => match answer {
                Answer::Created(Ok(id)) => {
                    let report = Report::new("create", true, id.as_str());
                    let stage = Stage::Polling { attempts: 0 };
                    (E2eRun::Living { id, stage, all_passed: true }, Some(report))
                },
                Answer::Created(Err(err)) => {
                    let report = Report::new("create", false, err.to_string().as_str());
                    (E2eRun::Finished { passed: false }, Some(report))
                },
                _ => (E2eRun::Finished { passed: false }, None),
            },
            E2eRun::Living { id, stage, all_passed } => {
                let (stage, report) = live(&id, stage, answer);
                let passed: bool = match &report {
                    Some(report) => all_passed && report.ok,
                    None => all_passed,
                };
                match stage {
                    Some(stage) => (E2eRun::Living { id, stage, all_passed: passed }, report),
                    None => (E2eRun::Finished { passed }, report),
                }
            },
            E2eRun::Finished { passed } => (E2eRun::Finished { passed }, None),
        }
    }
}

/// The stage after `stage`, none after the last one, and the report on `answer`.
fn live(id: &SandboxId, stage: Stage, answer: Answer) -> (r: (Option<Stage>, Option<Report>))
    requires
        (E2eRun::Living { id: *id, stage, all_passed: true }).awaits(answer),
    ensures
        r.0 == (if stage == Stage::DestroyingAgain {
            None
        } else {
            Some(next_stage(stage, answer))
        }),
        report_model(r.1) == (E2eRun::Living { id: *id, stage, all_passed: true }).reports(answer),
{
    match (stage, answer) {
        (Stage::Polling { attempts }, Answer::Status(Ok(state))) => match state {
            SandboxState::Running => {
                let report = Report::new("status (poll to Running)", true, "reached Running");
                (Some(Stage::Listing), Some(report))
            },
            _ => (Some(Stage::Waiting { attempts }), None),
        },
        (Stage::Polling { .. }, Answer::Status(Err(err))) => {
            let detail: String = err.to_string();
            let report = Report::new("status (poll to Running)", false, detail.as_str());
            (Some(Stage::Listing), Some(report))
        },
        (Stage::Waiting { attempts }, _) => if attempts >= STATUS_POLL_ATTEMPTS - 1 {
            let report = Report::new("status (poll to Running)", false, "timed out before Running");
            (Some(Stage::Listing), Some(report))
        } else {
            (Some(Stage::Polling { attempts: attempts + 1 }), None)
        },
        (Stage::Listing, Answer::Listed(Ok(ids))) => {
            let count: String = decimal_text(ids.len() as u64);
            let report = if contains_id(&ids, id) {
                Report::new("list (contains created id)", true, count.as_str())
            } else {
                let detail: String = count.concat(" ids, missing ").concat(id.as_str());
                Report::new("list (contains created id)", false, detail.as_str())
            };
            (Some(Stage::Stopping), Some(report))
        },
        (Stage::Listing, Answer::Listed(Err(err))) => {
            let report = Report::new("list", false, err.to_string().as_str());
            (Some(Stage::Stopping), Some(report))
        },
        (Stage::Stopping, Answer::Stopped(Err(_))) => {
            let report = Report::new(
                "stop (expected unsupported)",
                true,
                "returned error as expected",
            );
            (Some(Stage::CheckingAfterStop), Some(report))
        },
        (Stage::Stopping, Answer::Stopped(Ok(_))) => {
            let report = Report::new("stop (expected unsupported)", false, "unexpectedly succeeded");
            (Some(Stage::CheckingAfterStop), Some(report))
        },
        (Stage::CheckingAfterStop, Answer::Status(Ok(state))) => {
            let report = Report::new("status (unaffected by stop)", true, state.debug_name());
            (Some(Stage::Destroying), Some(report))
        },
        (Stage::CheckingAfterStop, Answer::Status(Err(err))) => {
            let detail: String = err.to_string();
            let report = Report::new("status (unaffected by stop)", false, detail.as_str());
            (Some(Stage::Destroying), Some(report))
        },
        (Stage::Destroying, Answer::Destroyed(Ok(_))) => {
            (Some(Stage::CheckingAfterDestroy), Some(Report::new("destroy", true, "ok")))
        },
        (Stage::Destroying, Answer::Destroyed(Err(err))) => {
            let report = Report::new("destroy", false, err.to_string().as_str());
            (Some(Stage::CheckingAfterDestroy), Some(report))
        },
        (Stage::CheckingAfterDestroy, Answer::Status(Ok(state))) => {
            let detail: String = String::from_str("still ").concat(state.debug_name());
            let report = Report::new("status (NotFound after destroy)", false, detail.as_str());
            (Some(Stage::DestroyingAgain), Some(report))
        },
        (Stage::CheckingAfterDestroy, Answer::Status(Err(err))) => {
            let report = match &err {
                SandboxError::NotFound(_) => Report::new(
                    "status (NotFound after destroy)",
                    true,
                    "not found as expected",
                ),
                SandboxError::General(_) => Report::new(
                    "status (NotFound after destroy)",
                    false,
                    err.to_string().as_str(),
                ),
            };
            (Some(Stage::DestroyingAgain), Some(report))
        },
        (Stage::DestroyingAgain, Answer::Destroyed(Ok(_))) => {
            (None, Some(Report::new("destroy (idempotent)", true, "ok")))
        },
        (Stage::DestroyingAgain, Answer::Destroyed(Err(err))) => {
            (None, Some(Report::new("destroy (idempotent)", false, err.to_string().as_str())))
        },
        (stage, _) => (Some(stage), None),
    }
}

// ---------------------------------------------------------------------------
// Laws
// ---------------------------------------------------------------------------

/// Where a run stands after a list of answers.
pub open spec fn after_all(run: E2eRun, answers: Seq<Answer>) -> E2eRun
    decreases answers.len(),
{
    if answers.len() == 0 {
        run
    } else {
        after_all(run, answers.drop_last()).after(answers.last())
    }
}

/// Whether each answer of the list is one to the action wanted when it came.
pub open spec fn all_awaited(run: E2eRun, answers: Seq<Answer>) -> bool
    decreases answers.len(),
{
    answers.len() == 0 || {
        &&& all_awaited(run, answers.drop_last())
        &&& after_all(run, answers.drop_last()).awaits(answers.last())
    }
}

/// Everything that a run reports on a list of answers.
pub open spec fn all_reports(run: E2eRun, answers: Seq<Answer>) -> Seq<ReportModel>
    decreases answers.len(),
{
    if answers.len() == 0 {
        Seq::empty()
    } else {
        let before = all_reports(run, answers.drop_last());
        match after_all(run, answers.drop_last()).reports(answers.last()) {
            Some(report) => before.push(report),
            None => before,
        }
    }
}

/// Whether a run has met nothing unexpected so far.
pub open spec fn unblemished(run: E2eRun) -> bool {
    match run {
        E2eRun::Creating => true,
        E2eRun::Living { all_passed, .. } => all_passed,
        E2eRun::Finished { passed } => passed,
    }
}

/// Whether all reports are good.
pub open spec fn all_good(reports: Seq<ReportModel>) -> bool {
    forall|i: int| 0 <= i < reports.len() ==> (#[trigger] reports[i]).ok
}

/// A run passes exactly if it reports no failure: at every point it is unblemished if and only
/// if all its reports so far are good.
pub proof fn law_passes_iff_all_reports_pass(answers: Seq<Answer>)
    requires
        all_awaited(E2eRun::Creating, answers),
    ensures
        unblemished(after_all(E2eRun::Creating, answers)) <==> all_good(
            all_reports(E2eRun::Creating, answers),
        ),
    decreases answers.len(),
{
    if answers.len() > 0 {
        let before = answers.drop_last();
        law_passes_iff_all_reports_pass(before);
        let run = after_all(E2eRun::Creating, before);
        let old_reports = all_reports(E2eRun::Creating, before);
        let reports = all_reports(E2eRun::Creating, answers);
        if let Some(report) = run.reports(answers.last()) {
            assert(reports == old_reports.push(report));
            assert(all_good(reports) <==> all_good(old_reports) && report.ok) by {
                assert(reports[old_reports.len() as int] == report);
                assert(forall|i: int|
                    0 <= i < old_reports.len() ==> #[trigger] old_reports[i] == reports[i]);
            }
        } else {
            assert(reports == old_reports);
        }
        assert(run.awaits(answers.last()));
    }
}

/// How many more answers a run can take at most.
pub open spec fn answers_left(run: E2eRun) -> nat {
    match run {
        E2eRun::Creating => 2 * STATUS_POLL_ATTEMPTS as nat + 7,
        E2eRun::Living { stage, .. } => match stage {
            Stage::Polling { attempts } => if attempts < STATUS_POLL_ATTEMPTS {
                (2 * (STATUS_POLL_ATTEMPTS - attempts) + 6) as nat
            } else {
                8
            },
            Stage::Waiting { attempts } => if attempts < STATUS_POLL_ATTEMPTS {
                (2 * (STATUS_POLL_ATTEMPTS - attempts) + 5) as nat
            } else {
                7
            },
            Stage::Listing => 6,
            Stage::Stopping => 5,
            Stage::CheckingAfterStop => 4,
            Stage::Destroying => 3,
            Stage::CheckingAfterDestroy => 2,
            Stage::DestroyingAgain => 1,
        },
        E2eRun::Finished { .. } => 0,
    }
}

/// Each answer leaves fewer to take, and where none is left the run is finished.
pub proof fn law_every_answer_brings_the_end_nearer(run: E2eRun, answer: Answer)
    requires
        run.awaits(answer),
    ensures
        answers_left(run.after(answer)) < answers_left(run),
        answers_left(run.after(answer)) == 0 ==> run.after(answer) is Finished,
{
}

/// Every run ends: none takes more answers than were left at its start, so the status is asked
/// for at most [`STATUS_POLL_ATTEMPTS`] times before the sandbox counts as not running.
pub proof fn law_every_run_ends(answers: Seq<Answer>)
    requires
        all_awaited(E2eRun::Creating, answers),
    ensures
        answers.len() + answers_left(after_all(E2eRun::Creating, answers)) <= answers_left(
            E2eRun::Creating,
        ),
    decreases answers.len(),
{
    if answers.len() > 0 {
        law_every_run_ends(answers.drop_last());
        law_every_answer_brings_the_end_nearer(
            after_all(E2eRun::Creating, answers.drop_last()),
            answers.last(),
        );
    }
}

/// How many steps a run has judged when it stands at `stage`.
pub open spec fn steps_judged(stage: Stage) -> nat {
    match stage {
        Stage::Polling { .. } => 1,
        Stage::Waiting { .. } => 1,
        Stage::Listing => 2,
        Stage::Stopping => 3,
        Stage::CheckingAfterStop => 4,
        Stage::Destroying => 5,
        Stage::CheckingAfterDestroy => 6,
        Stage::DestroyingAgain => 7,
    }
}

/// No step goes unjudged: a run has one report for each step behind it, and a run that passed
/// has judged all eight.
pub proof fn law_every_step_is_judged(answers: Seq<Answer>)
    requires
        all_awaited(E2eRun::Creating, answers),
    ensures
        match after_all(E2eRun::Creating, answers) {
            E2eRun::Creating => all_reports(E2eRun::Creating, answers).len() == 0,
            E2eRun::Living { stage, .. } => all_reports(E2eRun::Creating, answers).len()
                == steps_judged(stage),
            E2eRun::Finished { passed } => passed ==> all_reports(E2eRun::Creating, answers).len()
                == 8,
        },
    decreases answers.len(),
{
    if answers.len() > 0 {
        law_every_step_is_judged(answers.drop_last());
        assert(after_all(E2eRun::Creating, answers.drop_last()).awaits(answers.last()));
    }
}

/// A run that gets to its end keeps its sandbox to itself: the sandbox it lists, stops, checks
/// and destroys is the one that it created.
pub proof fn law_one_sandbox_per_run(run: E2eRun, answer: Answer)
    requires
        run.awaits(answer),
        run is Living,
    ensures
        run.after(answer) matches E2eRun::Living { id, .. } ==> id == run->Living_id,
{
}

/// How often a run wants `action` done over a list of answers.
pub open spec fn times_wanted(run: E2eRun, answers: Seq<Answer>, action: Action) -> nat
    decreases answers.len(),
{
    if answers.len() == 0 {
        0
    } else {
        let before = answers.drop_last();
        let now: nat = if after_all(run, before).wants() == action {
            1
        } else {
            0
        };
        times_wanted(run, before, action) + now
    }
}

/// How far a run has come at `stage`.
pub open spec fn stages_behind(stage: Stage) -> nat {
    match stage {
        Stage::Polling { .. } => 0,
        Stage::Waiting { .. } => 0,
        Stage::Listing => 1,
        Stage::Stopping => 2,
        Stage::CheckingAfterStop => 3,
        Stage::Destroying => 4,
        Stage::CheckingAfterDestroy => 5,
        Stage::DestroyingAgain => 6,
    }
}

/// Whether a run that stands at `stage` has wanted what it should have wanted by then.
pub open spec fn on_course(stage: Stage, answers: Seq<Answer>) -> bool {
    let behind = stages_behind(stage);
    let statuses = times_wanted(E2eRun::Creating, answers, Action::Status);
    &&& times_wanted(E2eRun::Creating, answers, Action::Create) == 1
    &&& times_wanted(E2eRun::Creating, answers, Action::List) == (if behind >= 2 {
        1int
    } else {
        0
    })
    &&& times_wanted(E2eRun::Creating, answers, Action::Stop) == (if behind >= 3 {
        1int
    } else {
        0
    })
    &&& times_wanted(E2eRun::Creating, answers, Action::Destroy) == (if behind >= 5 {
        1int
    } else {
        0
    })
    &&& match stage {
        Stage::Polling { attempts } => statuses == attempts && attempts < STATUS_POLL_ATTEMPTS,
        Stage::Waiting { attempts } => statuses == attempts + 1 && attempts < STATUS_POLL_ATTEMPTS,
        _ => statuses <= STATUS_POLL_ATTEMPTS + (if behind >= 4 {
            1int
        } else {
            0
        }) + (if behind >= 6 {
            1int
        } else {
            0
        }),
    }
}

/// A failed step never skips the cleanup: a run that created its sandbox and got to its end has
/// wanted it created, listed and stopped once each and destroyed twice, and its status at most
/// twice more often than it is polled, whatever the answers were. A run that did not get to
/// create it wanted nothing else.
pub proof fn law_every_run_cleans_up(answers: Seq<Answer>)
    requires
        all_awaited(E2eRun::Creating, answers),
    ensures
        match after_all(E2eRun::Creating, answers) {
            E2eRun::Creating => answers.len() == 0,
            E2eRun::Living { stage, .. } => on_course(stage, answers) && answers[0] matches Answer::Created(
                Ok(_),
            ),
            E2eRun::Finished { .. } => if answers[0] matches Answer::Created(Ok(_)) {
                &&& times_wanted(E2eRun::Creating, answers, Action::Create) == 1
                &&& times_wanted(E2eRun::Creating, answers, Action::List) == 1
                &&& times_wanted(E2eRun::Creating, answers, Action::Stop) == 1
                &&& times_wanted(E2eRun::Creating, answers, Action::Destroy) == 2
                &&& times_wanted(E2eRun::Creating, answers, Action::Status)
                    <= STATUS_POLL_ATTEMPTS + 2
            } else {
                &&& answers.len() == 1
                &&& after_all(E2eRun::Creating, answers) == (E2eRun::Finished { passed: false })
            },
        },
    decreases answers.len(),
{
    if answers.len() > 0 {
        let before = answers.drop_last();
        let run = after_all(E2eRun::Creating, before);
        law_every_run_cleans_up(before);
        assert(run.awaits(answers.last()));
        match run {
            E2eRun::Creating => {
                assert(before.len() == 0);
                lemma_course_begins(answers);
            },
            E2eRun::Living { id, stage, all_passed } => {
                assert(before.len() > 0 && before[0] == answers[0]);
                lemma_course_goes_on(id, stage, all_passed, answers);
            },
            E2eRun::Finished { .. } => {
                assert(false);
            },
        }
    }
}

proof fn lemma_course_begins(answers: Seq<Answer>)
    requires
        answers.len() == 1,
        E2eRun::Creating.awaits(answers[0]),
    ensures
        match after_all(E2eRun::Creating, answers) {
            E2eRun::Creating => false,
            E2eRun::Living { stage, .. } => on_course(stage, answers) && answers[0]
                matches Answer::Created(Ok(_)),
            E2eRun::Finished { passed } => !passed && answers[0] matches Answer::Created(Err(_)),
        },
{
    let before = answers.drop_last();
    assert(after_all(E2eRun::Creating, before) == E2eRun::Creating);
    assert forall|action: Action| #[trigger]
        times_wanted(E2eRun::Creating, answers, action) == (if action == Action::Create {
            1int
        } else {
            0
        }) by {
        assert(times_wanted(E2eRun::Creating, before, action) == 0);
    }
    assert(answers.last() == answers[0]);
    assert(after_all(E2eRun::Creating, answers) == E2eRun::Creating.after(answers[0]));
}

proof fn lemma_course_goes_on(
    id: SandboxId,
    stage: Stage,
    all_passed: bool,
    answers: Seq<Answer>,
)
    requires
        answers.len() > 0,
        after_all(E2eRun::Creating, answers.drop_last()) == (E2eRun::Living {
            id,
            stage,
            all_passed,
        }),
        (E2eRun::Living { id, stage, all_passed }).awaits(answers.last()),
        on_course(stage, answers.drop_last()),
    ensures
        match after_all(E2eRun::Creating, answers) {
            E2eRun::Creating => false,
            E2eRun::Living { stage, .. } => on_course(stage, answers),
            E2eRun::Finished { .. } => {
                &&& times_wanted(E2eRun::Creating, answers, Action::Create) == 1
                &&& times_wanted(E2eRun::Creating, answers, Action::List) == 1
                &&& times_wanted(E2eRun::Creating, answers, Action::Stop) == 1
                &&& times_wanted(E2eRun::Creating, answers, Action::Destroy) == 2
                &&& times_wanted(E2eRun::Creating, answers, Action::Status)
                    <= STATUS_POLL_ATTEMPTS + 2
            },
        },
{
    let run = E2eRun::Living { id, stage, all_passed };
    let next = next_stage(stage, answers.last());
    let after = after_all(E2eRun::Creating, answers);
    assert(after == run.after(answers.last()));
    if stage != Stage::DestroyingAgain {
        assert(after is Living && after->stage == next);
    }
}

/// Whether the report says this.
pub open spec fn reads(report: Option<Report>, name: Seq<char>, ok: bool, detail: Seq<char>) -> bool {
    report matches Some(report) && report.name@ == name && report.ok == ok && report.detail@ == detail
}

/// A run starts by creating a sandbox: that is good if and only if it succeeds, and a run that
/// fails at it is over and has not passed.
pub proof fn law_creating_is_judged(
    created: Result<SandboxId, SandboxError>,
    start: E2eRun,
    r: (E2eRun, Option<Report>),
)
    requires
        call_ensures(E2eRun::start, (), start),
        call_ensures(E2eRun::step, (start, Answer::Created(created)), r),
    ensures
        match created {
            Ok(id) => {
                &&& r.0 == (E2eRun::Living {
                    id,
                    stage: Stage::Polling { attempts: 0 },
                    all_passed: true,
                })
                &&& reads(r.1, "create"@, true, id@)
            },
            Err(err) => {
                &&& r.0 == (E2eRun::Finished { passed: false })
                &&& reads(r.1, "create"@, false, err.text())
            },
        },
{
    assert(start.awaits(Answer::Created(created)));
}

/// Only a sandbox that runs is reported as running: the status is judged good if and only if it is
/// that the sandbox runs. Any other status is not judged but waited on, and an error is a failure
/// of the run.
pub proof fn law_polling_is_judged(
    id: SandboxId,
    attempts: u32,
    all_passed: bool,
    status: Result<SandboxState, SandboxError>,
    r: (E2eRun, Option<Report>),
)
    requires
        call_ensures(
            E2eRun::step,
            (
                E2eRun::Living { id, stage: Stage::Polling { attempts }, all_passed },
                Answer::Status(status),
            ),
            r,
        ),
    ensures
        match status {
            Ok(state) => if state is Running {
                &&& r.0 == (E2eRun::Living { id, stage: Stage::Listing, all_passed })
                &&& reads(r.1, "status (poll to Running)"@, true, "reached Running"@)
            } else {
                &&& r.0 == (E2eRun::Living { id, stage: Stage::Waiting { attempts }, all_passed })
                &&& r.1 is None
            },
            Err(err) => {
                &&& r.0 == (E2eRun::Living { id, stage: Stage::Listing, all_passed: false })
                &&& reads(r.1, "status (poll to Running)"@, false, err.text())
            },
        },
{
    let run = E2eRun::Living { id, stage: Stage::Polling { attempts }, all_passed };
    assert(run.awaits(Answer::Status(status)));
}

/// After a wait the status is asked for again, thirty times in all; then the run has failed.
pub proof fn law_waiting_is_bounded(
    id: SandboxId,
    attempts: u32,
    all_passed: bool,
    r: (E2eRun, Option<Report>),
)
    requires
        call_ensures(
            E2eRun::step,
            (
                E2eRun::Living { id, stage: Stage::Waiting { attempts }, all_passed },
                Answer::Waited,
            ),
            r,
        ),
    ensures
        if attempts + 1 < 30 {
            &&& r.0 matches E2eRun::Living { id: same, stage, all_passed: passed }
            &&& same == id
            &&& stage matches Stage::Polling { attempts: next }
            &&& next == attempts + 1
            &&& passed == all_passed
            &&& r.1 is None
        } else {
            &&& r.0 == (E2eRun::Living { id, stage: Stage::Listing, all_passed: false })
            &&& reads(r.1, "status (poll to Running)"@, false, "timed out before Running"@)
        },
{
    let run = E2eRun::Living { id, stage: Stage::Waiting { attempts }, all_passed };
    assert(run.awaits(Answer::Waited));
}

/// A listing is good if and only if the sandbox is in it, wherever that stands.
pub proof fn law_listing_is_judged(
    id: SandboxId,
    all_passed: bool,
    listed: Result<Vec<SandboxId>, SandboxError>,
    r: (E2eRun, Option<Report>),
)
    requires
        call_ensures(
            E2eRun::step,
            (E2eRun::Living { id, stage: Stage::Listing, all_passed }, Answer::Listed(listed)),
            r,
        ),
    ensures
        match listed {
            Ok(ids) => {
                let there = exists|i: int| 0 <= i < ids@.len() && (#[trigger] ids@[i])@ == id@;
                &&& r.0 == (E2eRun::Living {
                    id,
                    stage: Stage::Stopping,
                    all_passed: all_passed && there,
                })
                &&& if there {
                    reads(r.1, "list (contains created id)"@, true, decimal(ids@.len()))
                } else {
                    reads(
                        r.1,
                        "list (contains created id)"@,
                        false,
                        decimal(ids@.len()) + " ids, missing "@ + id@,
                    )
                }
            },
            Err(err) => {
                &&& r.0 == (E2eRun::Living { id, stage: Stage::Stopping, all_passed: false })
                &&& reads(r.1, "list"@, false, err.text())
            },
        },
{
    let run = E2eRun::Living { id, stage: Stage::Listing, all_passed };
    assert(run.awaits(Answer::Listed(listed)));
}

/// Stopping is good if and only if it is refused; then the status is asked for, and is good if and
/// only if there is one.
pub proof fn law_stopping_is_judged(
    id: SandboxId,
    all_passed: bool,
    stopped: Result<(), SandboxError>,
    r: (E2eRun, Option<Report>),
    status: Result<SandboxState, SandboxError>,
    s: (E2eRun, Option<Report>),
)
    requires
        call_ensures(
            E2eRun::step,
            (E2eRun::Living { id, stage: Stage::Stopping, all_passed }, Answer::Stopped(stopped)),
            r,
        ),
        call_ensures(
            E2eRun::step,
            (
                E2eRun::Living { id, stage: Stage::CheckingAfterStop, all_passed },
                Answer::Status(status),
            ),
            s,
        ),
    ensures
        r.0 == (E2eRun::Living {
            id,
            stage: Stage::CheckingAfterStop,
            all_passed: all_passed && stopped is Err,
        }),
        if stopped is Err {
            reads(r.1, "stop (expected unsupported)"@, true, "returned error as expected"@)
        } else {
            reads(r.1, "stop (expected unsupported)"@, false, "unexpectedly succeeded"@)
        },
        s.0 == (E2eRun::Living {
            id,
            stage: Stage::Destroying,
            all_passed: all_passed && status is Ok,
        }),
        match status {
            Ok(state) => reads(s.1, "status (unaffected by stop)"@, true, state.name()),
            Err(err) => reads(s.1, "status (unaffected by stop)"@, false, err.text()),
        },
{
    let run = E2eRun::Living { id, stage: Stage::Stopping, all_passed };
    assert(run.awaits(Answer::Stopped(stopped)));
    let next = E2eRun::Living { id, stage: Stage::CheckingAfterStop, all_passed };
    assert(next.awaits(Answer::Status(status)));
}

/// Destroying is good if and only if it succeeds, the first time and the second, and in between
/// the sandbox has to be not found; the second time ends the run, which has passed if and only if
/// everything was good.
pub proof fn law_destroying_is_judged(
    id: SandboxId,
    all_passed: bool,
    destroyed: Result<(), SandboxError>,
    status: Result<SandboxState, SandboxError>,
    first: (E2eRun, Option<Report>),
    between: (E2eRun, Option<Report>),
    second: (E2eRun, Option<Report>),
)
    requires
        call_ensures(
            E2eRun::step,
            (
                E2eRun::Living { id, stage: Stage::Destroying, all_passed },
                Answer::Destroyed(destroyed),
            ),
            first,
        ),
        call_ensures(
            E2eRun::step,
            (
                E2eRun::Living { id, stage: Stage::CheckingAfterDestroy, all_passed },
                Answer::Status(status),
            ),
            between,
        ),
        call_ensures(
            E2eRun::step,
            (
                E2eRun::Living { id, stage: Stage::DestroyingAgain, all_passed },
                Answer::Destroyed(destroyed),
            ),
            second,
        ),
    ensures
        first.0 == (E2eRun::Living {
            id,
            stage: Stage::CheckingAfterDestroy,
            all_passed: all_passed && destroyed is Ok,
        }),
        second.0 == (E2eRun::Finished { passed: all_passed && destroyed is Ok }),
        match destroyed {
            Ok(_) => reads(first.1, "destroy"@, true, "ok"@) && reads(
                second.1,
                "destroy (idempotent)"@,
                true,
                "ok"@,
            ),
            Err(err) => reads(first.1, "destroy"@, false, err.text()) && reads(
                second.1,
                "destroy (idempotent)"@,
                false,
                err.text(),
            ),
        },
        ({
            let gone = status matches Err(SandboxError::NotFound(_));
            &&& between.0 == (E2eRun::Living {
                id,
                stage: Stage::DestroyingAgain,
                all_passed: all_passed && gone,
            })
            &&& match status {
                Ok(state) => reads(
                    between.1,
                    "status (NotFound after destroy)"@,
                    false,
                    "still "@ + state.name(),
                ),
                Err(err) => if gone {
                    reads(
                        between.1,
                        "status (NotFound after destroy)"@,
                        true,
                        "not found as expected"@,
                    )
                } else {
                    reads(between.1, "status (NotFound after destroy)"@, false, err.text())
                },
            }
        }),
{
    let run = E2eRun::Living { id, stage: Stage::Destroying, all_passed };
    assert(run.awaits(Answer::Destroyed(destroyed)));
    let next = E2eRun::Living { id, stage: Stage::CheckingAfterDestroy, all_passed };
    assert(next.awaits(Answer::Status(status)));
    let last = E2eRun::Living { id, stage: Stage::DestroyingAgain, all_passed };
    assert(last.awaits(Answer::Destroyed(destroyed)));
}

/// What a run wants done next, and of which sandbox: a new one at the start, then its own.
pub proof fn law_wants_follow_the_stage(run: E2eRun, action: Action, id: Option<&SandboxId>)
    requires
        call_ensures(E2eRun::action, (&run,), action),
        call_ensures(E2eRun::id, (&run,), id),
    ensures
        action is Create <==> run is Creating,
        action is Finish <==> run is Finished,
        run matches E2eRun::Finished { passed } ==> action == (Action::Finish { passed }),
        id is Some <==> run is Living,
        run matches E2eRun::Living { id: own, stage, .. } ==> {
            &&& *id->Some_0 == own
            &&& action is Status <==> stage is Polling || stage is CheckingAfterStop || stage
                is CheckingAfterDestroy
            &&& action is Wait <==> stage is Waiting
            &&& action is List <==> stage is Listing
            &&& action is Stop <==> stage is Stopping
            &&& action is Destroy <==> stage is Destroying || stage is DestroyingAgain
        },
{
}

/// An answer is taken if and only if it is one to what is wanted.
pub proof fn law_answers_fit_the_wants(run: E2eRun, answer: Answer, action: Action, fits: bool)
    requires
        call_ensures(E2eRun::action, (&run,), action),
        call_ensures(E2eRun::accepts, (&run, &answer), fits),
    ensures
        fits <==> (action is Create && answer is Created) || (action is Status && answer is Status)
            || (action is Wait && answer is Waited) || (action is List && answer is Listed) || (
        action is Stop && answer is Stopped) || (action is Destroy && answer is Destroyed),
{
}

/// A report is written on one line: whether it is good, the step and the detail.
pub proof fn law_reports_are_lines(report: Report, line: String)
    requires
        call_ensures(Report::line, (&report,), line),
    ensures
        report.ok ==> line@ == "[PASS] "@ + report.name@ + ": "@ + report.detail@,
        !report.ok ==> line@ == "[FAIL] "@ + report.name@ + ": "@ + report.detail@,
{
    reveal_strlit("[");
    reveal_strlit("] ");
    reveal_strlit("PASS");
    reveal_strlit("FAIL");
    reveal_strlit("[PASS] ");
    reveal_strlit("[FAIL] ");
    assert("["@ + "PASS"@ + "] "@ =~= "[PASS] "@);
    assert("["@ + "FAIL"@ + "] "@ =~= "[FAIL] "@);
}

/// The sandbox of a run is small and has nothing of its own: so much memory and cpu, so many
/// seconds, and neither variables, secrets, files, volumes nor labels.
pub proof fn law_runs_ask_for_little(image: String, r: SandboxSpec)
    requires
        call_ensures(run_spec, (image,), r),
    ensures
        r.image == ImageRef::Tag(image),
        r.resources.memory_mb == 64,
        r.resources.cpu_millis == 100,
        r.resources.disk_mb == 0,
        r.resources.max_pids == 0,
        r.deadline.secs == 300,
        r.deadline.subsec_nanos == 0,
        forall|key: Seq<char>| !(#[trigger] r.labels@.contains_key(key)),
        forall|key: Seq<char>| !(#[trigger] r.env.vars@.contains_key(key)),
        forall|key: Seq<char>| !(#[trigger] r.env.secrets@.contains_key(key)),
        r.storage.seed@.len() == 0,
        r.storage.state_volume is None,
{
}

/// A step leaves a run where the answers so far put it.
pub proof fn law_steps_add_up(
    answers: Seq<Answer>,
    answer: Answer,
    r: (E2eRun, Option<Report>),
)
    requires
        after_all(E2eRun::Creating, answers).awaits(answer),
        call_ensures(E2eRun::step, (after_all(E2eRun::Creating, answers), answer), r),
    ensures
        r.0 == after_all(E2eRun::Creating, answers.push(answer)),
{
    assert(answers.push(answer).drop_last() =~= answers);
    assert(answers.push(answer).last() == answer);
}

proof fn lemma_came_from(answers: Seq<Answer>)
    requires
        all_awaited(E2eRun::Creating, answers),
        answers.len() > 0,
        after_all(E2eRun::Creating, answers) is Living || after_all(E2eRun::Creating, answers)
            is Finished,
    ensures
        all_awaited(E2eRun::Creating, answers.drop_last()),
        after_all(E2eRun::Creating, answers) == after_all(
            E2eRun::Creating,
            answers.drop_last(),
        ).after(answers.last()),
        after_all(E2eRun::Creating, answers.drop_last()).awaits(answers.last()),
{
}

proof fn lemma_own_sandbox(answers: Seq<Answer>)
    requires
        all_awaited(E2eRun::Creating, answers),
    ensures
        after_all(E2eRun::Creating, answers) is Creating ==> answers.len() == 0,
        after_all(E2eRun::Creating, answers) matches E2eRun::Living { id, .. } ==> answers.len() > 0
            && answers[0] == Answer::Created(Ok(id)),
    decreases answers.len(),
{
    if answers.len() > 0 {
        lemma_own_sandbox(answers.drop_last());
        if answers.len() == 1 {
            assert(answers.drop_last().len() == 0);
            assert(answers.last() == answers[0]);
        } else {
            assert(answers.drop_last()[0] == answers[0]);
        }
    }
}

/// A run passes only if everything went as it should: the sandbox was created, was reported to run
/// when its status was asked for, was in the listing, was not stopped and still had a status, was
/// destroyed, was not found after that, and could be destroyed again.
pub proof fn law_a_passed_run_saw_everything_go_well(answers: Seq<Answer>)
    requires
        all_awaited(E2eRun::Creating, answers),
        after_all(E2eRun::Creating, answers) == (E2eRun::Finished { passed: true }),
    ensures
        ({
            let n = answers.len() as int;
            &&& n >= 8
            &&& answers[0] matches Answer::Created(created)
            &&& created matches Ok(id)
            &&& answers[n - 7] == Answer::Status(Ok(SandboxState::Running))
            &&& answers[n - 6] matches Answer::Listed(listed)
            &&& listed matches Ok(ids)
            &&& exists|i: int| 0 <= i < ids@.len() && (#[trigger] ids@[i])@ == id@
            &&& answers[n - 5] matches Answer::Stopped(stopped)
            &&& stopped is Err
            &&& answers[n - 4] matches Answer::Status(status)
            &&& status is Ok
            &&& answers[n - 3] matches Answer::Destroyed(destroyed)
            &&& destroyed is Ok
            &&& answers[n - 2] matches Answer::Status(gone)
            &&& gone matches Err(missing)
            &&& missing is NotFound
            &&& answers[n - 1] matches Answer::Destroyed(again)
            &&& again is Ok
        }),
{
    let n = answers.len() as int;
    assert(answers.len() > 0);
    let a1 = answers.drop_last();
    lemma_came_from(answers);
    lemma_own_sandbox(a1);
    assert(answers.last() == answers[n - 1]);
    assert(after_all(E2eRun::Creating, a1) is Living);
    let id = after_all(E2eRun::Creating, a1)->id;
    assert(after_all(E2eRun::Creating, a1) == (E2eRun::Living {
        id,
        stage: Stage::DestroyingAgain,
        all_passed: true,
    }));
    let a2 = a1.drop_last();
    lemma_came_from(a1);
    lemma_own_sandbox(a2);
    assert(a1.last() == answers[n - 2]);
    assert(after_all(E2eRun::Creating, a2) == (E2eRun::Living {
        id,
        stage: Stage::CheckingAfterDestroy,
        all_passed: true,
    }));
    let a3 = a2.drop_last();
    lemma_came_from(a2);
    lemma_own_sandbox(a3);
    assert(a2.last() == answers[n - 3]);
    assert(after_all(E2eRun::Creating, a3) == (E2eRun::Living {
        id,
        stage: Stage::Destroying,
        all_passed: true,
    }));
    let a4 = a3.drop_last();
    lemma_came_from(a3);
    lemma_own_sandbox(a4);
    assert(a3.last() == answers[n - 4]);
    assert(after_all(E2eRun::Creating, a4) == (E2eRun::Living {
        id,
        stage: Stage::CheckingAfterStop,
        all_passed: true,
    }));
    let a5 = a4.drop_last();
    lemma_came_from(a4);
    lemma_own_sandbox(a5);
    assert(a4.last() == answers[n - 5]);
    assert(after_all(E2eRun::Creating, a5) == (E2eRun::Living {
        id,
        stage: Stage::Stopping,
        all_passed: true,
    }));
    let a6 = a5.drop_last();
    lemma_came_from(a5);
    lemma_own_sandbox(a6);
    assert(a5.last() == answers[n - 6]);
    assert(after_all(E2eRun::Creating, a6) == (E2eRun::Living {
        id,
        stage: Stage::Listing,
        all_passed: true,
    }));
    let a7 = a6.drop_last();
    lemma_came_from(a6);
    lemma_own_sandbox(a7);
    assert(a6.last() == answers[n - 7]);
    assert(after_all(E2eRun::Creating, a7) is Living);
    assert(a7[0] == answers[0]);
}

} // verus!
