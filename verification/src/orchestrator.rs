//! The download orchestrator's decisions: one metadata fetch fans out into
//! independent tasks, one per requested resolution plus at most one for the
//! attribution document.  The plan says what every task fetches and writes;
//! the per-task state machine says, for each event a task's outside work
//! reports, what the task does next and how its outcome is classified.
//! The surrounding binary performs the network and file actions the machine
//! asks for and feeds the results back as events; failures stay local to
//! their task and never change the run's exit status.

use vstd::prelude::*;
use vstd::utf8::encode_utf8;
use crate::attribution::{attribution_doc, attribution_document, attribution_file_name};
use crate::metadata::{FetchError, ImageMetadata};
use crate::resolution::Resolution;
use crate::urls::{derive_url, derived_url, file_name_for, image_file_name, lemma_image_file_name_injective};

verus! {

/// The stage of a task's sequence in which a failure arose.  The metadata
/// stage belongs to the taxonomy but precedes fan-out, so no task outcome
/// ever carries it.
pub enum Stage {
    FetchMetadata,
    FetchImage,
    CreateFile,
    WriteFile,
    SyncFile,
}

/// Why one task failed.  A short write records both counts instead of an
/// outside message.
pub enum TaskFailure {
    Network { message: String },
    CreateFailed { message: String },
    WriteFailed { message: String },
    ShortWrite { written: usize, expected: usize },
    SyncFailed { message: String },
}

impl TaskFailure {
    /// The stage a failure belongs to.
    pub open spec fn stage_spec(&self) -> Stage {
        match self {
            TaskFailure::Network { .. } => Stage::FetchImage,
            TaskFailure::CreateFailed { .. } => Stage::CreateFile,
            TaskFailure::WriteFailed { .. } => Stage::WriteFile,
            TaskFailure::ShortWrite { .. } => Stage::WriteFile,
            TaskFailure::SyncFailed { .. } => Stage::SyncFile,
        }
    }

    /// The stage a failure belongs to.
    pub fn stage(&self) -> (s: Stage)
        ensures
            s == self.stage_spec(),
    {
        match self {
            TaskFailure::Network { .. } => Stage::FetchImage,
            TaskFailure::CreateFailed { .. } => Stage::CreateFile,
            TaskFailure::WriteFailed { .. } => Stage::WriteFile,
            TaskFailure::ShortWrite { .. } => Stage::WriteFile,
            TaskFailure::SyncFailed { .. } => Stage::SyncFile,
        }
    }
}

/// What one task ends with.  Outcomes are terminal: no retry within a run.
pub enum Outcome {
    Success { file_name: String },
    Failure(TaskFailure),
}

/// The work one task performs before persisting: fetch an image variant,
/// or write an already-rendered document without any network call.
pub enum TaskWork {
    FetchImage { url: String },
    WriteDoc { content: String },
}

/// One fanned-out task: the output file it owns and the work that fills it.
pub struct TaskSpec {
    pub file_name: String,
    pub work: TaskWork,
}

/// `t` is the image task for resolution `r` under metadata `meta`.
pub open spec fn is_image_task_for(t: TaskSpec, meta: ImageMetadata, r: Resolution) -> bool {
    &&& t.file_name@ == image_file_name(r)
    &&& t.work matches TaskWork::FetchImage { url } && url@ == derived_url(meta.url_template@, r)
}

/// `t` is the attribution task under metadata `meta`.
pub open spec fn is_attribution_task_for(t: TaskSpec, meta: ImageMetadata) -> bool {
    &&& t.file_name@ == attribution_file_name()
    &&& t.work matches TaskWork::WriteDoc { content } && content@ == attribution_doc(
        meta.title@,
        meta.copyright@,
    )
}

/// The fan-out plan for `meta` and the requested resolutions: one image
/// task per resolution, in order, and one trailing attribution task when
/// the flag is set.
pub open spec fn plan_matches(
    plan: Seq<TaskSpec>,
    meta: ImageMetadata,
    rs: Seq<Resolution>,
    attribution: bool,
) -> bool {
    &&& plan.len() == rs.len() + (if attribution {
        1int
    } else {
        0int
    })
    &&& forall|i: int| 0 <= i < rs.len() ==> is_image_task_for(#[trigger] plan[i], meta, rs[i])
    &&& attribution ==> is_attribution_task_for(plan[rs.len() as int], meta)
}

/// Build the fan-out plan: exactly one task per requested resolution and,
/// when asked, one more for the attribution document.
pub fn plan_tasks(meta: &ImageMetadata, resolutions: &Vec<Resolution>, attribution: bool) -> (plan:
    Vec<TaskSpec>)
    ensures
        plan_matches(plan@, *meta, resolutions@, attribution),
{
    let mut plan: Vec<TaskSpec> = Vec::new();
    let mut i: usize = 0;
    while i < resolutions.len()
        invariant
            i <= resolutions@.len(),
            plan@.len() == i,
            forall|j: int|
                0 <= j < i ==> is_image_task_for(#[trigger] plan@[j], *meta, resolutions@[j]),
        decreases resolutions@.len() - i,
    {
        let r = resolutions[i];
        plan.push(
            TaskSpec {
                file_name: file_name_for(&r),
                work: TaskWork::FetchImage { url: derive_url(meta.url_template.as_str(), &r) },
            },
        );
        i = i + 1;
    }
    if attribution {
        plan.push(
            TaskSpec {
                file_name: String::from_str("README.md"),
                work: TaskWork::WriteDoc {
                    content: attribution_document(meta.title.as_str(), meta.copyright.as_str()),
                },
            },
        );
    }
    plan
}

/// Gate the fan-out on the metadata fetch: a failed fetch aborts the run
/// with that error and launches no task at all; a successful one yields
/// the full plan.
pub fn plan_run(
    meta: Result<ImageMetadata, FetchError>,
    resolutions: &Vec<Resolution>,
    attribution: bool,
) -> (r: Result<Vec<TaskSpec>, FetchError>)
    ensures
        meta matches Err(e) ==> r == Result::<Vec<TaskSpec>, FetchError>::Err(e),
        meta matches Ok(m) ==> r matches Ok(plan) && plan_matches(
            plan@,
            m,
            resolutions@,
            attribution,
        ),
{
    match meta {
        Ok(m) => Ok(plan_tasks(&m, resolutions, attribution)),
        Err(e) => Err(e),
    }
}

/// What one task persists: the fetched image bytes, carried verbatim, or
/// the attribution document's text.
pub enum Payload {
    Image(Vec<u8>),
    Text(String),
}

/// The byte length of a payload: what a full write of it must report.
pub open spec fn payload_len(p: Payload) -> usize {
    match p {
        Payload::Image(b) => b@.len() as usize,
        Payload::Text(s) => encode_utf8(s@).len() as usize,
    }
}

/// The byte length of a payload.
pub fn payload_byte_len(p: &Payload) -> (n: usize)
    ensures
        n == payload_len(*p),
{
    match p {
        Payload::Image(b) => b.len(),
        Payload::Text(s) => s.as_str().len(),
    }
}

/// Where one task stands between the events its outside work reports.
pub enum TaskPhase {
    Ready,
    Fetching,
    Creating { payload: Payload },
    Writing { expected: usize },
    Syncing,
    Done { outcome: Outcome },
}

/// What the task asks its driver to do next.
pub enum TaskAction {
    /// Fetch the task's URL and report the body's bytes or the error.
    Fetch,
    /// Create (or truncate) the task's output file.
    CreateFile,
    /// Write exactly this payload and report how many bytes went out.
    WriteAll { payload: Payload },
    /// Flush the written data to stable storage.
    SyncFile,
    /// Nothing is left to do.
    Stop,
}

/// What the driver reports back after performing an action.
pub enum TaskEvent {
    Start,
    FetchOk { bytes: Vec<u8> },
    FetchErr { message: String },
    CreateOk,
    CreateErr { message: String },
    WriteOk { written: usize },
    WriteErr { message: String },
    SyncOk,
    SyncErr { message: String },
}

/// The task state machine: given where the task stands and what its driver
/// reports, where it stands next and what the driver is to do.  An event
/// that the phase does not expect changes nothing.
pub open spec fn step_spec(t: TaskSpec, phase: TaskPhase, event: TaskEvent) -> (TaskPhase,
    TaskAction) {
    match (phase, event) {
        (TaskPhase::Ready, TaskEvent::Start) => match t.work {
            TaskWork::FetchImage { .. } => (TaskPhase::Fetching, TaskAction::Fetch),
            TaskWork::WriteDoc { content } => (
                TaskPhase::Creating { payload: Payload::Text(content) },
                TaskAction::CreateFile,
            ),
        },
        (TaskPhase::Fetching, TaskEvent::FetchOk { bytes }) => (
            TaskPhase::Creating { payload: Payload::Image(bytes) },
            TaskAction::CreateFile,
        ),
        (TaskPhase::Fetching, TaskEvent::FetchErr { message }) => (
            TaskPhase::Done { outcome: Outcome::Failure(TaskFailure::Network { message }) },
            TaskAction::Stop,
        ),
        (TaskPhase::Creating { payload }, TaskEvent::CreateOk) => (
            TaskPhase::Writing { expected: payload_len(payload) },
            TaskAction::WriteAll { payload },
        ),
        (TaskPhase::Creating { .. }, TaskEvent::CreateErr { message }) => (
            TaskPhase::Done { outcome: Outcome::Failure(TaskFailure::CreateFailed { message }) },
            TaskAction::Stop,
        ),
        (TaskPhase::Writing { expected }, TaskEvent::WriteOk { written }) => if written == expected {
            (TaskPhase::Syncing, TaskAction::SyncFile)
        } else {
            (
                TaskPhase::Done {
                    outcome: Outcome::Failure(TaskFailure::ShortWrite { written, expected }),
                },
                TaskAction::Stop,
            )
        },
        (TaskPhase::Writing { .. }, TaskEvent::WriteErr { message }) => (
            TaskPhase::Done { outcome: Outcome::Failure(TaskFailure::WriteFailed { message }) },
            TaskAction::Stop,
        ),
        (TaskPhase::Syncing, TaskEvent::SyncOk) => (
            TaskPhase::Done { outcome: Outcome::Success { file_name: t.file_name } },
            TaskAction::Stop,
        ),
        (TaskPhase::Syncing, TaskEvent::SyncErr { message }) => (
            TaskPhase::Done { outcome: Outcome::Failure(TaskFailure::SyncFailed { message }) },
            TaskAction::Stop,
        ),
        (ph, _) => (ph, TaskAction::Stop),
    }
}

/// Advance one task by one event.
pub fn task_step(t: &TaskSpec, phase: TaskPhase, event: TaskEvent) -> (r: (TaskPhase, TaskAction))
    ensures
        r == step_spec(*t, phase, event),
{
    match (phase, event) {
        (TaskPhase::Ready, TaskEvent::Start) => match &t.work {
            TaskWork::FetchImage { .. } => (TaskPhase::Fetching, TaskAction::Fetch),
            TaskWork::WriteDoc { content } => (
                TaskPhase::Creating { payload: Payload::Text(content.clone()) },
                TaskAction::CreateFile,
            ),
        },
        (TaskPhase::Fetching, TaskEvent::FetchOk { bytes }) => (
            TaskPhase::Creating { payload: Payload::Image(bytes) },
            TaskAction::CreateFile,
        ),
        (TaskPhase::Fetching, TaskEvent::FetchErr { message }) => (
            TaskPhase::Done { outcome: Outcome::Failure(TaskFailure::Network { message }) },
            TaskAction::Stop,
        ),
        (TaskPhase::Creating { payload }, TaskEvent::CreateOk) => {
            let expected = payload_byte_len(&payload);
            (TaskPhase::Writing { expected }, TaskAction::WriteAll { payload })
        },
        (TaskPhase::Creating { .. }, TaskEvent::CreateErr { message }) => (
            TaskPhase::Done { outcome: Outcome::Failure(TaskFailure::CreateFailed { message }) },
            TaskAction::Stop,
        ),
        (TaskPhase::Writing { expected }, TaskEvent::WriteOk { written }) => if written == expected {
            (TaskPhase::Syncing, TaskAction::SyncFile)
        } else {
            (
                TaskPhase::Done {
                    outcome: Outcome::Failure(TaskFailure::ShortWrite { written, expected }),
                },
                TaskAction::Stop,
            )
        },
        (TaskPhase::Writing { .. }, TaskEvent::WriteErr { message }) => (
            TaskPhase::Done { outcome: Outcome::Failure(TaskFailure::WriteFailed { message }) },
            TaskAction::Stop,
        ),
        (TaskPhase::Syncing, TaskEvent::SyncOk) => (
            TaskPhase::Done { outcome: Outcome::Success { file_name: t.file_name.clone() } },
            TaskAction::Stop,
        ),
        (TaskPhase::Syncing, TaskEvent::SyncErr { message }) => (
            TaskPhase::Done { outcome: Outcome::Failure(TaskFailure::SyncFailed { message }) },
            TaskAction::Stop,
        ),
        (ph, _) => (ph, TaskAction::Stop),
    }
}

/// The run's exit status once the tasks were launched: per-task outcomes,
/// failures included, never make the whole run fail.  Only a metadata
/// fetch failure — which precedes fan-out — ends a run unsuccessfully.
pub fn run_succeeded(_outcomes: &Vec<Outcome>) -> (r: bool)
    ensures
        r,
{
    true
}

/// Two task specifications that agree in everything an observer sees: the
/// output file and the work's kind and text.
pub open spec fn task_view_eq(a: TaskSpec, b: TaskSpec) -> bool {
    &&& a.file_name@ == b.file_name@
    &&& match (a.work, b.work) {
        (TaskWork::FetchImage { url: ua }, TaskWork::FetchImage { url: ub }) => ua@ == ub@,
        (TaskWork::WriteDoc { content: ca }, TaskWork::WriteDoc { content: cb }) => ca@ == cb@,
        _ => false,
    }
}

/// Distinct requested resolutions get tasks with pairwise distinct output
/// file names, and the attribution task's file differs from every image
/// task's: the fanned-out tasks write disjoint files.
pub proof fn lemma_plan_distinct_files(
    plan: Seq<TaskSpec>,
    meta: ImageMetadata,
    rs: Seq<Resolution>,
    attribution: bool,
)
    requires
        plan_matches(plan, meta, rs, attribution),
        forall|i: int, j: int| 0 <= i < j < rs.len() ==> rs[i] != rs[j],
    ensures
        forall|i: int, j: int|
            0 <= i < j < rs.len() ==> (#[trigger] plan[i]).file_name@ != (#[trigger] plan[j]).file_name@,
        attribution ==> forall|i: int|
            0 <= i < rs.len() ==> (#[trigger] plan[i]).file_name@ != plan[rs.len() as int].file_name@,
{
    assert forall|i: int, j: int| 0 <= i < j < rs.len() implies (#[trigger] plan[i]).file_name@
        != (#[trigger] plan[j]).file_name@ by {
        if plan[i].file_name@ == plan[j].file_name@ {
            lemma_image_file_name_injective(rs[i], rs[j]);
        }
    }
    if attribution {
        assert forall|i: int| 0 <= i < rs.len() implies (#[trigger] plan[i]).file_name@
            != plan[rs.len() as int].file_name@ by {
            reveal_strlit("README.md");
            reveal_strlit(".jpg");
            let f = image_file_name(rs[i]);
            assert(f.last() == ".jpg"@[3]);
            assert(attribution_file_name().last() == 'd');
        }
    }
}

/// One resolution's task reads nothing of its siblings: the task planned
/// for a resolution is the same whatever the other requested resolutions
/// are.  Together with `run_succeeded`, this is the isolation guarantee:
/// a failing sibling can neither change another task's work nor the run's
/// exit status.
pub proof fn lemma_sibling_independence(
    meta: ImageMetadata,
    rs1: Seq<Resolution>,
    rs2: Seq<Resolution>,
    attribution1: bool,
    attribution2: bool,
    p1: Seq<TaskSpec>,
    p2: Seq<TaskSpec>,
    i: int,
    j: int,
)
    requires
        plan_matches(p1, meta, rs1, attribution1),
        plan_matches(p2, meta, rs2, attribution2),
        0 <= i < rs1.len(),
        0 <= j < rs2.len(),
        rs1[i] == rs2[j],
    ensures
        task_view_eq(p1[i], p2[j]),
{
}

/// Planning is deterministic: two plans built from the same metadata,
/// resolutions and flag agree task by task.  Re-running the orchestrator
/// against the same inputs therefore attempts exactly the same files.
pub proof fn lemma_plan_deterministic(
    meta: ImageMetadata,
    rs: Seq<Resolution>,
    attribution: bool,
    p1: Seq<TaskSpec>,
    p2: Seq<TaskSpec>,
)
    requires
        plan_matches(p1, meta, rs, attribution),
        plan_matches(p2, meta, rs, attribution),
    ensures
        p1.len() == p2.len(),
        forall|i: int| 0 <= i < p1.len() ==> task_view_eq(#[trigger] p1[i], #[trigger] p2[i]),
{
    assert forall|i: int| 0 <= i < p1.len() implies task_view_eq(#[trigger] p1[i], #[trigger] p2[i]) by {
        if i < rs.len() {
            assert(is_image_task_for(p1[i], meta, rs[i]));
            assert(is_image_task_for(p2[i], meta, rs[i]));
        } else {
            assert(is_attribution_task_for(p1[i], meta));
            assert(is_attribution_task_for(p2[i], meta));
        }
    }
}

/// A short write is never passed over: when fewer (or more) bytes than the
/// payload went out, the task ends right there with a write-stage failure
/// recording both counts.
pub proof fn lemma_short_write_surfaces(t: TaskSpec, expected: usize, written: usize)
    requires
        written != expected,
    ensures
        step_spec(t, TaskPhase::Writing { expected }, TaskEvent::WriteOk { written }) == (
            TaskPhase::Done {
                outcome: Outcome::Failure(TaskFailure::ShortWrite { written, expected }),
            },
            TaskAction::Stop,
        ),
        step_spec(t, TaskPhase::Writing { expected }, TaskEvent::WriteOk { written }).0
            matches TaskPhase::Done { outcome: Outcome::Failure(f) } && f.stage_spec()
            == Stage::WriteFile,
{
}

/// A failed flush to stable storage is never passed over: the task ends
/// with a sync-stage failure carrying the reported message.
pub proof fn lemma_sync_failure_surfaces(t: TaskSpec, message: String)
    ensures
        step_spec(t, TaskPhase::Syncing, TaskEvent::SyncErr { message }) == (
            TaskPhase::Done {
                outcome: Outcome::Failure(TaskFailure::SyncFailed { message }),
            },
            TaskAction::Stop,
        ),
        step_spec(t, TaskPhase::Syncing, TaskEvent::SyncErr { message }).0
            matches TaskPhase::Done { outcome: Outcome::Failure(f) } && f.stage_spec()
            == Stage::SyncFile,
{
}

/// What a task writes is verbatim what entered it: a fetched body's bytes
/// reach the write action unchanged, the attribution task's own document
/// text does likewise, and the short-write check compares the reported
/// count against that same payload's byte length.  No re-encoding, no
/// truncation, no substitution happens between fetch and write.
pub proof fn lemma_payload_written_verbatim(t: TaskSpec, bytes: Vec<u8>, p: Payload)
    ensures
        step_spec(t, TaskPhase::Fetching, TaskEvent::FetchOk { bytes }) == (
            TaskPhase::Creating { payload: Payload::Image(bytes) },
            TaskAction::CreateFile,
        ),
        t.work matches TaskWork::WriteDoc { content } ==> step_spec(
            t,
            TaskPhase::Ready,
            TaskEvent::Start,
        ) == (TaskPhase::Creating { payload: Payload::Text(content) }, TaskAction::CreateFile),
        step_spec(t, TaskPhase::Creating { payload: p }, TaskEvent::CreateOk) == (
            TaskPhase::Writing { expected: payload_len(p) },
            TaskAction::WriteAll { payload: p },
        ),
{
}

/// Success is owed only to a task that came through every stage: the
/// machine declares success exactly on a good flush, and the file it names
/// is the task's own.
pub proof fn lemma_success_needs_all_stages(t: TaskSpec, phase: TaskPhase, event: TaskEvent)
    requires
        !(phase is Done),
    ensures
        (step_spec(t, phase, event).0 matches TaskPhase::Done {
            outcome: Outcome::Success { .. },
        }) <==> (phase is Syncing && event is SyncOk),
        (phase is Syncing && event is SyncOk) ==> step_spec(t, phase, event).0 == (TaskPhase::Done {
            outcome: Outcome::Success { file_name: t.file_name },
        }),
{
}

} // verus!
