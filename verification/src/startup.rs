//! What happens before the first request: the checks that a model has to pass,
//! and the warm-up of the worker pool.
use crate::protocol::{
    published_datatype, published_datatypes_are_accepted, tvm_datatype, v2_datatype, Datatype,
};
use crate::relax::{
    accepted_models_match_the_runtime, fault_text, runtime_checked, spec_views, LlvmTarget, Metadata,
    MetadataView, RuntimeError, RuntimeFault, TensorSpec, TensorSpecView,
};
use crate::text::{decimal, decimal_u64};
use vstd::prelude::*;

verus! {

/// Why the server does not start.
#[derive(Debug)]
pub enum StartError {
    /// The model does not belong to this runtime.
    Runtime(RuntimeError),
    /// A tensor of the model has a data type that cannot be served.
    UnsupportedDtype { name: String, dtype: String },
    /// A worker ended before it reported.
    WorkerGone,
    /// A worker could not load the model.
    LoadFailed(String),
}

/// The contents of a [`StartError`].
#[verifier::ext_equal]
pub enum StartFault {
    Runtime(RuntimeFault),
    UnsupportedDtype { name: Seq<char>, dtype: Seq<char> },
    WorkerGone,
    LoadFailed(Seq<char>),
}

impl View for StartError {
    type V = StartFault;

    open spec fn view(&self) -> StartFault {
        match self {
            StartError::Runtime(e) => StartFault::Runtime(e@),
            StartError::UnsupportedDtype { name, dtype } => StartFault::UnsupportedDtype {
                name: name@,
                dtype: dtype@,
            },
            StartError::WorkerGone => StartFault::WorkerGone,
            StartError::LoadFailed(m) => StartFault::LoadFailed(m@),
        }
    }
}

/// The message of a fault.
pub open spec fn start_fault_text(f: StartFault) -> Seq<char> {
    match f {
        StartFault::Runtime(e) => fault_text(e),
        StartFault::UnsupportedDtype { name, dtype } => "model tensor '"@ + name
            + "' declares dtype '"@ + dtype
            + "': not supported by this serve image (FP16 and others are deferred)"@,
        StartFault::WorkerGone => "a worker thread did not start"@,
        StartFault::LoadFailed(m) => "model load failed: "@ + m,
    }
}

impl StartError {
    /// The message that the server ends with.
    pub fn message(&self) -> (r: String)
        ensures
            r@ == start_fault_text(self@),
    {
        match self {
            StartError::Runtime(e) => e.message(),
            StartError::UnsupportedDtype { name, dtype } => {
                let mut m = "model tensor '".to_string();
                m.append(name.as_str());
                m.append("' declares dtype '");
                m.append(dtype.as_str());
                m.append("': not supported by this serve image (FP16 and others are deferred)");
                m
            },
            StartError::WorkerGone => "a worker thread did not start".to_string(),
            StartError::LoadFailed(e) => {
                let mut m = "model load failed: ".to_string();
                m.append(e.as_str());
                m
            },
        }
    }
}

/// Whether a tensor can be served. An empty data type counts as the default one.
pub open spec fn servable(t: TensorSpecView) -> bool {
    t.dtype.len() == 0 || tvm_datatype(t.dtype) is Some
}

/// The first tensor of a list that cannot be served.
pub open spec fn first_unservable(tensors: Seq<TensorSpecView>) -> Option<TensorSpecView>
    decreases tensors.len(),
{
    if tensors.len() == 0 {
        None
    } else if !servable(tensors[0]) {
        Some(tensors[0])
    } else {
        first_unservable(tensors.drop_first())
    }
}

/// Looks for a tensor that cannot be served.
fn find_unservable(tensors: &Vec<TensorSpec>) -> (r: Option<usize>)
    ensures
        match r {
            Some(i) => i < tensors.len() && first_unservable(spec_views(tensors@)) == Some(
                tensors@[i as int]@,
            ),
            None => first_unservable(spec_views(tensors@)) is None,
        },
{
    let ghost all = spec_views(tensors@);
    assert(all.skip(0) =~= all);
    for i in 0..tensors.len()
        invariant
            all == spec_views(tensors@),
            first_unservable(all) == first_unservable(all.skip(i as int)),
    {
        assert(all.skip(i as int)[0] == tensors@[i as int]@);
        assert(all.skip(i as int).drop_first() =~= all.skip(i + 1));
        let dtype = tensors[i].dtype.as_str();
        if !dtype.is_empty() && Datatype::from_tvm(dtype).is_none() {
            return Some(i);
        }
    }
    assert(all.skip(all.len() as int).len() == 0);
    None
}

/// The fault of a signature: the first tensor, inputs before outputs, that cannot
/// be served.
pub open spec fn dtype_fault(m: MetadataView) -> Option<StartFault> {
    match first_unservable(m.inputs + m.outputs) {
        Some(t) => Some(StartFault::UnsupportedDtype { name: t.name, dtype: t.dtype }),
        None => None,
    }
}

proof fn first_unservable_of_both(a: Seq<TensorSpecView>, b: Seq<TensorSpecView>)
    ensures
        first_unservable(a + b) == match first_unservable(a) {
            Some(t) => Some(t),
            None => first_unservable(b),
        },
    decreases a.len(),
{
    if a.len() == 0 {
        assert(a + b =~= b);
    } else {
        assert((a + b).drop_first() =~= a.drop_first() + b);
        first_unservable_of_both(a.drop_first(), b);
    }
}

/// The fault of a check, if it found one.
pub open spec fn start_fault_of(r: Result<(), StartError>) -> Option<StartFault> {
    match r {
        Ok(_) => None,
        Err(e) => Some(e@),
    }
}

/// Checks that every tensor of the model can be served, so that the server fails
/// at startup and not on each request.
pub fn check_dtypes(meta: &Metadata) -> (r: Result<(), StartError>)
    ensures
        start_fault_of(r) == dtype_fault(meta@),
{
    proof {
        first_unservable_of_both(spec_views(meta.inputs@), spec_views(meta.outputs@));
    }
    match find_unservable(&meta.inputs) {
        Some(i) => {
            return Err(
                StartError::UnsupportedDtype {
                    name: meta.inputs[i].name.clone(),
                    dtype: meta.inputs[i].dtype.clone(),
                },
            );
        },
        None => {},
    }
    match find_unservable(&meta.outputs) {
        Some(i) => Err(
            StartError::UnsupportedDtype {
                name: meta.outputs[i].name.clone(),
                dtype: meta.outputs[i].dtype.clone(),
            },
        ),
        None => Ok(()),
    }
}

/// The outcome of the startup checks: the runtime comes first, then the data
/// types.
pub open spec fn model_checked<P: Fn(&str) -> Result<LlvmTarget, String>>(
    m: MetadataView,
    runtime_version: Seq<char>,
    runtime_commit: Seq<char>,
    runtime_arch: Seq<char>,
    parse: P,
    fault: Option<StartFault>,
) -> bool {
    match fault {
        Some(StartFault::Runtime(f)) => runtime_checked(
            m,
            runtime_version,
            runtime_commit,
            runtime_arch,
            parse,
            Some(f),
        ),
        _ => fault == dtype_fault(m) && runtime_checked(
            m,
            runtime_version,
            runtime_commit,
            runtime_arch,
            parse,
            None,
        ),
    }
}

/// Decides whether the server takes a model: it was built for this runtime, for a
/// CPU of this architecture, and every input and output can be served. `parse`
/// reads a target that is written in JSON.
pub fn check_model<P: Fn(&str) -> Result<LlvmTarget, String>>(
    meta: &Metadata,
    runtime_version: &str,
    runtime_commit: &str,
    runtime_arch: &str,
    parse: P,
) -> (r: Result<(), StartError>)
    requires
        forall|s: &str| call_requires(parse, (s,)),
    ensures
        model_checked(
            meta@,
            runtime_version@,
            runtime_commit@,
            runtime_arch@,
            parse,
            start_fault_of(r),
        ),
{
    match meta.validate_runtime(runtime_version, runtime_commit, runtime_arch, parse) {
        Err(e) => Err(StartError::Runtime(e)),
        Ok(()) => check_dtypes(meta),
    }
}

/// The file of a model directory that describes the model.
pub fn metadata_path(model_dir: &str) -> (r: String)
    ensures
        r@ == model_dir@ + "/metadata.json"@,
{
    let mut path = model_dir.to_string();
    path.append("/metadata.json");
    path
}

/// The file of a model directory that holds the compiled model.
pub fn library_path(model_dir: &str) -> (r: String)
    ensures
        r@ == model_dir@ + "/model.so"@,
{
    let mut path = model_dir.to_string();
    path.append("/model.so");
    path
}

/// The thread name of a worker.
pub fn worker_name(index: usize) -> (r: String)
    ensures
        r@ == "tvm-infer-"@ + decimal(index as int),
{
    let mut name = "tvm-infer-".to_string();
    name.append(decimal_u64(index as u64).as_str());
    name
}

/// What a worker reports once, before it takes jobs.
#[derive(Debug)]
pub enum WorkerReport {
    /// The worker holds its copy of the model.
    Loaded,
    /// The model could not be loaded.
    LoadFailed(String),
    /// No report will come any more.
    Gone,
}

/// The fault that a report stands for.
pub open spec fn report_fault(r: WorkerReport) -> Option<StartFault> {
    match r {
        WorkerReport::Loaded => None,
        WorkerReport::LoadFailed(m) => Some(StartFault::LoadFailed(m@)),
        WorkerReport::Gone => Some(StartFault::WorkerGone),
    }
}

/// How far a pool of workers has come.
#[verifier::ext_equal]
pub enum PoolState {
    /// So many workers are loaded, and others are not yet.
    Waiting(nat),
    /// Every worker is loaded.
    Ready,
    /// Startup has failed.
    Failed(StartFault),
}

/// The state of a pool of `workers` workers, of which `loaded` were loaded, after
/// one more report.
pub open spec fn after_report(workers: nat, loaded: nat, report: WorkerReport) -> PoolState {
    match report_fault(report) {
        Some(f) => PoolState::Failed(f),
        None => if loaded + 1 < workers {
            PoolState::Waiting(loaded + 1)
        } else {
            PoolState::Ready
        },
    }
}

/// The state of a pool after a number of reports. Once it is ready or has failed
/// it stays so.
pub open spec fn after_reports(workers: nat, reports: Seq<WorkerReport>) -> PoolState
    decreases reports.len(),
{
    if reports.len() == 0 {
        PoolState::Waiting(0)
    } else {
        match after_reports(workers, reports.drop_last()) {
            PoolState::Waiting(n) => after_report(workers, n, reports.last()),
            decided => decided,
        }
    }
}

/// A pool of workers on its way to being ready.
#[derive(Debug)]
pub struct Warmup {
    workers: usize,
    loaded: usize,
}

/// What to do after a report.
#[derive(Debug)]
pub enum WarmupStep {
    /// Wait for the next report.
    Wait,
    /// Every worker is loaded: the pool is ready.
    Ready,
    /// Startup has failed.
    Fail(StartError),
}

impl Warmup {
    /// The number of workers of the pool.
    pub closed spec fn workers(&self) -> nat {
        self.workers as nat
    }

    /// The number of workers that reported that they are loaded.
    pub closed spec fn loaded(&self) -> nat {
        self.loaded as nat
    }

    /// Not all workers are loaded yet.
    pub open spec fn waiting(&self) -> bool {
        self.loaded() < self.workers()
    }

    /// A pool of `workers` workers, but of one at least.
    pub fn new(workers: usize) -> (r: Warmup)
        ensures
            r.workers() == (if workers == 0 { 1 } else { workers as nat }),
            r.loaded() == 0,
            r.waiting(),
    {
        Warmup { workers: if workers == 0 { 1 } else { workers }, loaded: 0 }
    }

    /// How many workers are to be started.
    pub fn pool_size(&self) -> (r: usize)
        ensures
            r == self.workers(),
    {
        self.workers
    }

    /// Takes the report of one worker.
    pub fn on_report(&mut self, report: WorkerReport) -> (r: WarmupStep)
        requires
            old(self).waiting(),
        ensures
            final(self).workers() == old(self).workers(),
            match after_report(old(self).workers(), old(self).loaded(), report) {
                PoolState::Waiting(n) => {
                    &&& r is Wait
                    &&& final(self).loaded() == n
                    &&& final(self).waiting()
                },
                PoolState::Ready => {
                    &&& r is Ready
                    &&& final(self).loaded() == final(self).workers()
                },
                PoolState::Failed(f) => {
                    &&& r matches WarmupStep::Fail(e)
                    &&& e@ == f
                    &&& final(self).loaded() == old(self).loaded()
                },
            },
    {
        match report {
            WorkerReport::Loaded => {
                self.loaded = self.loaded + 1;
                if self.loaded < self.workers {
                    WarmupStep::Wait
                } else {
                    WarmupStep::Ready
                }
            },
            WorkerReport::LoadFailed(m) => WarmupStep::Fail(StartError::LoadFailed(m)),
            WorkerReport::Gone => WarmupStep::Fail(StartError::WorkerGone),
        }
    }
}

/// A pool is ready exactly when every one of its workers has reported that it is
/// loaded, none having reported anything else before.
pub proof fn ready_means_every_worker_is_loaded(workers: nat, reports: Seq<WorkerReport>)
    requires
        workers > 0,
    ensures
        after_reports(workers, reports) is Ready <==> reports.len() >= workers && forall|i: int|
            0 <= i < workers ==> (#[trigger] reports[i]) is Loaded,
{
    loading_progress(workers, reports);
    if after_reports(workers, reports) is Failed {
        let i = choose|i: int|
            0 <= i < reports.len() && i < workers && !((#[trigger] reports[i]) is Loaded);
        assert(!(reports[i] is Loaded));
    }
}

proof fn loading_progress(workers: nat, reports: Seq<WorkerReport>)
    requires
        workers > 0,
    ensures
        match after_reports(workers, reports) {
            PoolState::Waiting(n) => n == reports.len() && n < workers && forall|i: int|
                0 <= i < reports.len() ==> (#[trigger] reports[i]) is Loaded,
            PoolState::Ready => reports.len() >= workers && forall|i: int|
                0 <= i < workers ==> (#[trigger] reports[i]) is Loaded,
            PoolState::Failed(_) => exists|i: int|
                0 <= i < reports.len() && i < workers && !((#[trigger] reports[i]) is Loaded),
        },
    decreases reports.len(),
{
    if reports.len() > 0 {
        let before = reports.drop_last();
        loading_progress(workers, before);
        assert(forall|i: int| 0 <= i < before.len() ==> before[i] == reports[i]);
        match after_reports(workers, before) {
            PoolState::Waiting(n) => {
                assert(reports[reports.len() - 1] == reports.last());
            },
            PoolState::Ready => {},
            PoolState::Failed(_) => {
                let i = choose|i: int|
                    0 <= i < before.len() && i < workers && !((#[trigger] before[i]) is Loaded);
                assert(!(reports[i] is Loaded));
            },
        }
    }
}

/// The first report that is not a loaded worker ends the startup, with its own
/// fault, whatever is reported after it.
pub proof fn first_failure_ends_startup(workers: nat, reports: Seq<WorkerReport>, k: int)
    requires
        0 <= k < reports.len(),
        k < workers,
        forall|i: int| 0 <= i < k ==> (#[trigger] reports[i]) is Loaded,
        !(reports[k] is Loaded),
    ensures
        Some(after_reports(workers, reports)) == (match report_fault(reports[k]) {
            Some(f) => Some(PoolState::Failed(f)),
            None => None,
        }),
    decreases reports.len(),
{
    let before = reports.drop_last();
    if k < before.len() {
        first_failure_ends_startup(workers, before, k);
    } else {
        assert(before =~= reports.take(k));
        loading_progress(workers, before);
        match after_reports(workers, before) {
            PoolState::Failed(_) => {
                let i = choose|i: int|
                    0 <= i < before.len() && i < workers && !((#[trigger] before[i]) is Loaded);
                assert(reports[i] is Loaded);
            },
            _ => {},
        }
    }
}

/// A model that passed the startup checks belongs to this runtime, and the name
/// that each of its tensors is published under is one that requests may use.
pub proof fn accepted_models_can_be_served<P: Fn(&str) -> Result<LlvmTarget, String>>(
    m: MetadataView,
    runtime_version: Seq<char>,
    runtime_commit: Seq<char>,
    runtime_arch: Seq<char>,
    parse: P,
)
    requires
        model_checked(m, runtime_version, runtime_commit, runtime_arch, parse, None),
    ensures
        m.tvm_version == runtime_version,
        m.tvm_git_commit == runtime_commit,
        forall|i: int|
            0 <= i < (m.inputs + m.outputs).len() ==> servable(#[trigger] (m.inputs + m.outputs)[i]),
        forall|i: int|
            0 <= i < (m.inputs + m.outputs).len() ==> v2_datatype(
                published_datatype((#[trigger] (m.inputs + m.outputs)[i]).dtype),
            ) is Some,
{
    accepted_models_match_the_runtime(m, runtime_version, runtime_commit, runtime_arch, parse);
    let all = m.inputs + m.outputs;
    no_unservable(all);
    assert forall|i: int| 0 <= i < all.len() implies v2_datatype(
        published_datatype((#[trigger] all[i]).dtype),
    ) is Some by {
        published_datatypes_are_accepted(all[i].dtype);
    }
}

proof fn no_unservable(tensors: Seq<TensorSpecView>)
    ensures
        first_unservable(tensors) is None <==> forall|i: int|
            0 <= i < tensors.len() ==> servable(#[trigger] tensors[i]),
    decreases tensors.len(),
{
    if tensors.len() > 0 {
        let rest = tensors.drop_first();
        no_unservable(rest);
        assert(forall|i: int| 0 <= i < rest.len() ==> rest[i] == tensors[i + 1]);
        if servable(tensors[0]) && first_unservable(rest) is None {
            assert forall|i: int| 0 <= i < tensors.len() implies servable(
                #[trigger] tensors[i],
            ) by {
                if i > 0 {
                    assert(servable(rest[i - 1]));
                }
            }
        }
    }
}

/// A model with a tensor of an unknown data type, such as `float16`, never passes
/// the startup checks.
pub proof fn unservable_models_are_refused<P: Fn(&str) -> Result<LlvmTarget, String>>(
    m: MetadataView,
    runtime_version: Seq<char>,
    runtime_commit: Seq<char>,
    runtime_arch: Seq<char>,
    parse: P,
    i: int,
)
    requires
        0 <= i < (m.inputs + m.outputs).len(),
        !servable((m.inputs + m.outputs)[i]),
    ensures
        !model_checked(m, runtime_version, runtime_commit, runtime_arch, parse, None),
{
    no_unservable(m.inputs + m.outputs);
}

} // verus!
