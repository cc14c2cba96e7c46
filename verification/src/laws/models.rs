//! Laws of models: which ones this runtime takes, how the pool comes up, and what is
//! published of them.
use crate::grpc::model_message;
use crate::protocol::{
    metadata_views, published_datatype, ModelMetadata, Quantization,
    ServerMetadata, TensorMetadata, TensorMetadataView,
};
use crate::relax::{
    canonical, fault_of, fault_text, identity_fault,
    mtriple_field, plain_target, runtime_checked, spec_views, target_checked, target_fault,
    LlvmTarget, Metadata, MetadataView, RuntimeError, RuntimeFault, TargetView, TensorSpec,
    TensorSpecView,
};
use crate::rest::published_model;
use crate::startup::{
    after_report, dtype_fault, first_unservable, model_checked, servable,
    start_fault_of, start_fault_text, PoolState, StartError, StartFault, WorkerReport,
};
use crate::text::{before_dash, lower_case, quoted, texts, trimmed, words_of};
use vstd::prelude::*;

verus! {

/// A target in command-line form: the first word is the kind, and the triple is what
/// follows `-mtriple=` in the first later word that starts so, wherever that word
/// stands. Without such a word there is no triple.
pub proof fn the_triple_is_found_wherever_it_stands(s: Seq<char>, j: int, triple: Seq<char>)
    ensures
        words_of(s).len() > 0 ==> plain_target(s).kind == words_of(s)[0],
        words_of(s).len() == 0 ==> plain_target(s).kind.len() == 0,
        1 <= j < words_of(s).len() && words_of(s)[j] == "-mtriple="@ + triple && (forall|i: int|
            1 <= i < j ==> !"-mtriple="@.is_prefix_of(#[trigger] words_of(s)[i]))
            ==> plain_target(s).mtriple == triple,
        (forall|i: int|
            1 <= i < words_of(s).len() ==> !"-mtriple="@.is_prefix_of(#[trigger] words_of(s)[i]))
            ==> plain_target(s).mtriple.len() == 0,
{
    let words = words_of(s);
    if 1 <= j < words.len() && words[j] == "-mtriple="@ + triple && (forall|i: int|
        1 <= i < j ==> !"-mtriple="@.is_prefix_of(#[trigger] words[i])) {
        skip_to_field(words, 1, j);
        assert("-mtriple="@ =~= words[j].take("-mtriple="@.len() as int));
        assert("-mtriple="@.is_prefix_of(words[j]));
        assert(words[j].skip("-mtriple="@.len() as int) =~= triple);
    }
    if forall|i: int| 1 <= i < words.len() ==> !"-mtriple="@.is_prefix_of(#[trigger] words[i]) {
        if words.len() > 0 {
            skip_to_field(words, 1, words.len() as int);
        }
    }
}

proof fn skip_to_field(words: Seq<Seq<char>>, i: int, j: int)
    requires
        1 <= i <= j <= words.len(),
        forall|k: int| i <= k < j ==> !"-mtriple="@.is_prefix_of(#[trigger] words[k]),
    ensures
        mtriple_field(words, i) == mtriple_field(words, j),
    decreases j - i,
{
    if i < j {
        skip_to_field(words, i + 1, j);
    }
}

/// A model whose target text names, in its first `-mtriple=` word, an architecture
/// other than that of the runtime is never accepted, and neither is one whose first
/// word is not `llvm`.
pub proof fn foreign_architectures_are_refused<P: Fn(&str) -> Result<LlvmTarget, String>>(
    m: MetadataView,
    runtime_version: Seq<char>,
    runtime_commit: Seq<char>,
    runtime_arch: Seq<char>,
    parse: P,
    j: int,
    triple: Seq<char>,
)
    requires
        runtime_checked(m, runtime_version, runtime_commit, runtime_arch, parse, None),
        trimmed(m.target)[0] != '{',
    ensures
        words_of(trimmed(m.target)).len() > 0 ==> words_of(trimmed(m.target))[0] == "llvm"@,
        ({
            let words = words_of(trimmed(m.target));
            1 <= j < words.len() && words[j] == "-mtriple="@ + triple && triple.len() > 0 && (
            forall|i: int| 1 <= i < j ==> !"-mtriple="@.is_prefix_of(#[trigger] words[i]))
                ==> canonical(runtime_arch) is Some && canonical(before_dash(triple)) == canonical(
                runtime_arch,
            )
        }),
{
    the_triple_is_found_wherever_it_stands(trimmed(m.target), j, triple);
}

/// The spellings of each architecture, and that there are no others. Upper and lower
/// case are the same.
pub proof fn architectures_have_these_spellings(arch: Seq<char>)
    ensures
        ({
            let a = lower_case(arch);
            &&& a == "x86_64"@ || a == "amd64"@ <==> canonical(arch) == Some("x86_64"@)
            &&& a == "aarch64"@ || a == "arm64"@ <==> canonical(arch) == Some("aarch64"@)
            &&& "arm"@.is_prefix_of(a) && a != "arm64"@ <==> canonical(arch) == Some("arm"@)
            &&& a == "riscv64"@ <==> canonical(arch) == Some("riscv64"@)
            &&& a == "powerpc64"@ || a == "powerpc64le"@ || a == "ppc64le"@ <==> canonical(arch)
                == Some("powerpc64"@)
            &&& a == "s390x"@ <==> canonical(arch) == Some("s390x"@)
            &&& canonical(arch) matches Some(c) ==> c == "x86_64"@ || c == "aarch64"@ || c
                == "arm"@ || c == "riscv64"@ || c == "powerpc64"@ || c == "s390x"@
        }),
{
    reveal_strlit("x86_64");
    reveal_strlit("amd64");
    reveal_strlit("aarch64");
    reveal_strlit("arm64");
    reveal_strlit("arm");
    reveal_strlit("riscv64");
    reveal_strlit("powerpc64");
    reveal_strlit("powerpc64le");
    reveal_strlit("ppc64le");
    reveal_strlit("s390x");
    let a = lower_case(arch);
    if "arm"@.is_prefix_of(a) {
        assert("arm"@[0] == a[0]);
        assert("arm"@[1] == a[1]);
        assert("arm"@[2] == a[2]);
    }
    assert("x86_64"@[0] == 'x');
    assert("amd64"@[1] == 'm');
    assert("aarch64"@[1] == 'a');
    assert("riscv64"@[0] == 'r');
    assert("powerpc64"@[0] == 'p');
    assert("powerpc64le"@[0] == 'p');
    assert("ppc64le"@[0] == 'p');
    assert("s390x"@[0] == 's');
    assert("arm"@.len() == 3);
    assert("arm"@.is_prefix_of("arm64"@)) by {
        assert("arm"@ =~= "arm64"@.take(3));
    }
}

/// What is found wrong with a target: its kind first, then a triple of no known
/// architecture, then the runtime's architecture, then that the two differ.
pub proof fn target_faults_are_found_in_order(t: TargetView, runtime_arch: Seq<char>)
    ensures
        ({
            let model = canonical(before_dash(t.mtriple));
            let runtime = canonical(runtime_arch);
            let f = target_fault(t, runtime_arch);
            &&& t.kind != "llvm"@ <==> f == Some(RuntimeFault::UnsupportedKind { kind: t.kind })
            &&& t.kind == "llvm"@ && t.mtriple.len() == 0 ==> f is None
            &&& t.kind == "llvm"@ && t.mtriple.len() > 0 && model is None ==> f == Some(
                RuntimeFault::UnsupportedTriple { mtriple: t.mtriple },
            )
            &&& t.kind == "llvm"@ && t.mtriple.len() > 0 && model is Some && runtime is None ==> f
                == Some(RuntimeFault::UnsupportedArch { arch: runtime_arch })
            &&& t.kind == "llvm"@ && t.mtriple.len() > 0 && model is Some && runtime is Some
                && model != runtime ==> f == Some(
                RuntimeFault::ArchMismatch { mtriple: t.mtriple, arch: runtime->0 },
            )
            &&& t.kind == "llvm"@ && t.mtriple.len() > 0 && model is Some && model == runtime
                ==> f is None
        }),
{
}

/// What is found wrong with the identity of a model: the runtime's own version and
/// revision first, then the model's version, then its revision. A model passes
/// exactly if it has both from a runtime that has them.
pub proof fn identity_faults_are_found_in_order(
    m: MetadataView,
    version: Seq<char>,
    commit: Seq<char>,
)
    ensures
        ({
            let known_version = version.len() > 0 && version != "unknown"@;
            let known_commit = commit.len() > 0 && commit != "unknown"@;
            let f = identity_fault(m, version, commit);
            &&& f is None <==> known_version && known_commit && m.tvm_version == version
                && m.tvm_git_commit == commit
            &&& !known_version ==> f == Some(RuntimeFault::NoRuntimeVersion)
            &&& known_version && !known_commit ==> f == Some(RuntimeFault::NoRuntimeRevision)
            &&& known_version && known_commit && m.tvm_version.len() == 0 ==> f == Some(
                RuntimeFault::NoModelVersion,
            )
            &&& known_version && known_commit && m.tvm_version.len() > 0 && m.tvm_version
                != version ==> f == Some(
                RuntimeFault::VersionMismatch { model: m.tvm_version, runtime: version },
            )
            &&& known_version && known_commit && m.tvm_version == version
                && m.tvm_git_commit.len() == 0 ==> f == Some(RuntimeFault::NoModelRevision)
            &&& known_version && known_commit && m.tvm_version == version
                && m.tvm_git_commit.len() > 0 && m.tvm_git_commit != commit ==> f == Some(
                RuntimeFault::RevisionMismatch { model: m.tvm_git_commit, runtime: commit },
            )
        }),
{
}

/// A target description counts without the white space around it: an empty one is a
/// fault, one that starts with a brace counts as what the JSON parser makes of it,
/// and any other one as a command line. The identity comes before the target.
pub proof fn targets_count_in_their_form<P: Fn(&str) -> Result<LlvmTarget, String>>(
    m: MetadataView,
    version: Seq<char>,
    commit: Seq<char>,
    arch: Seq<char>,
    parse: P,
    fault: Option<RuntimeFault>,
)
    requires
        runtime_checked(m, version, commit, arch, parse, fault),
    ensures
        identity_fault(m, version, commit) is Some ==> fault == identity_fault(m, version, commit),
        identity_fault(m, version, commit) is None ==> {
            let text = trimmed(m.target);
            &&& text.len() == 0 ==> fault == Some(RuntimeFault::NoTarget)
            &&& text.len() > 0 && text[0] != '{' ==> fault == target_fault(
                plain_target(text),
                arch,
            )
            &&& text.len() > 0 && text[0] == '{' ==> exists|
                s: &str,
                parsed: Result<LlvmTarget, String>,
            |
                s@ == text && #[trigger] call_ensures(parse, (s,), parsed) && match parsed {
                    Ok(t) => fault == target_fault(t@, arch),
                    Err(reason) => fault == Some(
                        RuntimeFault::InvalidTarget { target: text, reason: reason@ },
                    ),
                }
        },
{
    let text = trimmed(m.target);
    if identity_fault(m, version, commit) is None && text.len() > 0 && text[0] == '{' {
        assert(target_checked(m.target, arch, parse, fault));
    }
}

/// The messages of the faults name the values that do not fit.
pub proof fn messages_name_the_values(model: Seq<char>, runtime: Seq<char>)
    ensures
        fault_text(RuntimeFault::NoRuntimeVersion) == "serve image has no embedded TVM version"@,
        fault_text(RuntimeFault::NoRuntimeRevision)
            == "serve image has no embedded TVM source revision"@,
        fault_text(RuntimeFault::NoModelVersion) == "model metadata has no tvm_version"@,
        fault_text(RuntimeFault::VersionMismatch { model, runtime }) == "model TVM version "@
            + quoted(model) + " is incompatible with serve image version "@ + quoted(runtime),
        fault_text(RuntimeFault::NoModelRevision)
            == "model metadata has no tvm_git_commit; recompile it with an attested toolkit"@,
        fault_text(RuntimeFault::RevisionMismatch { model, runtime }) == "model TVM revision "@
            + quoted(model) + " is incompatible with serve image revision "@ + quoted(runtime),
        fault_text(RuntimeFault::NoTarget) == "model metadata has no target"@,
        fault_text(RuntimeFault::InvalidTarget { target: model, reason: runtime })
            == "invalid TVM target "@ + quoted(model) + ": "@ + runtime,
        fault_text(RuntimeFault::UnsupportedKind { kind: model })
            == "serve image supports LLVM CPU models, got target kind "@ + quoted(model),
        fault_text(RuntimeFault::UnsupportedTriple { mtriple: model })
            == "unsupported LLVM target triple "@ + quoted(model),
        fault_text(RuntimeFault::UnsupportedArch { arch: model })
            == "unsupported serve image architecture "@ + quoted(model),
        fault_text(RuntimeFault::ArchMismatch { mtriple: model, arch: runtime })
            == "model target triple "@ + quoted(model)
            + " is incompatible with runtime architecture "@ + quoted(runtime),
        start_fault_text(StartFault::UnsupportedDtype { name: model, dtype: runtime })
            == "model tensor '"@ + model + "' declares dtype '"@ + runtime
            + "': not supported by this serve image (FP16 and others are deferred)"@,
        start_fault_text(StartFault::WorkerGone) == "a worker thread did not start"@,
        start_fault_text(StartFault::LoadFailed(model)) == "model load failed: "@ + model,
        forall|f: RuntimeFault|
            #[trigger]
            start_fault_text(StartFault::Runtime(f)) == fault_text(f),
{
}

/// A tensor can be served exactly if its data type is one of the ten that are known,
/// or is left empty.
pub proof fn these_data_types_can_be_served(t: TensorSpecView)
    ensures
        servable(t) <==> (t.dtype.len() == 0 || t.dtype == "float32"@ || t.dtype == "float64"@
            || t.dtype == "int8"@ || t.dtype == "int16"@ || t.dtype == "int32"@ || t.dtype
            == "int64"@ || t.dtype == "uint8"@ || t.dtype == "uint16"@ || t.dtype == "uint32"@
            || t.dtype == "uint64"@),
{
    crate::laws::tensors::tvm_names_are_published_as_these(t.dtype);
}

/// The data types are refused for the first tensor, inputs before outputs, that
/// cannot be served, by its name and data type; and only if there is one.
pub proof fn the_first_unservable_tensor_is_named(m: MetadataView)
    ensures
        match dtype_fault(m) {
            None => forall|i: int|
                0 <= i < (m.inputs + m.outputs).len() ==> servable(
                    #[trigger] (m.inputs + m.outputs)[i],
                ),
            Some(f) => exists|i: int|
                0 <= i < (m.inputs + m.outputs).len() && !servable(
                    #[trigger] (m.inputs + m.outputs)[i],
                ) && f == (StartFault::UnsupportedDtype {
                    name: (m.inputs + m.outputs)[i].name,
                    dtype: (m.inputs + m.outputs)[i].dtype,
                }) && forall|k: int|
                    0 <= k < i ==> servable(#[trigger] (m.inputs + m.outputs)[k]),
        },
{
    search(m.inputs + m.outputs);
}

proof fn search(tensors: Seq<TensorSpecView>)
    ensures
        match first_unservable(tensors) {
            None => forall|i: int| 0 <= i < tensors.len() ==> servable(#[trigger] tensors[i]),
            Some(t) => exists|i: int|
                0 <= i < tensors.len() && !servable(#[trigger] tensors[i]) && t == tensors[i]
                    && forall|k: int| 0 <= k < i ==> servable(#[trigger] tensors[k]),
        },
    decreases tensors.len(),
{
    if tensors.len() > 0 {
        if servable(tensors[0]) {
            let rest = tensors.drop_first();
            search(rest);
            assert(forall|i: int| 0 <= i < rest.len() ==> rest[i] == tensors[i + 1]);
            match first_unservable(rest) {
                None => {
                    assert forall|i: int| 0 <= i < tensors.len() implies servable(
                        #[trigger] tensors[i],
                    ) by {
                        if i > 0 {
                            assert(servable(rest[i - 1]));
                        }
                    }
                },
                Some(t) => {
                    let i = choose|i: int|
                        0 <= i < rest.len() && !servable(#[trigger] rest[i]) && t == rest[i]
                            && forall|k: int| 0 <= k < i ==> servable(#[trigger] rest[k]);
                    assert(!servable(tensors[i + 1]));
                    assert forall|k: int| 0 <= k < i + 1 implies servable(
                        #[trigger] tensors[k],
                    ) by {
                        if k > 0 {
                            assert(servable(rest[k - 1]));
                        }
                    }
                },
            }
        } else {
            assert(!servable(tensors[0]));
        }
    }
}

/// A model is accepted exactly if it fits the runtime and every tensor can be
/// served; a model that does not fit the runtime is refused for that.
pub proof fn models_are_checked_against_the_runtime_first<
    P: Fn(&str) -> Result<LlvmTarget, String>,
>(
    m: MetadataView,
    version: Seq<char>,
    commit: Seq<char>,
    arch: Seq<char>,
    parse: P,
    fault: Option<StartFault>,
)
    requires
        model_checked(m, version, commit, arch, parse, fault),
    ensures
        fault matches Some(StartFault::Runtime(f)) ==> runtime_checked(
            m,
            version,
            commit,
            arch,
            parse,
            Some(f),
        ),
        !(fault matches Some(StartFault::Runtime(_))) ==> runtime_checked(
            m,
            version,
            commit,
            arch,
            parse,
            None,
        ),
        fault is None ==> forall|i: int|
            0 <= i < (m.inputs + m.outputs).len() ==> servable(
                #[trigger] (m.inputs + m.outputs)[i],
            ),
        identity_fault(m, version, commit) matches Some(f) ==> fault == Some(
            StartFault::Runtime(f),
        ),
        fault is Some && !(fault matches Some(StartFault::Runtime(_))) ==> fault matches Some(
            StartFault::UnsupportedDtype { .. },
        ),
{
    the_first_unservable_tensor_is_named(m);
}

/// A model that fits the runtime, and whose tensors can all be served, is accepted.
pub proof fn models_that_fit_are_accepted<P: Fn(&str) -> Result<LlvmTarget, String>>(
    m: MetadataView,
    version: Seq<char>,
    commit: Seq<char>,
    arch: Seq<char>,
    parse: P,
)
    requires
        runtime_checked(m, version, commit, arch, parse, None),
        forall|i: int|
            0 <= i < (m.inputs + m.outputs).len() ==> servable(#[trigger] (m.inputs + m.outputs)[i]),
    ensures
        model_checked(m, version, commit, arch, parse, None),
{
    the_first_unservable_tensor_is_named(m);
}

/// A loaded worker counts one further; any other report fails the startup with the
/// reason that it gives.
pub proof fn reports_count_or_fail(workers: nat, loaded: nat, report: WorkerReport)
    requires
        loaded < workers,
    ensures
        report is Loaded && loaded + 1 < workers ==> after_report(workers, loaded, report)
            == PoolState::Waiting(loaded + 1),
        report is Loaded && loaded + 1 == workers ==> after_report(workers, loaded, report)
            == PoolState::Ready,
        report matches WorkerReport::LoadFailed(m) ==> after_report(workers, loaded, report)
            == PoolState::Failed(StartFault::LoadFailed(m@)),
        report is Gone ==> after_report(workers, loaded, report) == PoolState::Failed(
            StartFault::WorkerGone,
        ),
{
}

/// What is published of a model over REST: its name, version, platform and tensors,
/// each tensor with its name, shape and v2 data type. A tensor with scales also has
/// its quantization parameters, and no other tensor has any.
pub proof fn rest_publishes_the_signature(model_name: Seq<char>, m: MetadataView, k: int)
    ensures
        ({
            let p = published_model(model_name, m);
            &&& p.name == model_name
            &&& p.versions == seq!["1"@]
            &&& p.platform == "tvm_relax"@
            &&& p.inputs.len() == m.inputs.len()
            &&& p.outputs.len() == m.outputs.len()
            &&& 0 <= k < m.inputs.len() ==> tells_of(p.inputs[k], m.inputs[k])
            &&& 0 <= k < m.outputs.len() ==> tells_of(p.outputs[k], m.outputs[k])
        }),
{
}

/// Whether a description tells of a tensor what REST tells.
pub open spec fn tells_of(p: TensorMetadataView, t: TensorSpecView) -> bool {
    &&& p.name == t.name
    &&& p.shape == t.shape
    &&& p.datatype == published_datatype(t.dtype)
    &&& p.parameters is Some <==> t.scale.len() > 0
    &&& p.parameters matches Some(q) ==> q.scale == t.scale && q.zero_point == t.zero_point
        && q.quantized_dimension == t.quantized_dimension
}

/// What is published of a model over gRPC: the same, without parameters.
pub proof fn grpc_publishes_the_signature(model_name: Seq<char>, m: MetadataView, k: int)
    ensures
        ({
            let p = model_message(model_name, m);
            &&& p.name == model_name
            &&& p.versions == seq!["1"@]
            &&& p.platform == "tvm_relax"@
            &&& p.inputs.len() == m.inputs.len()
            &&& p.outputs.len() == m.outputs.len()
            &&& 0 <= k < m.inputs.len() ==> p.inputs[k].name == m.inputs[k].name
                && p.inputs[k].shape == m.inputs[k].shape && p.inputs[k].datatype
                == published_datatype(m.inputs[k].dtype) && p.inputs[k].parameters is None
            &&& 0 <= k < m.outputs.len() ==> p.outputs[k].name == m.outputs[k].name
                && p.outputs[k].shape == m.outputs[k].shape && p.outputs[k].datatype
                == published_datatype(m.outputs[k].dtype) && p.outputs[k].parameters is None
        }),
{
}

/// The contents of the model's own types are their fields.
pub proof fn model_contents_are_the_fields(
    t: TensorSpec,
    list: Seq<TensorSpec>,
    m: Metadata,
    target: LlvmTarget,
)
    ensures
        t@.name == t.name@,
        t@.shape == t.shape@,
        t@.dtype == t.dtype@,
        t@.scale == t.scale@,
        t@.zero_point == t.zero_point@,
        t@.quantized_dimension == t.quantized_dimension,
        spec_views(list).len() == list.len(),
        forall|i: int| 0 <= i < list.len() ==> #[trigger] spec_views(list)[i] == list[i]@,
        m@.entry == m.entry@,
        m@.inputs == spec_views(m.inputs@),
        m@.outputs == spec_views(m.outputs@),
        m@.target == m.target@,
        m@.tvm_version == m.tvm_version@,
        m@.tvm_git_commit == m.tvm_git_commit@,
        target@.kind == target.kind@,
        target@.mtriple == target.mtriple@,
{
}

/// The contents of the published types are their fields.
pub proof fn published_contents_are_the_fields(
    q: Quantization,
    t: TensorMetadata,
    list: Seq<TensorMetadata>,
    m: ModelMetadata,
    s: ServerMetadata,
)
    ensures
        q@.scale == q.scale@,
        q@.zero_point == q.zero_point@,
        q@.quantized_dimension == q.quantized_dimension,
        t@.name == t.name@,
        t@.datatype == t.datatype@,
        t@.shape == t.shape@,
        t.parameters is None <==> t@.parameters is None,
        t.parameters matches Some(p) ==> t@.parameters == Some(p@),
        metadata_views(list).len() == list.len(),
        forall|i: int| 0 <= i < list.len() ==> #[trigger] metadata_views(list)[i] == list[i]@,
        m@.name == m.name@,
        m@.versions == texts(m.versions@),
        m@.platform == m.platform@,
        m@.inputs == metadata_views(m.inputs@),
        m@.outputs == metadata_views(m.outputs@),
        s@.name == s.name@,
        s@.version == s.version@,
        s@.extensions == texts(s.extensions@),
{
}

/// The contents of the errors are their fields.
pub proof fn error_contents_are_the_fields(
    e: RuntimeError,
    s: StartError,
    r: Result<(), RuntimeError>,
    q: Result<(), StartError>,
)
    ensures
        fault_of(r) is None <==> r is Ok,
        r matches Err(e) ==> fault_of(r) == Some(e@),
        start_fault_of(q) is None <==> q is Ok,
        q matches Err(e) ==> start_fault_of(q) == Some(e@),
        match e {
            RuntimeError::NoRuntimeVersion => e@ == RuntimeFault::NoRuntimeVersion,
            RuntimeError::NoRuntimeRevision => e@ == RuntimeFault::NoRuntimeRevision,
            RuntimeError::NoModelVersion => e@ == RuntimeFault::NoModelVersion,
            RuntimeError::VersionMismatch { model, runtime } => e@
                == (RuntimeFault::VersionMismatch { model: model@, runtime: runtime@ }),
            RuntimeError::NoModelRevision => e@ == RuntimeFault::NoModelRevision,
            RuntimeError::RevisionMismatch { model, runtime } => e@
                == (RuntimeFault::RevisionMismatch { model: model@, runtime: runtime@ }),
            RuntimeError::NoTarget => e@ == RuntimeFault::NoTarget,
            RuntimeError::InvalidTarget { target, reason } => e@ == (RuntimeFault::InvalidTarget {
                target: target@,
                reason: reason@,
            }),
            RuntimeError::UnsupportedKind { kind } => e@ == (RuntimeFault::UnsupportedKind {
                kind: kind@,
            }),
            RuntimeError::UnsupportedTriple { mtriple } => e@ == (RuntimeFault::UnsupportedTriple {
                mtriple: mtriple@,
            }),
            RuntimeError::UnsupportedArch { arch } => e@ == (RuntimeFault::UnsupportedArch {
                arch: arch@,
            }),
            RuntimeError::ArchMismatch { mtriple, arch } => e@ == (RuntimeFault::ArchMismatch {
                mtriple: mtriple@,
                arch: arch@,
            }),
        },
        match s {
            StartError::Runtime(e) => s@ == StartFault::Runtime(e@),
            StartError::UnsupportedDtype { name, dtype } => s@ == (StartFault::UnsupportedDtype {
                name: name@,
                dtype: dtype@,
            }),
            StartError::WorkerGone => s@ == StartFault::WorkerGone,
            StartError::LoadFailed(m) => s@ == StartFault::LoadFailed(m@),
        },
{
}

} // verus!
