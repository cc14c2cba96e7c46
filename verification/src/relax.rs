//! The `metadata.json` sidecar of a compiled model, and the checks that decide
//! whether this runtime can run the model.
use crate::text::{
    before_dash, debug_text, first_dash_part, lower_case, quoted, same_text, split_words,
    strip_prefix, to_lower, trim, trimmed, words_of,
};
use vstd::prelude::*;

verus! {

/// An error of the TVM runtime, flattened into a text.
#[derive(Debug)]
pub enum Error {
    Tvm(String),
}

impl Error {
    /// The text to show.
    pub fn message(&self) -> (r: String)
        ensures
            self matches Error::Tvm(m) && r@ == "tvm-ffi: "@ + m@,
    {
        match self {
            Error::Tvm(m) => {
                let mut r = "tvm-ffi: ".to_string();
                r.append(m.as_str());
                r
            },
        }
    }
}

/// The data type of a tensor that declares none.
pub fn default_dtype() -> (r: String)
    ensures
        r@ == "float32"@,
{
    "float32".to_string()
}

/// One input or output tensor as `metadata.json` describes it.
#[derive(Debug)]
pub struct TensorSpec {
    pub name: String,
    pub shape: Vec<i64>,
    /// TVM data type, `float32` unless declared.
    pub dtype: String,
    /// Affine quantization scales, by their bits; empty for a tensor that is not
    /// quantized. Per-axis quantization has more than one entry, indexed by
    /// `quantized_dimension`.
    pub scale: Vec<u64>,
    pub zero_point: Vec<i64>,
    pub quantized_dimension: Option<i64>,
}

/// The contents of a [`TensorSpec`].
#[verifier::ext_equal]
pub struct TensorSpecView {
    pub name: Seq<char>,
    pub shape: Seq<i64>,
    pub dtype: Seq<char>,
    pub scale: Seq<u64>,
    pub zero_point: Seq<i64>,
    pub quantized_dimension: Option<i64>,
}

impl View for TensorSpec {
    type V = TensorSpecView;

    open spec fn view(&self) -> TensorSpecView {
        TensorSpecView {
            name: self.name@,
            shape: self.shape@,
            dtype: self.dtype@,
            scale: self.scale@,
            zero_point: self.zero_point@,
            quantized_dimension: self.quantized_dimension,
        }
    }
}

impl Clone for TensorSpec {
    fn clone(&self) -> (r: TensorSpec)
        ensures
            r@ == self@,
    {
        let r = TensorSpec {
            name: self.name.clone(),
            shape: self.shape.clone(),
            dtype: self.dtype.clone(),
            scale: self.scale.clone(),
            zero_point: self.zero_point.clone(),
            quantized_dimension: self.quantized_dimension,
        };
        assert(r@ =~= self@);
        r
    }
}

/// The contents of a list of tensor descriptions.
pub open spec fn spec_views(v: Seq<TensorSpec>) -> Seq<TensorSpecView> {
    v.map_values(|t: TensorSpec| t@)
}

/// The `metadata.json` sidecar of a model: the entry function, the signature, and
/// what the model was compiled with and for.
#[derive(Debug)]
pub struct Metadata {
    pub entry: String,
    pub inputs: Vec<TensorSpec>,
    pub outputs: Vec<TensorSpec>,
    pub target: String,
    pub tvm_version: String,
    pub tvm_git_commit: String,
}

/// The contents of a [`Metadata`].
#[verifier::ext_equal]
pub struct MetadataView {
    pub entry: Seq<char>,
    pub inputs: Seq<TensorSpecView>,
    pub outputs: Seq<TensorSpecView>,
    pub target: Seq<char>,
    pub tvm_version: Seq<char>,
    pub tvm_git_commit: Seq<char>,
}

impl View for Metadata {
    type V = MetadataView;

    open spec fn view(&self) -> MetadataView {
        MetadataView {
            entry: self.entry@,
            inputs: spec_views(self.inputs@),
            outputs: spec_views(self.outputs@),
            target: self.target@,
            tvm_version: self.tvm_version@,
            tvm_git_commit: self.tvm_git_commit@,
        }
    }
}

impl Clone for Metadata {
    fn clone(&self) -> (r: Metadata)
        ensures
            r@ == self@,
    {
        let r = Metadata {
            entry: self.entry.clone(),
            inputs: self.inputs.clone(),
            outputs: self.outputs.clone(),
            target: self.target.clone(),
            tvm_version: self.tvm_version.clone(),
            tvm_git_commit: self.tvm_git_commit.clone(),
        };
        assert(r@ =~= self@);
        r
    }
}

/// What a target description says about code generation.
#[derive(Debug)]
pub struct LlvmTarget {
    pub kind: String,
    /// The LLVM target triple; empty when the description has none.
    pub mtriple: String,
}

/// The contents of an [`LlvmTarget`].
#[verifier::ext_equal]
pub struct TargetView {
    pub kind: Seq<char>,
    pub mtriple: Seq<char>,
}

impl View for LlvmTarget {
    type V = TargetView;

    open spec fn view(&self) -> TargetView {
        TargetView { kind: self.kind@, mtriple: self.mtriple@ }
    }
}

/// Why a model cannot run on this runtime.
#[derive(Debug)]
pub enum RuntimeError {
    NoRuntimeVersion,
    NoRuntimeRevision,
    NoModelVersion,
    VersionMismatch { model: String, runtime: String },
    NoModelRevision,
    RevisionMismatch { model: String, runtime: String },
    NoTarget,
    InvalidTarget { target: String, reason: String },
    UnsupportedKind { kind: String },
    UnsupportedTriple { mtriple: String },
    UnsupportedArch { arch: String },
    ArchMismatch { mtriple: String, arch: String },
}

/// The contents of a [`RuntimeError`].
#[verifier::ext_equal]
pub enum RuntimeFault {
    NoRuntimeVersion,
    NoRuntimeRevision,
    NoModelVersion,
    VersionMismatch { model: Seq<char>, runtime: Seq<char> },
    NoModelRevision,
    RevisionMismatch { model: Seq<char>, runtime: Seq<char> },
    NoTarget,
    InvalidTarget { target: Seq<char>, reason: Seq<char> },
    UnsupportedKind { kind: Seq<char> },
    UnsupportedTriple { mtriple: Seq<char> },
    UnsupportedArch { arch: Seq<char> },
    ArchMismatch { mtriple: Seq<char>, arch: Seq<char> },
}

impl View for RuntimeError {
    type V = RuntimeFault;

    open spec fn view(&self) -> RuntimeFault {
        match self {
            RuntimeError::NoRuntimeVersion => RuntimeFault::NoRuntimeVersion,
            RuntimeError::NoRuntimeRevision => RuntimeFault::NoRuntimeRevision,
            RuntimeError::NoModelVersion => RuntimeFault::NoModelVersion,
            RuntimeError::VersionMismatch { model, runtime } => RuntimeFault::VersionMismatch {
                model: model@,
                runtime: runtime@,
            },
            RuntimeError::NoModelRevision => RuntimeFault::NoModelRevision,
            RuntimeError::RevisionMismatch { model, runtime } => RuntimeFault::RevisionMismatch {
                model: model@,
                runtime: runtime@,
            },
            RuntimeError::NoTarget => RuntimeFault::NoTarget,
            RuntimeError::InvalidTarget { target, reason } => RuntimeFault::InvalidTarget {
                target: target@,
                reason: reason@,
            },
            RuntimeError::UnsupportedKind { kind } => RuntimeFault::UnsupportedKind {
                kind: kind@,
            },
            RuntimeError::UnsupportedTriple { mtriple } => RuntimeFault::UnsupportedTriple {
                mtriple: mtriple@,
            },
            RuntimeError::UnsupportedArch { arch } => RuntimeFault::UnsupportedArch {
                arch: arch@,
            },
            RuntimeError::ArchMismatch { mtriple, arch } => RuntimeFault::ArchMismatch {
                mtriple: mtriple@,
                arch: arch@,
            },
        }
    }
}

/// The text that explains a fault.
pub open spec fn fault_text(f: RuntimeFault) -> Seq<char> {
    match f {
        RuntimeFault::NoRuntimeVersion => "serve image has no embedded TVM version"@,
        RuntimeFault::NoRuntimeRevision => "serve image has no embedded TVM source revision"@,
        RuntimeFault::NoModelVersion => "model metadata has no tvm_version"@,
        RuntimeFault::VersionMismatch { model, runtime } => "model TVM version "@ + quoted(model)
            + " is incompatible with serve image version "@ + quoted(runtime),
        RuntimeFault::NoModelRevision =>
            "model metadata has no tvm_git_commit; recompile it with an attested toolkit"@,
        RuntimeFault::RevisionMismatch { model, runtime } => "model TVM revision "@ + quoted(model)
            + " is incompatible with serve image revision "@ + quoted(runtime),
        RuntimeFault::NoTarget => "model metadata has no target"@,
        RuntimeFault::InvalidTarget { target, reason } => "invalid TVM target "@ + quoted(target)
            + ": "@ + reason,
        RuntimeFault::UnsupportedKind { kind } =>
            "serve image supports LLVM CPU models, got target kind "@ + quoted(kind),
        RuntimeFault::UnsupportedTriple { mtriple } => "unsupported LLVM target triple "@ + quoted(
            mtriple,
        ),
        RuntimeFault::UnsupportedArch { arch } => "unsupported serve image architecture "@ + quoted(
            arch,
        ),
        RuntimeFault::ArchMismatch { mtriple, arch } => "model target triple "@ + quoted(mtriple)
            + " is incompatible with runtime architecture "@ + quoted(arch),
    }
}

/// Puts a text with a quoted string behind it.
fn with_quoted(prefix: &str, s: &str) -> (r: String)
    ensures
        r@ == prefix@ + quoted(s@),
{
    let mut r = prefix.to_string();
    r.append(debug_text(s).as_str());
    r
}

impl RuntimeError {
    /// The text to show.
    pub fn message(&self) -> (r: String)
        ensures
            r@ == fault_text(self@),
    {
        match self {
            RuntimeError::NoRuntimeVersion => "serve image has no embedded TVM version".to_string(),
            RuntimeError::NoRuntimeRevision =>
                "serve image has no embedded TVM source revision".to_string(),
            RuntimeError::NoModelVersion => "model metadata has no tvm_version".to_string(),
            RuntimeError::VersionMismatch { model, runtime } => {
                let mut r = with_quoted("model TVM version ", model.as_str());
                r.append(" is incompatible with serve image version ");
                r.append(debug_text(runtime.as_str()).as_str());
                r
            },
            RuntimeError::NoModelRevision =>
                "model metadata has no tvm_git_commit; recompile it with an attested toolkit".to_string(),
            RuntimeError::RevisionMismatch { model, runtime } => {
                let mut r = with_quoted("model TVM revision ", model.as_str());
                r.append(" is incompatible with serve image revision ");
                r.append(debug_text(runtime.as_str()).as_str());
                r
            },
            RuntimeError::NoTarget => "model metadata has no target".to_string(),
            RuntimeError::InvalidTarget { target, reason } => {
                let mut r = with_quoted("invalid TVM target ", target.as_str());
                r.append(": ");
                r.append(reason.as_str());
                r
            },
            RuntimeError::UnsupportedKind { kind } => with_quoted(
                "serve image supports LLVM CPU models, got target kind ",
                kind.as_str(),
            ),
            RuntimeError::UnsupportedTriple { mtriple } => with_quoted(
                "unsupported LLVM target triple ",
                mtriple.as_str(),
            ),
            RuntimeError::UnsupportedArch { arch } => with_quoted(
                "unsupported serve image architecture ",
                arch.as_str(),
            ),
            RuntimeError::ArchMismatch { mtriple, arch } => {
                let mut r = with_quoted("model target triple ", mtriple.as_str());
                r.append(" is incompatible with runtime architecture ");
                r.append(debug_text(arch.as_str()).as_str());
                r
            },
        }
    }
}

/// The fault that a check ended with; `None` where it passed.
pub open spec fn fault_of(r: Result<(), RuntimeError>) -> Option<RuntimeFault> {
    match r {
        Ok(()) => None,
        Err(e) => Some(e@),
    }
}

/// The one name under which the spellings of a processor architecture are known.
/// Upper and lower case are the same; every name that starts with `arm` and is not
/// a 64-bit one is 32-bit ARM.
pub open spec fn canonical(arch: Seq<char>) -> Option<Seq<char>> {
    let a = lower_case(arch);
    if a == "x86_64"@ || a == "amd64"@ {
        Some("x86_64"@)
    } else if a == "aarch64"@ || a == "arm64"@ {
        Some("aarch64"@)
    } else if "arm"@.is_prefix_of(a) {
        Some("arm"@)
    } else if a == "riscv64"@ {
        Some("riscv64"@)
    } else if a == "powerpc64"@ || a == "powerpc64le"@ || a == "ppc64le"@ {
        Some("powerpc64"@)
    } else if a == "s390x"@ {
        Some("s390x"@)
    } else {
        None
    }
}

/// Looks up the canonical name of an architecture.
pub fn canonical_arch(arch: &str) -> (r: Option<&'static str>)
    ensures
        match r {
            Some(name) => canonical(arch@) == Some(name@),
            None => canonical(arch@) is None,
        },
{
    let lower = to_lower(arch);
    let a: &str = lower.as_str();
    if same_text(a, "x86_64") || same_text(a, "amd64") {
        Some("x86_64")
    } else if same_text(a, "aarch64") || same_text(a, "arm64") {
        Some("aarch64")
    } else if strip_prefix(a, "arm").is_some() {
        Some("arm")
    } else if same_text(a, "riscv64") {
        Some("riscv64")
    } else if same_text(a, "powerpc64") || same_text(a, "powerpc64le") || same_text(a, "ppc64le") {
        Some("powerpc64")
    } else if same_text(a, "s390x") {
        Some("s390x")
    } else {
        None
    }
}

/// The value of the first `-mtriple=` field from word `i` on; empty if there is
/// none.
pub open spec fn mtriple_field(words: Seq<Seq<char>>, i: int) -> Seq<char>
    decreases words.len() - i,
{
    if i < 0 || i >= words.len() {
        Seq::empty()
    } else if "-mtriple="@.is_prefix_of(words[i]) {
        words[i].skip("-mtriple="@.len() as int)
    } else {
        mtriple_field(words, i + 1)
    }
}

/// A target in command-line form, such as `llvm -mtriple=x86_64-linux-gnu`: the
/// kind, then fields.
pub open spec fn plain_target(s: Seq<char>) -> TargetView {
    let words = words_of(s);
    TargetView {
        kind: if words.len() > 0 {
            words[0]
        } else {
            Seq::empty()
        },
        mtriple: mtriple_field(words, 1),
    }
}

/// Reads a target in command-line form.
pub fn parse_plain_target(s: &str) -> (r: LlvmTarget)
    ensures
        r@ == plain_target(s@),
{
    let words = split_words(s);
    let ghost all = words_of(s@);
    assert(forall|j: int| 0 <= j < words@.len() ==> all[j] == #[trigger] words@[j]@);
    let kind = if words.len() > 0 {
        words[0].clone()
    } else {
        String::new()
    };
    let mut i: usize = 1;
    while i < words.len()
        invariant
            1 <= i,
            all == words_of(s@),
            all.len() == words@.len(),
            forall|j: int| 0 <= j < words@.len() ==> all[j] == #[trigger] words@[j]@,
            kind@ == plain_target(s@).kind,
            mtriple_field(all, 1) == mtriple_field(all, i as int),
        decreases words@.len() - i,
    {
        if let Some(mtriple) = strip_prefix(words[i].as_str(), "-mtriple=") {
            return LlvmTarget { kind, mtriple };
        }
        i = i + 1;
    }
    LlvmTarget { kind, mtriple: String::new() }
}

/// What is wrong with a target, for a runtime of a given architecture. A target
/// without a triple runs anywhere.
pub open spec fn target_fault(t: TargetView, runtime_arch: Seq<char>) -> Option<RuntimeFault> {
    if t.kind != "llvm"@ {
        Some(RuntimeFault::UnsupportedKind { kind: t.kind })
    } else if t.mtriple.len() == 0 {
        None
    } else {
        match (canonical(before_dash(t.mtriple)), canonical(runtime_arch)) {
            (None, _) => Some(RuntimeFault::UnsupportedTriple { mtriple: t.mtriple }),
            (Some(_), None) => Some(RuntimeFault::UnsupportedArch { arch: runtime_arch }),
            (Some(model), Some(runtime)) => if model == runtime {
                None
            } else {
                Some(RuntimeFault::ArchMismatch { mtriple: t.mtriple, arch: runtime })
            },
        }
    }
}

/// Decides whether a runtime of a given architecture can run code for a target.
pub fn check_llvm_target(target: LlvmTarget, runtime_arch: &str) -> (r: Result<(), RuntimeError>)
    ensures
        fault_of(r) == target_fault(target@, runtime_arch@),
{
    if !same_text(target.kind.as_str(), "llvm") {
        return Err(RuntimeError::UnsupportedKind { kind: target.kind });
    }
    if target.mtriple.as_str().is_empty() {
        return Ok(());
    }
    let first = first_dash_part(target.mtriple.as_str());
    let target_arch = match canonical_arch(first.as_str()) {
        Some(a) => a,
        None => return Err(RuntimeError::UnsupportedTriple { mtriple: target.mtriple }),
    };
    let arch = match canonical_arch(runtime_arch) {
        Some(a) => a,
        None => return Err(RuntimeError::UnsupportedArch { arch: runtime_arch.to_string() }),
    };
    if !same_text(target_arch, arch) {
        return Err(
            RuntimeError::ArchMismatch { mtriple: target.mtriple, arch: arch.to_string() },
        );
    }
    Ok(())
}

/// What is wrong with a target in JSON form, given what came of parsing it.
pub open spec fn json_target_fault(
    text: Seq<char>,
    parsed: Result<LlvmTarget, String>,
    runtime_arch: Seq<char>,
) -> Option<RuntimeFault> {
    match parsed {
        Ok(t) => target_fault(t@, runtime_arch),
        Err(reason) => Some(RuntimeFault::InvalidTarget { target: text, reason: reason@ }),
    }
}

/// The outcome of checking a target description: nothing to check is a fault, a
/// description that starts with a brace goes through the JSON parser `parse`, and
/// any other one is read in command-line form.
pub open spec fn target_checked<P: Fn(&str) -> Result<LlvmTarget, String>>(
    target_text: Seq<char>,
    runtime_arch: Seq<char>,
    parse: P,
    fault: Option<RuntimeFault>,
) -> bool {
    let text = trimmed(target_text);
    if text.len() == 0 {
        fault == Some(RuntimeFault::NoTarget)
    } else if text[0] == '{' {
        exists|s: &str, parsed: Result<LlvmTarget, String>|
            s@ == text && #[trigger] call_ensures(parse, (s,), parsed) && fault
                == json_target_fault(text, parsed, runtime_arch)
    } else {
        fault == target_fault(plain_target(text), runtime_arch)
    }
}

/// Checks a model's target description against the architecture of the runtime.
/// `parse` reads the JSON form of a description.
pub fn validate_llvm_target<P: Fn(&str) -> Result<LlvmTarget, String>>(
    target_text: &str,
    runtime_arch: &str,
    parse: P,
) -> (r: Result<(), RuntimeError>)
    requires
        forall|s: &str| call_requires(parse, (s,)),
    ensures
        target_checked(target_text@, runtime_arch@, parse, fault_of(r)),
{
    let text = trim(target_text);
    let t: &str = text.as_str();
    if t.is_empty() {
        return Err(RuntimeError::NoTarget);
    }
    proof {
        reveal_strlit("{");
    }
    if strip_prefix(t, "{").is_some() {
        assert("{"@[0] == t@.take(1)[0]);
        match parse(t) {
            Ok(target) => check_llvm_target(target, runtime_arch),
            Err(reason) => {
                let r: Result<(), RuntimeError> = Err(
                    RuntimeError::InvalidTarget { target: t.to_string(), reason },
                );
                r
            },
        }
    } else {
        assert(t@[0] == '{' ==> "{"@ =~= t@.take(1));
        check_llvm_target(parse_plain_target(t), runtime_arch)
    }
}

/// What is wrong with the TVM identity of a model, for a runtime with a given
/// version and source revision.
pub open spec fn identity_fault(
    m: MetadataView,
    runtime_version: Seq<char>,
    runtime_commit: Seq<char>,
) -> Option<RuntimeFault> {
    if runtime_version.len() == 0 || runtime_version == "unknown"@ {
        Some(RuntimeFault::NoRuntimeVersion)
    } else if runtime_commit.len() == 0 || runtime_commit == "unknown"@ {
        Some(RuntimeFault::NoRuntimeRevision)
    } else if m.tvm_version.len() == 0 {
        Some(RuntimeFault::NoModelVersion)
    } else if m.tvm_version != runtime_version {
        Some(RuntimeFault::VersionMismatch { model: m.tvm_version, runtime: runtime_version })
    } else if m.tvm_git_commit.len() == 0 {
        Some(RuntimeFault::NoModelRevision)
    } else if m.tvm_git_commit != runtime_commit {
        Some(RuntimeFault::RevisionMismatch { model: m.tvm_git_commit, runtime: runtime_commit })
    } else {
        None
    }
}

/// The outcome of checking a model against a runtime: first the TVM identity, then
/// the target.
pub open spec fn runtime_checked<P: Fn(&str) -> Result<LlvmTarget, String>>(
    m: MetadataView,
    runtime_version: Seq<char>,
    runtime_commit: Seq<char>,
    runtime_arch: Seq<char>,
    parse: P,
    fault: Option<RuntimeFault>,
) -> bool {
    match identity_fault(m, runtime_version, runtime_commit) {
        Some(f) => fault == Some(f),
        None => target_checked(m.target, runtime_arch, parse, fault),
    }
}

impl Metadata {
    /// Checks that a model was compiled with the TVM version and source revision
    /// of this runtime, for a CPU of its architecture.
    pub fn validate_runtime<P: Fn(&str) -> Result<LlvmTarget, String>>(
        &self,
        runtime_version: &str,
        runtime_commit: &str,
        runtime_arch: &str,
        parse: P,
    ) -> (r: Result<(), RuntimeError>)
        requires
            forall|s: &str| call_requires(parse, (s,)),
        ensures
            runtime_checked(
                self@,
                runtime_version@,
                runtime_commit@,
                runtime_arch@,
                parse,
                fault_of(r),
            ),
    {
        if runtime_version.is_empty() || same_text(runtime_version, "unknown") {
            return Err(RuntimeError::NoRuntimeVersion);
        }
        if runtime_commit.is_empty() || same_text(runtime_commit, "unknown") {
            return Err(RuntimeError::NoRuntimeRevision);
        }
        if self.tvm_version.as_str().is_empty() {
            return Err(RuntimeError::NoModelVersion);
        }
        if !same_text(self.tvm_version.as_str(), runtime_version) {
            return Err(
                RuntimeError::VersionMismatch {
                    model: self.tvm_version.clone(),
                    runtime: runtime_version.to_string(),
                },
            );
        }
        if self.tvm_git_commit.as_str().is_empty() {
            return Err(RuntimeError::NoModelRevision);
        }
        if !same_text(self.tvm_git_commit.as_str(), runtime_commit) {
            return Err(
                RuntimeError::RevisionMismatch {
                    model: self.tvm_git_commit.clone(),
                    runtime: runtime_commit.to_string(),
                },
            );
        }
        validate_llvm_target(self.target.as_str(), runtime_arch, parse)
    }
}

/// A canonical architecture name stands for itself.
pub proof fn canonical_names_are_stable(arch: Seq<char>)
    ensures
        canonical(arch) matches Some(name) ==> canonical(name) == Some(name),
{
    reveal_strlit("x86_64");
    reveal_strlit("amd64");
    reveal_strlit("aarch64");
    reveal_strlit("arm64");
    reveal_strlit("arm");
    reveal_strlit("riscv64");
    reveal_strlit("powerpc64");
    reveal_strlit("powerpc64le");
    reveal_strlit("ppc64le");
    reveal_strlit("s390x");
    assert(lower_case("x86_64"@) =~= "x86_64"@);
    assert(lower_case("aarch64"@) =~= "aarch64"@);
    assert(lower_case("arm"@) =~= "arm"@);
    assert(lower_case("riscv64"@) =~= "riscv64"@);
    assert(lower_case("powerpc64"@) =~= "powerpc64"@);
    assert(lower_case("s390x"@) =~= "s390x"@);
    assert("arm"@.is_prefix_of("arm"@));
    assert("riscv64"@[0] != "arm"@[0]);
    assert("riscv64"@[0] != "aarch64"@[0]);
    assert("powerpc64"@[0] != "arm"@[0]);
    assert("s390x"@[0] != "arm"@[0]);
    assert("s390x"@[0] != "amd64"@[0]);
    assert("s390x"@[0] != "arm64"@[0]);
    assert("aarch64"@[1] != "arm"@[1]);
}

/// Architecture names are compared without regard to the case of letters.
pub proof fn canonical_names_ignore_case(arch: Seq<char>)
    ensures
        canonical(lower_case(arch)) == canonical(arch),
        forall|other: Seq<char>|
            lower_case(other) == lower_case(arch) ==> #[trigger] canonical(other) == canonical(
                arch,
            ),
{
    assert(lower_case(lower_case(arch)) =~= lower_case(arch));
}

/// A runtime without a known TVM version or source revision refuses every model.
pub proof fn unattested_runtime_refuses_every_model<P: Fn(&str) -> Result<LlvmTarget, String>>(
    m: MetadataView,
    runtime_version: Seq<char>,
    runtime_commit: Seq<char>,
    runtime_arch: Seq<char>,
    parse: P,
    fault: Option<RuntimeFault>,
)
    requires
        runtime_version.len() == 0 || runtime_version == "unknown"@ || runtime_commit.len() == 0
            || runtime_commit == "unknown"@,
        runtime_checked(m, runtime_version, runtime_commit, runtime_arch, parse, fault),
    ensures
        fault is Some,
{
}

/// A model that passes was compiled with exactly the runtime's TVM version and
/// source revision.
pub proof fn accepted_models_match_the_runtime<P: Fn(&str) -> Result<LlvmTarget, String>>(
    m: MetadataView,
    runtime_version: Seq<char>,
    runtime_commit: Seq<char>,
    runtime_arch: Seq<char>,
    parse: P,
)
    requires
        runtime_checked(m, runtime_version, runtime_commit, runtime_arch, parse, None),
    ensures
        m.tvm_version == runtime_version,
        m.tvm_git_commit == runtime_commit,
        trimmed(m.target).len() > 0,
{
}

/// A target passes exactly if it is an LLVM one and its triple, where it has one,
/// names the architecture of the runtime.
pub proof fn accepted_targets_fit_the_runtime(t: TargetView, runtime_arch: Seq<char>)
    ensures
        target_fault(t, runtime_arch) is None <==> {
            &&& t.kind == "llvm"@
            &&& t.mtriple.len() > 0 ==> {
                &&& canonical(runtime_arch) is Some
                &&& canonical(before_dash(t.mtriple)) == canonical(runtime_arch)
            }
        },
{
}

/// Whether `t` is what a trimmed target description says. `parse` reads the JSON
/// form.
pub open spec fn describes<P: Fn(&str) -> Result<LlvmTarget, String>>(
    text: Seq<char>,
    parse: P,
    t: TargetView,
) -> bool {
    if text.len() > 0 && text[0] == '{' {
        exists|s: &str, parsed: LlvmTarget|
            s@ == text && #[trigger] call_ensures(parse, (s,), Ok(parsed)) && parsed@ == t
    } else {
        t == plain_target(text)
    }
}

/// A model that passes was compiled for an LLVM target that, where it names an
/// architecture at all, names that of the runtime.
pub proof fn accepted_models_fit_the_cpu<P: Fn(&str) -> Result<LlvmTarget, String>>(
    m: MetadataView,
    runtime_version: Seq<char>,
    runtime_commit: Seq<char>,
    runtime_arch: Seq<char>,
    parse: P,
)
    requires
        runtime_checked(m, runtime_version, runtime_commit, runtime_arch, parse, None),
    ensures
        exists|t: TargetView| #[trigger]
            describes(trimmed(m.target), parse, t) && t.kind == "llvm"@ && (t.mtriple.len() > 0
                ==> canonical(runtime_arch) is Some && canonical(before_dash(t.mtriple))
                == canonical(runtime_arch)),
{
    let text = trimmed(m.target);
    if text[0] == '{' {
        let (s, parsed) = choose|s: &str, parsed: Result<LlvmTarget, String>|
            s@ == text && #[trigger] call_ensures(parse, (s,), parsed) && None::<RuntimeFault>
                == json_target_fault(text, parsed, runtime_arch);
        let t = parsed->Ok_0;
        assert(call_ensures(parse, (s,), Ok(t)));
        assert(describes(text, parse, t@));
    } else {
        assert(describes(text, parse, plain_target(text)));
    }
}

} // verus!
