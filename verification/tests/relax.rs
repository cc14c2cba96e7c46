use serde_json::Value;
use tvm_serve::relax::{
    canonical_arch, check_llvm_target, default_dtype, parse_plain_target, validate_llvm_target,
    Error, LlvmTarget, Metadata, RuntimeError, TensorSpec,
};

fn text(v: &Value, key: &str) -> String {
    match v.get(key) {
        Some(t) => t.as_str().unwrap().to_string(),
        None => String::new(),
    }
}

fn integers(v: &Value, key: &str) -> Vec<i64> {
    match v.get(key) {
        Some(items) => items.as_array().unwrap().iter().map(|i| i.as_i64().unwrap()).collect(),
        None => Vec::new(),
    }
}

fn tensors(v: &Value) -> Vec<TensorSpec> {
    v.as_array()
        .unwrap()
        .iter()
        .map(|t| TensorSpec {
            name: text(t, "name"),
            shape: integers(t, "shape"),
            dtype: match t.get("dtype") {
                Some(d) => d.as_str().unwrap().to_string(),
                None => default_dtype(),
            },
            scale: match t.get("scale") {
                Some(s) => s
                    .as_array()
                    .unwrap()
                    .iter()
                    .map(|x| x.as_f64().unwrap().to_bits())
                    .collect(),
                None => Vec::new(),
            },
            zero_point: integers(t, "zero_point"),
            quantized_dimension: t.get("quantized_dimension").map(|d| d.as_i64().unwrap()),
        })
        .collect()
}

fn metadata(raw: &str) -> Metadata {
    let v: Value = serde_json::from_str(raw).unwrap();
    Metadata {
        entry: text(&v, "entry"),
        inputs: tensors(&v["inputs"]),
        outputs: tensors(&v["outputs"]),
        target: text(&v, "target"),
        tvm_version: text(&v, "tvm_version"),
        tvm_git_commit: text(&v, "tvm_git_commit"),
    }
}

fn parse_target(s: &str) -> Result<LlvmTarget, String> {
    let v: Value = serde_json::from_str(s).map_err(|e| e.to_string())?;
    match v.get("kind") {
        Some(kind) => Ok(LlvmTarget {
            kind: kind.as_str().unwrap().to_string(),
            mtriple: text(&v, "mtriple"),
        }),
        None => Err("missing field `kind`".to_string()),
    }
}

fn bits(xs: &[f64]) -> Vec<u64> {
    xs.iter().map(|x| x.to_bits()).collect()
}

#[test]
fn metadata_parses_quantization_params() {
    let raw = r#"{
            "entry": "main",
            "inputs":  [{"name":"images","shape":[1,224,224,3],"dtype":"int8",
                         "scale":[0.003921568859368563],"zero_point":[-128]}],
            "outputs": [{"name":"out","shape":[1,56,1029],"dtype":"int8",
                         "scale":[0.0172492116689682],"zero_point":[-35]}]
        }"#;
    let m = metadata(raw);
    assert_eq!(m.inputs[0].scale, bits(&[0.003921568859368563]));
    assert_eq!(m.inputs[0].zero_point, vec![-128]);
    assert_eq!(m.outputs[0].zero_point, vec![-35]);
}

#[test]
fn metadata_parses_per_axis_quantization() {
    let raw = r#"{"entry":"main",
            "inputs":[{"name":"w","shape":[64,3,3,3],"dtype":"int8",
                       "scale":[0.1,0.2],"zero_point":[0,0],"quantized_dimension":3}],
            "outputs":[]}"#;
    let m = metadata(raw);
    assert_eq!(m.inputs[0].scale.len(), 2);
    assert_eq!(m.inputs[0].quantized_dimension, Some(3));
}

#[test]
fn metadata_float_model_has_no_quantization_params() {
    let raw = r#"{"entry":"main",
            "inputs":[{"name":"images","shape":[1,3,640,640],"dtype":"float32"}],
            "outputs":[{"name":"out","shape":[1,84,8400],"dtype":"float32"}]}"#;
    let m = metadata(raw);
    assert!(m.inputs[0].scale.is_empty());
    assert!(m.inputs[0].zero_point.is_empty());
    assert_eq!(m.inputs[0].quantized_dimension, None);
    assert_eq!(m.outputs[0].dtype, "float32");
}

#[test]
fn metadata_dtype_defaults_to_float32() {
    let raw = r#"{"entry":"main","inputs":[{"name":"x","shape":[1]}],"outputs":[]}"#;
    let m = metadata(raw);
    assert_eq!(m.inputs[0].dtype, "float32");
}

#[test]
fn metadata_accepts_matching_runtime_identity_and_target() {
    let raw = r#"{"entry":"main","inputs":[],"outputs":[],
            "tvm_version":"0.26.0","tvm_git_commit":"c7b458e",
            "target":"{\"kind\":\"llvm\",\"mtriple\":\"x86_64-pc-linux-gnu\"}"}"#;
    let m = metadata(raw);
    m.validate_runtime("0.26.0", "c7b458e", "x86_64", parse_target).unwrap();
}

#[test]
fn metadata_rejects_incompatible_runtime_identity_and_target() {
    let mut m = metadata(
        r#"{"entry":"main","inputs":[],"outputs":[],
                "tvm_version":"0.26.0","tvm_git_commit":"c7b458e","target":"llvm"}"#,
    );

    assert!(m.validate_runtime("unknown", "c7b458e", "x86_64", parse_target).is_err());
    assert!(m.validate_runtime("0.25.0", "c7b458e", "x86_64", parse_target).is_err());
    assert!(m.validate_runtime("0.26.0", "different", "x86_64", parse_target).is_err());
    m.target = "cuda".to_string();
    assert!(m.validate_runtime("0.26.0", "c7b458e", "x86_64", parse_target).is_err());
    m.target = r#"{"kind":"llvm","mtriple":"aarch64-linux-gnu"}"#.to_string();
    assert!(m.validate_runtime("0.26.0", "c7b458e", "x86_64", parse_target).is_err());
}

fn model(version: &str, commit: &str, target: &str) -> Metadata {
    Metadata {
        entry: "main".to_string(),
        inputs: Vec::new(),
        outputs: Vec::new(),
        target: target.to_string(),
        tvm_version: version.to_string(),
        tvm_git_commit: commit.to_string(),
    }
}

fn refusal(m: &Metadata, version: &str, commit: &str, arch: &str) -> String {
    m.validate_runtime(version, commit, arch, parse_target).unwrap_err().message()
}

#[test]
fn every_identity_fault_has_its_message() {
    let m = model("0.26.0", "c7b458e", "llvm");
    assert_eq!(refusal(&m, "", "c", "x86_64"), "serve image has no embedded TVM version");
    assert_eq!(refusal(&m, "unknown", "c", "x86_64"), "serve image has no embedded TVM version");
    assert_eq!(refusal(&m, "1", "", "x86_64"), "serve image has no embedded TVM source revision");
    assert_eq!(
        refusal(&m, "1", "unknown", "x86_64"),
        "serve image has no embedded TVM source revision"
    );
    assert_eq!(
        refusal(&model("", "c", "llvm"), "1", "c", "x86_64"),
        "model metadata has no tvm_version"
    );
    assert_eq!(
        refusal(&m, "0.25.0", "c7b458e", "x86_64"),
        "model TVM version \"0.26.0\" is incompatible with serve image version \"0.25.0\""
    );
    assert_eq!(
        refusal(&model("1", "", "llvm"), "1", "c", "x86_64"),
        "model metadata has no tvm_git_commit; recompile it with an attested toolkit"
    );
    assert_eq!(
        refusal(&m, "0.26.0", "a\"b", "x86_64"),
        "model TVM revision \"c7b458e\" is incompatible with serve image revision \"a\\\"b\""
    );
}

#[test]
fn every_target_fault_has_its_message() {
    let of = |target: &str, arch: &str| refusal(&model("1", "c", target), "1", "c", arch);
    assert_eq!(of("", "x86_64"), "model metadata has no target");
    assert_eq!(of(" \n\u{3000}", "x86_64"), "model metadata has no target");
    assert_eq!(
        of("cuda -arch=sm_80", "x86_64"),
        "serve image supports LLVM CPU models, got target kind \"cuda\""
    );
    assert_eq!(
        of("llvm -mtriple=mips-linux", "x86_64"),
        "unsupported LLVM target triple \"mips-linux\""
    );
    assert_eq!(
        of("llvm -mtriple=x86_64-linux", "vax"),
        "unsupported serve image architecture \"vax\""
    );
    assert_eq!(
        of("llvm -mtriple=aarch64-linux-gnu", "AMD64"),
        "model target triple \"aarch64-linux-gnu\" is incompatible with runtime architecture \"x86_64\""
    );
    assert_eq!(of(" {} ", "x86_64"), "invalid TVM target \"{}\": missing field `kind`");
}

#[test]
fn a_target_without_triple_runs_anywhere() {
    assert!(validate_llvm_target("llvm", "vax", parse_target).is_ok());
    assert!(validate_llvm_target("  llvm -mcpu=native\t", "vax", parse_target).is_ok());
    assert!(validate_llvm_target(r#"{"kind":"llvm"}"#, "vax", parse_target).is_ok());
    let t = LlvmTarget { kind: "llvm".to_string(), mtriple: String::new() };
    assert!(check_llvm_target(t, "").is_ok());
}

#[test]
fn plain_targets_take_the_first_triple() {
    let t = parse_plain_target("llvm\t-mcpu=x  -mtriple=arm-linux\n-mtriple=x86_64");
    assert_eq!(t.kind, "llvm");
    assert_eq!(t.mtriple, "arm-linux");
    let t = parse_plain_target("-mtriple=arm");
    assert_eq!(t.kind, "-mtriple=arm");
    assert_eq!(t.mtriple, "");
    let t = parse_plain_target("llvm -mtriple=");
    assert_eq!(t.mtriple, "");
    let t = parse_plain_target("");
    assert_eq!(t.kind, "");
}

#[test]
fn architectures_have_one_canonical_name() {
    for name in ["x86_64", "AMD64", "amd64", "X86_64"] {
        assert_eq!(canonical_arch(name), Some("x86_64"));
    }
    for name in ["aarch64", "ARM64", "arm64"] {
        assert_eq!(canonical_arch(name), Some("aarch64"));
    }
    for name in ["arm", "armv7", "ARMv7l", "arm64e"] {
        assert_eq!(canonical_arch(name), Some("arm"));
    }
    assert_eq!(canonical_arch("riscv64"), Some("riscv64"));
    for name in ["powerpc64", "powerpc64le", "ppc64le"] {
        assert_eq!(canonical_arch(name), Some("powerpc64"));
    }
    assert_eq!(canonical_arch("s390x"), Some("s390x"));
    for name in ["", "x86", "ar", "ppc64", "mips", "\u{212a}86"] {
        assert_eq!(canonical_arch(name), None);
    }
    for name in ["x86_64", "aarch64", "arm", "riscv64", "powerpc64", "s390x"] {
        assert_eq!(canonical_arch(name), Some(name));
    }
}

#[test]
fn an_unattested_runtime_refuses_a_model_that_fits() {
    let m = model("unknown", "unknown", "llvm");
    assert!(matches!(
        m.validate_runtime("unknown", "unknown", "x86_64", parse_target),
        Err(RuntimeError::NoRuntimeVersion)
    ));
    assert!(matches!(
        model("1", "unknown", "llvm").validate_runtime("1", "unknown", "x86_64", parse_target),
        Err(RuntimeError::NoRuntimeRevision)
    ));
}

#[test]
fn runtime_errors_say_where_they_come_from() {
    assert_eq!(Error::Tvm("no such symbol".to_string()).message(), "tvm-ffi: no such symbol");
}
