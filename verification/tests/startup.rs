use tvm_serve::relax::{LlvmTarget, Metadata, RuntimeError, TensorSpec};
use tvm_serve::startup::{
    check_dtypes, check_model, library_path, metadata_path, worker_name, StartError, Warmup,
    WarmupStep, WorkerReport,
};

fn tensor(name: &str, dtype: &str) -> TensorSpec {
    TensorSpec {
        name: name.to_string(),
        shape: vec![1],
        dtype: dtype.to_string(),
        scale: Vec::new(),
        zero_point: Vec::new(),
        quantized_dimension: None,
    }
}

fn model(inputs: Vec<TensorSpec>, outputs: Vec<TensorSpec>) -> Metadata {
    Metadata {
        entry: "main".to_string(),
        inputs,
        outputs,
        target: "llvm".to_string(),
        tvm_version: "0.26.0".to_string(),
        tvm_git_commit: "c7b458e".to_string(),
    }
}

fn no_json(_: &str) -> Result<LlvmTarget, String> {
    Err("no JSON here".to_string())
}

#[test]
fn every_supported_dtype_passes() {
    let all = [
        "float32", "float64", "int8", "int16", "int32", "int64", "uint8", "uint16", "uint32",
        "uint64", "",
    ];
    for d in all {
        let m = model(vec![tensor("x", d)], vec![tensor("y", d)]);
        assert!(check_model(&m, "0.26.0", "c7b458e", "x86_64", no_json).is_ok());
    }
}

#[test]
fn the_first_unsupported_tensor_is_named() {
    let m = model(
        vec![tensor("a", "int8"), tensor("b", "float16"), tensor("c", "bool")],
        vec![tensor("d", "bfloat16")],
    );
    assert_eq!(
        check_dtypes(&m).unwrap_err().message(),
        "model tensor 'b' declares dtype 'float16': not supported by this serve image \
         (FP16 and others are deferred)"
    );
    let m = model(vec![tensor("a", "int8")], vec![tensor("d", "bool")]);
    match check_dtypes(&m) {
        Err(StartError::UnsupportedDtype { name, dtype }) => {
            assert_eq!(name, "d");
            assert_eq!(dtype, "bool");
        }
        _ => panic!("not refused"),
    }
}

#[test]
fn the_runtime_is_checked_before_the_dtypes() {
    let m = model(vec![tensor("a", "float16")], Vec::new());
    assert!(matches!(
        check_model(&m, "unknown", "c7b458e", "x86_64", no_json),
        Err(StartError::Runtime(RuntimeError::NoRuntimeVersion))
    ));
    assert!(matches!(
        check_model(&m, "0.26.0", "c7b458e", "x86_64", no_json),
        Err(StartError::UnsupportedDtype { .. })
    ));
    let mut m = model(Vec::new(), Vec::new());
    m.target = "{".to_string();
    assert_eq!(
        check_model(&m, "0.26.0", "c7b458e", "x86_64", no_json).unwrap_err().message(),
        "invalid TVM target \"{\": no JSON here"
    );
}

#[test]
fn the_pool_is_ready_after_the_last_worker() {
    let mut pool = Warmup::new(3);
    assert_eq!(pool.pool_size(), 3);
    assert!(matches!(pool.on_report(WorkerReport::Loaded), WarmupStep::Wait));
    assert!(matches!(pool.on_report(WorkerReport::Loaded), WarmupStep::Wait));
    assert!(matches!(pool.on_report(WorkerReport::Loaded), WarmupStep::Ready));
}

#[test]
fn a_pool_has_a_worker_at_least() {
    let mut pool = Warmup::new(0);
    assert_eq!(pool.pool_size(), 1);
    assert!(matches!(pool.on_report(WorkerReport::Loaded), WarmupStep::Ready));
}

#[test]
fn the_first_failure_ends_the_startup() {
    let mut pool = Warmup::new(2);
    assert!(matches!(pool.on_report(WorkerReport::Loaded), WarmupStep::Wait));
    match pool.on_report(WorkerReport::LoadFailed("tvm-ffi: no file".to_string())) {
        WarmupStep::Fail(e) => assert_eq!(e.message(), "model load failed: tvm-ffi: no file"),
        _ => panic!("not failed"),
    }
    let mut pool = Warmup::new(2);
    match pool.on_report(WorkerReport::Gone) {
        WarmupStep::Fail(e) => assert_eq!(e.message(), "a worker thread did not start"),
        _ => panic!("not failed"),
    }
}

#[test]
fn files_and_threads_have_their_names() {
    assert_eq!(metadata_path("/shared/model"), "/shared/model/metadata.json");
    assert_eq!(library_path("/shared/model"), "/shared/model/model.so");
    assert_eq!(worker_name(12), "tvm-infer-12");
}
