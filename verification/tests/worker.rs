use tvm_serve::protocol::{Datatype, TensorData};
use tvm_serve::relax::{Metadata, TensorSpec};
use tvm_serve::worker::{
    conclude, name_outputs, output_datatype, Handle, InferInput, InferOutput, RawOutput, ServeErr,
    WorkerAnswer, DL_FLOAT, DL_INT, DL_UINT,
};

fn spec(name: &str) -> TensorSpec {
    TensorSpec {
        name: name.to_string(),
        shape: vec![1],
        dtype: "float32".to_string(),
        scale: Vec::new(),
        zero_point: Vec::new(),
        quantized_dimension: None,
    }
}

fn handle(inputs: &[&str]) -> Handle {
    Handle {
        metadata: Metadata {
            entry: "main".to_string(),
            inputs: inputs.iter().map(|n| spec(n)).collect(),
            outputs: Vec::new(),
            target: String::new(),
            tvm_version: String::new(),
            tvm_git_commit: String::new(),
        },
        model_name: "model".to_string(),
    }
}

fn input(name: &str, value: u8) -> InferInput {
    InferInput { name: name.to_string(), shape: vec![1], data: TensorData::U8(vec![value]) }
}

fn order(h: &Handle, inputs: Vec<InferInput>) -> Vec<u8> {
    h.serve_infer("model", inputs)
        .unwrap()
        .into_iter()
        .map(|i| match i.data {
            TensorData::U8(v) => v[0],
            _ => panic!("other data"),
        })
        .collect()
}

#[test]
fn named_inputs_are_put_in_model_order() {
    let h = handle(&["a", "b", "c"]);
    assert_eq!(order(&h, vec![input("c", 3), input("a", 1), input("b", 2)]), vec![1, 2, 3]);
    assert_eq!(order(&h, vec![input("b", 2), input("c", 3), input("a", 1)]), vec![1, 2, 3]);
    assert_eq!(order(&h, vec![input("a", 1), input("b", 2), input("c", 3)]), vec![1, 2, 3]);
}

#[test]
fn other_inputs_are_matched_by_position() {
    let h = handle(&["a", "b"]);
    assert_eq!(order(&h, vec![input("b", 1), input("", 2)]), vec![1, 2]);
    assert_eq!(order(&h, vec![input("b", 1), input("x", 2)]), vec![1, 2]);
    assert_eq!(order(&h, vec![input("b", 1), input("b", 2)]), vec![1, 2]);
    let unnamed = handle(&["", ""]);
    assert_eq!(order(&unnamed, vec![input("", 2), input("", 1)]), vec![2, 1]);
}

#[test]
fn repeated_names_fill_their_places_in_request_order() {
    let h = handle(&["x", "y", "x"]);
    assert_eq!(order(&h, vec![input("y", 1), input("x", 2), input("x", 3)]), vec![2, 1, 3]);
    assert_eq!(order(&h, vec![input("x", 3), input("x", 2), input("y", 1)]), vec![3, 1, 2]);
    let grouped = handle(&["x", "x", "y"]);
    assert_eq!(order(&grouped, vec![input("y", 1), input("x", 2), input("x", 3)]), vec![2, 3, 1]);
}

#[test]
fn inputs_in_model_order_stay_in_place() {
    let h = handle(&["a", "b", "a"]);
    let accepted =
        h.serve_infer("model", vec![input("a", 1), input("b", 2), input("a", 3)]).unwrap();
    let names: Vec<&str> = accepted.iter().map(|i| i.name.as_str()).collect();
    assert_eq!(names, vec!["a", "b", "a"]);
    assert_eq!(order(&h, vec![input("a", 1), input("b", 2), input("a", 3)]), vec![1, 2, 3]);
}

fn refused(r: Result<Vec<InferInput>, ServeErr>) -> ServeErr {
    match r {
        Ok(_) => panic!("accepted"),
        Err(e) => e,
    }
}

#[test]
fn refusals_have_a_kind_and_a_text() {
    let h = handle(&["a", "b"]);
    match refused(h.serve_infer("other", Vec::new())) {
        ServeErr::NotFound(m) => assert_eq!(m, "model 'other' not found"),
        e => panic!("{:?}", e),
    }
    match refused(h.serve_infer("model", Vec::new())) {
        ServeErr::BadRequest(m) => assert_eq!(m, "no input tensors"),
        e => panic!("{:?}", e),
    }
    match refused(h.serve_infer("model", vec![input("a", 1)])) {
        ServeErr::BadRequest(m) => assert_eq!(m, "expected 2 input tensor(s), got 1"),
        e => panic!("{:?}", e),
    }
}

#[test]
fn shapes_are_checked_in_model_order() {
    let h = handle(&["a", "b"]);
    let bad = |name: &str, dim: i64| InferInput {
        name: name.to_string(),
        shape: vec![dim],
        data: TensorData::U8(vec![1]),
    };
    match refused(h.serve_infer("model", vec![bad("b", 7), bad("a", 1)])) {
        ServeErr::BadRequest(m) => {
            assert_eq!(m, "input[1]: shape [7] implies 7 elements but data has 1")
        }
        e => panic!("{:?}", e),
    }
    match refused(h.serve_infer("model", vec![bad("b", 7), bad("a", -1)])) {
        ServeErr::BadRequest(m) => assert_eq!(m, "input[0]: negative dim -1 in shape [-1]"),
        e => panic!("{:?}", e),
    }
}

#[test]
fn a_failed_run_is_an_internal_error() {
    let text = |a: WorkerAnswer| match conclude(a) {
        Err(ServeErr::Internal(m)) => m,
        _ => panic!("not internal"),
    };
    assert_eq!(text(WorkerAnswer::Unavailable), "worker unavailable");
    assert_eq!(text(WorkerAnswer::Lost), "worker terminated without reply");
    assert_eq!(text(WorkerAnswer::Failed("tvm-ffi: x".to_string())), "tvm-ffi: x");
    let out = InferOutput {
        name: "o".to_string(),
        shape: vec![2],
        datatype: "INT8".to_string(),
        data: TensorData::I8(vec![1, 2]),
    };
    match conclude(WorkerAnswer::Done(vec![out])) {
        Ok(v) => assert_eq!(v[0].name, "o"),
        Err(e) => panic!("{:?}", e),
    }
}

#[test]
fn output_types_follow_dlpack() {
    assert_eq!(output_datatype(DL_FLOAT, 32), Ok(Datatype::Fp32));
    assert_eq!(output_datatype(DL_FLOAT, 64), Ok(Datatype::Fp64));
    assert_eq!(output_datatype(DL_INT, 8), Ok(Datatype::Int8));
    assert_eq!(output_datatype(DL_INT, 16), Ok(Datatype::Int16));
    assert_eq!(output_datatype(DL_INT, 32), Ok(Datatype::Int32));
    assert_eq!(output_datatype(DL_INT, 64), Ok(Datatype::Int64));
    assert_eq!(output_datatype(DL_UINT, 8), Ok(Datatype::Uint8));
    assert_eq!(output_datatype(DL_UINT, 16), Ok(Datatype::Uint16));
    assert_eq!(output_datatype(DL_UINT, 32), Ok(Datatype::Uint32));
    assert_eq!(output_datatype(DL_UINT, 64), Ok(Datatype::Uint64));
    assert_eq!(
        output_datatype(2, 16),
        Err("unsupported output dtype (code=2 bits=16); FP16/others deferred".to_string())
    );
    assert_eq!(
        output_datatype(6, 8),
        Err("unsupported output dtype (code=6 bits=8); FP16/others deferred".to_string())
    );
}

#[test]
fn outputs_are_named_by_the_signature() {
    let raw = vec![
        RawOutput { shape: vec![2], data: TensorData::I64(vec![1, 2]) },
        RawOutput { shape: vec![1], data: TensorData::F32(vec![0]) },
    ];
    let outs = name_outputs(&vec![spec("scores")], raw);
    assert_eq!(outs.len(), 2);
    assert_eq!(outs[0].name, "scores");
    assert_eq!(outs[0].shape, vec![2]);
    assert_eq!(outs[0].datatype, "INT64");
    assert_eq!(outs[0].data, TensorData::I64(vec![1, 2]));
    assert_eq!(outs[1].name, "output_1");
    assert_eq!(outs[1].datatype, "FP32");
}
