use serde_json::Value;
use tvm_serve::protocol::{JsonScalar, RequestInput, TensorData, TensorMetadata};
use tvm_serve::relax::{Metadata, TensorSpec};
use tvm_serve::rest::{
    accept_request, answer_request, decode_request, encode_response, env_u16, env_usize, model_metadata, model_ready,
    serve_err_http, to_tensor_metadata, HttpStatus,
};
use tvm_serve::worker::{Handle, InferOutput, ServeErr, WorkerAnswer};

fn spec(dtype: &str, scale: Vec<f64>, zero_point: Vec<i64>) -> TensorSpec {
    TensorSpec {
        name: "images".to_string(),
        shape: vec![1, 224, 224, 3],
        dtype: dtype.to_string(),
        scale: scale.into_iter().map(|x| x.to_bits()).collect(),
        zero_point,
        quantized_dimension: None,
    }
}

fn to_json(m: TensorMetadata) -> Value {
    let mut fields = serde_json::Map::new();
    fields.insert("name".to_string(), Value::from(m.name));
    fields.insert("datatype".to_string(), Value::from(m.datatype));
    fields.insert("shape".to_string(), Value::from(m.shape));
    if let Some(q) = m.parameters {
        let scale: Vec<f64> = q.scale.into_iter().map(f64::from_bits).collect();
        let mut p = serde_json::Map::new();
        p.insert("scale".to_string(), Value::from(scale));
        p.insert("zero_point".to_string(), Value::from(q.zero_point));
        if let Some(d) = q.quantized_dimension {
            p.insert("quantized_dimension".to_string(), Value::from(d));
        }
        fields.insert("parameters".to_string(), Value::Object(p));
    }
    Value::Object(fields)
}

#[test]
fn quantized_tensor_publishes_parameters() {
    let m = to_tensor_metadata(&spec("int8", vec![0.003921568859368563], vec![-128]));
    assert_eq!(m.datatype, "INT8");
    let json = to_json(m);
    let p = json.get("parameters").expect("un tensore quantizzato deve esporre i parametri");
    assert_eq!(p["scale"][0], 0.003921568859368563);
    assert_eq!(p["zero_point"][0], -128);
    assert!(p.get("quantized_dimension").is_none(), "per-tensore: nessun asse");
}

#[test]
fn per_axis_tensor_publishes_quantized_dimension() {
    let mut s = spec("int8", vec![0.1, 0.2], vec![0, 0]);
    s.quantized_dimension = Some(3);
    let m = to_tensor_metadata(&s);
    assert_eq!(m.parameters.as_ref().unwrap().quantized_dimension, Some(3));
    assert_eq!(to_json(m)["parameters"]["quantized_dimension"], 3);
}

#[test]
fn float_tensor_omits_parameters() {
    let m = to_tensor_metadata(&spec("float32", vec![], vec![]));
    assert_eq!(m.datatype, "FP32");
    assert!(m.parameters.is_none());

    let raw = to_json(m).to_string();
    assert!(!raw.contains("parameters"), "JSON inatteso: {raw}");
}

fn handle() -> Handle {
    Handle {
        metadata: Metadata {
            entry: "main".to_string(),
            inputs: vec![spec("int8", vec![0.5], vec![3])],
            outputs: vec![spec("float64", vec![], vec![]), spec("", vec![], vec![])],
            target: String::new(),
            tvm_version: String::new(),
            tvm_git_commit: String::new(),
        },
        model_name: "model".to_string(),
    }
}

#[test]
fn the_model_is_published_under_its_name() {
    let h = handle();
    assert_eq!(model_ready(&h, "model"), HttpStatus::Success);
    assert_eq!(model_ready(&h, "Model"), HttpStatus::NotFound);
    let m = model_metadata(&h, "model").unwrap();
    assert_eq!(m.name, "model");
    assert_eq!(m.versions, vec!["1".to_string()]);
    assert_eq!(m.platform, "tvm_relax");
    assert_eq!(m.inputs[0].name, "images");
    assert_eq!(m.inputs[0].shape, vec![1, 224, 224, 3]);
    assert!(m.inputs[0].parameters.is_some());
    assert_eq!(m.outputs[0].datatype, "FP64");
    assert_eq!(m.outputs[1].datatype, "FP32");
    assert_eq!(model_metadata(&h, "").unwrap_err(), HttpStatus::NotFound);
}

fn input(name: &str, datatype: &str, data: &str) -> RequestInput {
    let data: Value = serde_json::from_str(data).unwrap();
    RequestInput { name: name.to_string(), shape: vec![2], datatype: datatype.to_string(), data }
}

#[test]
fn requests_decode_in_order() {
    let decoded =
        decode_request(vec![input("b", "INT8", "[1,-2]"), input("a", "FP64", "[[0.5],[2]]")])
            .unwrap();
    assert_eq!(decoded.len(), 2);
    assert_eq!(decoded[0].name, "b");
    assert_eq!(decoded[0].shape, vec![2]);
    assert_eq!(decoded[0].data, TensorData::I8(vec![1, -2]));
    assert_eq!(decoded[1].name, "a");
    assert_eq!(
        decoded[1].data,
        TensorData::F64(vec![0.5f64.to_bits(), 2.0f64.to_bits()])
    );
    assert_eq!(decode_request(Vec::new()).unwrap().len(), 0);
}

#[test]
fn undecodable_requests_are_bad_requests() {
    let inputs = vec![
        input("a", "INT8", "[1]"),
        input("b", "FP16", "[1]"),
        input("c", "INT8", "[null]"),
    ];
    match decode_request(inputs) {
        Err((status, m)) => {
            assert_eq!(status, HttpStatus::BadRequest);
            assert_eq!(m, "datatype 'FP16' is not supported by this serve image (deferred)");
        }
        Ok(_) => panic!("decoded"),
    }
}

#[test]
fn responses_hold_every_output() {
    let outs = vec![
        InferOutput {
            name: "o".to_string(),
            shape: vec![1, 2],
            datatype: "INT64".to_string(),
            data: TensorData::I64(vec![-1, 2]),
        },
        InferOutput {
            name: "p".to_string(),
            shape: vec![1],
            datatype: "FP64".to_string(),
            data: TensorData::F64(vec![f64::NAN.to_bits()]),
        },
    ];
    let r = encode_response(&handle(), "42".to_string(), outs, 12.5f64.to_bits());
    assert_eq!(r.model_name, "model");
    assert_eq!(r.model_version, "1");
    assert_eq!(r.id, "42");
    assert_eq!(f64::from_bits(r.parameters.inference_time_ms), 12.5);
    assert_eq!(r.outputs.len(), 2);
    assert_eq!(r.outputs[0].name, "o");
    assert_eq!(r.outputs[0].shape, vec![1, 2]);
    assert_eq!(r.outputs[0].datatype, "INT64");
    assert_eq!(r.outputs[0].data, vec![JsonScalar::Signed(-1), JsonScalar::Signed(2)]);
    assert_eq!(r.outputs[1].data, vec![JsonScalar::Null]);
}

#[test]
fn errors_map_to_http_statuses() {
    let m = "text".to_string();
    assert_eq!(serve_err_http(ServeErr::NotFound(m.clone())), (HttpStatus::NotFound, m.clone()));
    assert_eq!(
        serve_err_http(ServeErr::BadRequest(m.clone())),
        (HttpStatus::BadRequest, m.clone())
    );
    assert_eq!(
        serve_err_http(ServeErr::Internal(m.clone())),
        (HttpStatus::InternalServerError, m)
    );
    assert_eq!(HttpStatus::Success.code(), 200);
    assert_eq!(HttpStatus::BadRequest.code(), 400);
    assert_eq!(HttpStatus::NotFound.code(), 404);
    assert_eq!(HttpStatus::InternalServerError.code(), 500);
}

#[test]
fn settings_fall_back_to_their_defaults() {
    assert_eq!(env_u16(None, 8080), 8080);
    assert_eq!(env_u16(Some("9000"), 8080), 9000);
    assert_eq!(env_u16(Some("0"), 8080), 0);
    assert_eq!(env_u16(Some("65536"), 8080), 8080);
    assert_eq!(env_u16(Some("http"), 8080), 8080);
    assert_eq!(env_usize(None, 1), 1);
    assert_eq!(env_usize(Some("4"), 1), 4);
    assert_eq!(env_usize(Some("+4"), 1), 4);
    assert_eq!(env_usize(Some("0"), 1), 1);
    assert_eq!(env_usize(Some("-2"), 1), 1);
    assert_eq!(env_usize(Some(""), 3), 3);
}

#[test]
fn requests_are_decoded_before_the_name_is_looked_at() {
    let h = handle();
    let refused = |name: &str, inputs: Vec<RequestInput>| match accept_request(&h, name, inputs) {
        Ok(_) => panic!("accepted"),
        Err(e) => e,
    };
    assert_eq!(
        refused("other", vec![input("images", "BOOL", "[1]")]),
        (HttpStatus::BadRequest, "unsupported datatype 'BOOL'".to_string())
    );
    assert_eq!(
        refused("other", vec![input("images", "INT8", "[1]")]),
        (HttpStatus::NotFound, "model 'other' not found".to_string())
    );
    assert_eq!(
        refused("model", vec![]),
        (HttpStatus::BadRequest, "no input tensors".to_string())
    );
    assert_eq!(
        refused("model", vec![input("images", "INT8", "[1]")]),
        (
            HttpStatus::BadRequest,
            "input[0]: shape [2] implies 2 elements but data has 1".to_string()
        )
    );
    let job = accept_request(&h, "model", vec![input("images", "INT8", "[[1],[2]]")]).unwrap();
    assert_eq!(job.len(), 1);
    assert_eq!(job[0].data, TensorData::I8(vec![1, 2]));
}

#[test]
fn only_a_finished_run_is_encoded() {
    let h = handle();
    let failed = |a: WorkerAnswer| answer_request(&h, "7".to_string(), a, 0).unwrap_err();
    let internal = |m: &str| (HttpStatus::InternalServerError, m.to_string());
    assert_eq!(failed(WorkerAnswer::Unavailable), internal("worker unavailable"));
    assert_eq!(failed(WorkerAnswer::Lost), internal("worker terminated without reply"));
    assert_eq!(failed(WorkerAnswer::Failed("x".to_string())), internal("x"));
    let out = InferOutput {
        name: "o".to_string(),
        shape: vec![1],
        datatype: "UINT8".to_string(),
        data: TensorData::U8(vec![9]),
    };
    let done = WorkerAnswer::Done(vec![out]);
    let r = answer_request(&h, "7".to_string(), done, 1.5f64.to_bits()).unwrap();
    assert_eq!(r.id, "7");
    assert_eq!(r.model_name, "model");
    assert_eq!(r.outputs[0].data, vec![JsonScalar::Unsigned(9)]);
    assert_eq!(f64::from_bits(r.parameters.inference_time_ms), 1.5);
}
