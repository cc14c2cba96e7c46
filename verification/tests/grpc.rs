use tvm_serve::grpc::{
    accept_request, answer_request, decode_inputs, encode_response, model_metadata, model_ready, serve_err_status,
    tensor_data_from_grpc, tensor_data_from_raw, tensor_data_to_contents, GrpcCode,
    InferInputTensor, InferTensorContents,
};
use tvm_serve::protocol::TensorData;
use tvm_serve::relax::{Metadata, TensorSpec};
use tvm_serve::worker::{Handle, InferOutput, ServeErr, WorkerAnswer};

fn tensors() -> Vec<TensorData> {
    vec![
        TensorData::F32(vec![0x3fc0_0000, 0x7fc0_0000, 1]),
        TensorData::F64(vec![1.5f64.to_bits(), f64::NAN.to_bits()]),
        TensorData::I8(vec![-128, -1, 127]),
        TensorData::I16(vec![i16::MIN, -2, 258]),
        TensorData::I32(vec![i32::MIN, -2, 0x0102_0304]),
        TensorData::I64(vec![i64::MIN, -2, 0x0102_0304_0506_0708]),
        TensorData::U8(vec![0, 200]),
        TensorData::U16(vec![u16::MAX, 258]),
        TensorData::U32(vec![u32::MAX, 0x0102_0304]),
        TensorData::U64(vec![u64::MAX, 0x0102_0304_0506_0708]),
    ]
}

fn bytes(t: &TensorData) -> Vec<u8> {
    match t {
        TensorData::F32(v) => v.iter().flat_map(|x| x.to_le_bytes()).collect(),
        TensorData::F64(v) => v.iter().flat_map(|x| x.to_le_bytes()).collect(),
        TensorData::I8(v) => v.iter().flat_map(|x| x.to_le_bytes()).collect(),
        TensorData::I16(v) => v.iter().flat_map(|x| x.to_le_bytes()).collect(),
        TensorData::I32(v) => v.iter().flat_map(|x| x.to_le_bytes()).collect(),
        TensorData::I64(v) => v.iter().flat_map(|x| x.to_le_bytes()).collect(),
        TensorData::U8(v) => v.clone(),
        TensorData::U16(v) => v.iter().flat_map(|x| x.to_le_bytes()).collect(),
        TensorData::U32(v) => v.iter().flat_map(|x| x.to_le_bytes()).collect(),
        TensorData::U64(v) => v.iter().flat_map(|x| x.to_le_bytes()).collect(),
    }
}

#[test]
fn raw_bytes_are_little_endian() {
    assert_eq!(tensor_data_from_raw("UINT16", &[1, 2]), Ok(TensorData::U16(vec![0x0201])));
    assert_eq!(tensor_data_from_raw("INT16", &[0xfe, 0xff]), Ok(TensorData::I16(vec![-2])));
    assert_eq!(
        tensor_data_from_raw("FP32", &1.5f32.to_le_bytes()),
        Ok(TensorData::F32(vec![1.5f32.to_bits()]))
    );
    assert_eq!(tensor_data_from_raw("UINT64", &[]), Ok(TensorData::U64(vec![])));
    for t in tensors() {
        assert_eq!(tensor_data_from_raw(t.datatype().v2(), &bytes(&t)), Ok(t));
    }
}

#[test]
fn raw_bytes_hold_whole_elements() {
    let fault = |d: &str, n: usize| tensor_data_from_raw(d, &vec![0; n]).unwrap_err();
    assert_eq!(fault("FP32", 5), "raw bytes length 5 is not a multiple of 4 for FP32");
    assert_eq!(fault("INT64", 12), "raw bytes length 12 is not a multiple of 8 for INT64");
    assert_eq!(fault("UINT16", 1), "raw bytes length 1 is not a multiple of 2 for UINT16");
    assert_eq!(fault("FP16", 2), "datatype 'FP16' is not supported (deferred)");
    assert_eq!(fault("BOOL", 1), "unsupported datatype 'BOOL'");
}

#[test]
fn typed_contents_read_back() {
    for t in tensors() {
        let (d, raw) = (t.datatype().v2(), bytes(&t));
        let c = tensor_data_to_contents(t);
        let typed = tensor_data_from_grpc(d, Some(&c), None).unwrap();
        assert_eq!(bytes(&typed), raw);
        assert_eq!(typed.datatype().v2(), d);
    }
}

#[test]
fn json_and_grpc_read_the_same_tensor() {
    let data = serde_json::from_str("[[-1, 2.0], [300, 0]]").unwrap();
    let json = TensorData::from_json(&data, "INT16").unwrap();
    let mut c = InferTensorContents::default();
    c.int_contents = vec![-1, 2, 300, 0];
    assert_eq!(tensor_data_from_grpc("INT16", Some(&c), None), Ok(json));
    let raw = [0xff, 0xff, 2, 0, 44, 1, 0, 0];
    assert_eq!(
        tensor_data_from_grpc("INT16", None, Some(&raw)),
        tensor_data_from_grpc("INT16", Some(&c), None)
    );
}

#[test]
fn outputs_fill_one_field() {
    let c = tensor_data_to_contents(TensorData::I8(vec![-1]));
    assert_eq!(c.int_contents, vec![-1]);
    assert!(c.int64_contents.is_empty());
    assert!(c.uint_contents.is_empty());
    assert!(c.uint64_contents.is_empty());
    assert!(c.fp32_contents.is_empty());
    assert!(c.fp64_contents.is_empty());
    let c = tensor_data_to_contents(TensorData::U16(vec![65535]));
    assert_eq!(c.uint_contents, vec![65535]);
}

#[test]
fn typed_contents_are_narrowed() {
    let mut c = InferTensorContents::default();
    c.int_contents = vec![300, -129, 65536];
    c.uint_contents = vec![256, 65535];
    let read = |d: &str| tensor_data_from_grpc(d, Some(&c), None);
    assert_eq!(read("INT8"), Ok(TensorData::I8(vec![44, 127, 0])));
    assert_eq!(read("INT16"), Ok(TensorData::I16(vec![300, -129, 0])));
    assert_eq!(read("UINT8"), Ok(TensorData::U8(vec![0, 255])));
    assert_eq!(read("UINT16"), Ok(TensorData::U16(vec![256, 65535])));
    assert_eq!(read("INT64"), Ok(TensorData::I64(vec![])));
    assert_eq!(read("FP16").unwrap_err(), "datatype 'FP16' is not supported (deferred)");
    assert_eq!(read("X").unwrap_err(), "unsupported datatype 'X'");
    assert_eq!(
        tensor_data_from_grpc("FP32", None, None).unwrap_err(),
        "no contents and no raw_input_contents"
    );
}

#[test]
fn raw_contents_win_over_typed_ones() {
    let mut c = InferTensorContents::default();
    c.uint_contents = vec![1, 2, 3];
    assert_eq!(
        tensor_data_from_grpc("UINT8", Some(&c), Some(&[9])),
        Ok(TensorData::U8(vec![9]))
    );
    assert!(tensor_data_from_grpc("UINT32", Some(&c), Some(&[9])).is_err());
}

fn typed(name: &str, datatype: &str, values: Vec<u32>) -> InferInputTensor {
    let mut c = InferTensorContents::default();
    let n = values.len() as i64;
    c.uint_contents = values;
    InferInputTensor {
        name: name.to_string(),
        datatype: datatype.to_string(),
        shape: vec![n],
        contents: Some(c),
    }
}

#[test]
fn requests_are_decoded_input_by_input() {
    let inputs = vec![typed("a", "UINT8", vec![1, 2]), typed("b", "UINT16", vec![3])];
    let decoded = decode_inputs(&inputs, &Vec::new()).unwrap();
    assert_eq!(decoded.len(), 2);
    assert_eq!(decoded[0].name, "a");
    assert_eq!(decoded[0].shape, vec![2]);
    assert_eq!(decoded[0].data, TensorData::U8(vec![1, 2]));
    assert_eq!(decoded[1].data, TensorData::U16(vec![3]));
    let decoded = decode_inputs(&inputs, &vec![vec![7], vec![8, 0], vec![0]]).unwrap();
    assert_eq!(decoded[0].data, TensorData::U8(vec![7]));
    assert_eq!(decoded[1].data, TensorData::U16(vec![8]));
}

fn undecodable(inputs: &Vec<InferInputTensor>, raw: &Vec<Vec<u8>>) -> String {
    match decode_inputs(inputs, raw) {
        Ok(_) => panic!("decoded"),
        Err((code, m)) => {
            assert_eq!(code, GrpcCode::InvalidArgument);
            m
        }
    }
}

#[test]
fn undecodable_inputs_are_invalid_arguments() {
    let inputs = vec![typed("a", "UINT8", vec![1]), typed("b", "UINT16", vec![3])];
    assert_eq!(undecodable(&inputs, &vec![vec![7]]), "raw_input_contents incomplete");
    assert_eq!(
        undecodable(&inputs, &vec![vec![7], vec![8]]),
        "input[1]: raw bytes length 1 is not a multiple of 2 for UINT16"
    );
    let inputs = vec![typed("a", "FP16", vec![1]), typed("b", "BOOL", vec![3])];
    assert_eq!(
        undecodable(&inputs, &Vec::new()),
        "input[0]: datatype 'FP16' is not supported (deferred)"
    );
    let mut inputs = vec![typed("a", "UINT8", vec![1])];
    inputs[0].contents = None;
    assert_eq!(
        undecodable(&inputs, &Vec::new()),
        "input[0]: no contents and no raw_input_contents"
    );
}

fn handle() -> Handle {
    let spec = TensorSpec {
        name: "images".to_string(),
        shape: vec![1, 224, 224, 3],
        dtype: "int8".to_string(),
        scale: vec![0.5f64.to_bits()],
        zero_point: vec![-128],
        quantized_dimension: None,
    };
    Handle {
        metadata: Metadata {
            entry: "main".to_string(),
            inputs: vec![spec.clone()],
            outputs: vec![spec],
            target: String::new(),
            tvm_version: String::new(),
            tvm_git_commit: String::new(),
        },
        model_name: "model".to_string(),
    }
}

#[test]
fn the_model_is_published_without_parameters() {
    let h = handle();
    assert!(model_ready(&h, "model"));
    assert!(!model_ready(&h, "other"));
    let m = model_metadata(&h, "model").unwrap();
    assert_eq!(m.name, "model");
    assert_eq!(m.versions, vec!["1".to_string()]);
    assert_eq!(m.platform, "tvm_relax");
    assert_eq!(m.inputs.len(), 1);
    assert_eq!(m.inputs[0].name, "images");
    assert_eq!(m.inputs[0].datatype, "INT8");
    assert_eq!(m.inputs[0].shape, vec![1, 224, 224, 3]);
    assert!(m.inputs[0].parameters.is_none());
    assert_eq!(m.outputs.len(), 1);
    match model_metadata(&h, "other") {
        Err((code, m)) => {
            assert_eq!(code, GrpcCode::NotFound);
            assert_eq!(m, "model 'other' not found");
        }
        Ok(_) => panic!("found"),
    }
}

#[test]
fn responses_carry_typed_contents() {
    let outs = vec![InferOutput {
        name: "o".to_string(),
        shape: vec![1, 2],
        datatype: "INT16".to_string(),
        data: TensorData::I16(vec![-1, 2]),
    }];
    let r = encode_response(&handle(), "42".to_string(), outs);
    assert_eq!(r.model_name, "model");
    assert_eq!(r.model_version, "1");
    assert_eq!(r.id, "42");
    assert_eq!(r.outputs.len(), 1);
    assert_eq!(r.outputs[0].name, "o");
    assert_eq!(r.outputs[0].datatype, "INT16");
    assert_eq!(r.outputs[0].shape, vec![1, 2]);
    assert_eq!(r.outputs[0].contents.int_contents, vec![-1, 2]);
}

#[test]
fn errors_map_to_grpc_codes() {
    let m = "text".to_string();
    assert_eq!(serve_err_status(ServeErr::NotFound(m.clone())), (GrpcCode::NotFound, m.clone()));
    assert_eq!(
        serve_err_status(ServeErr::BadRequest(m.clone())),
        (GrpcCode::InvalidArgument, m.clone())
    );
    assert_eq!(serve_err_status(ServeErr::Internal(m.clone())), (GrpcCode::Internal, m));
}

#[test]
fn requests_are_decoded_before_the_name_is_looked_at_by_grpc() {
    let h = handle();
    let none: Vec<Vec<u8>> = Vec::new();
    let refused = |name: &str, inputs: Vec<InferInputTensor>| {
        match accept_request(&h, name, &inputs, &none) {
            Ok(_) => panic!("accepted"),
            Err(e) => e,
        }
    };
    assert_eq!(
        refused("other", vec![typed("images", "BOOL", vec![1])]),
        (GrpcCode::InvalidArgument, "input[0]: unsupported datatype 'BOOL'".to_string())
    );
    assert_eq!(
        refused("other", vec![typed("images", "UINT8", vec![1])]),
        (GrpcCode::NotFound, "model 'other' not found".to_string())
    );
    assert_eq!(
        refused("model", vec![]),
        (GrpcCode::InvalidArgument, "no input tensors".to_string())
    );
    let raw = vec![vec![3], vec![4]];
    let job = accept_request(&h, "model", &vec![typed("x", "UINT8", vec![1])], &raw).unwrap();
    assert_eq!(job.len(), 1);
    assert_eq!(job[0].data, TensorData::U8(vec![3]));
}

#[test]
fn only_a_finished_run_is_encoded_by_grpc() {
    let h = handle();
    let failed = |a: WorkerAnswer| answer_request(&h, "7".to_string(), a).unwrap_err();
    let internal = |m: &str| (GrpcCode::Internal, m.to_string());
    assert_eq!(failed(WorkerAnswer::Unavailable), internal("worker unavailable"));
    assert_eq!(failed(WorkerAnswer::Lost), internal("worker terminated without reply"));
    assert_eq!(failed(WorkerAnswer::Failed("x".to_string())), internal("x"));
    let out = InferOutput {
        name: "o".to_string(),
        shape: vec![1],
        datatype: "UINT8".to_string(),
        data: TensorData::U8(vec![9]),
    };
    let r = answer_request(&h, "7".to_string(), WorkerAnswer::Done(vec![out])).unwrap();
    assert_eq!(r.id, "7");
    assert_eq!(r.outputs[0].contents.uint_contents, vec![9]);
}
