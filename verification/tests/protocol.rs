use serde_json::Value;
use tvm_serve::json::{collect_numbers, map_nums, number_as_i64, number_as_u64};
use tvm_serve::protocol::{
    server_metadata, tvm_to_v2_dtype, validate_shape, Datatype, JsonScalar, TensorData,
};

fn json(s: &str) -> Value {
    serde_json::from_str(s).unwrap()
}

fn read(data: &str, datatype: &str) -> Result<TensorData, String> {
    TensorData::from_json(&json(data), datatype)
}

fn f32s(xs: &[f32]) -> TensorData {
    TensorData::F32(xs.iter().map(|x| x.to_bits()).collect())
}

fn f64s(xs: &[f64]) -> TensorData {
    TensorData::F64(xs.iter().map(|x| x.to_bits()).collect())
}

#[test]
fn nested_arrays_are_read_in_row_major_order() {
    assert_eq!(read("[[1,2],[3,[4]],[],5]", "INT32"), Ok(TensorData::I32(vec![1, 2, 3, 4, 5])));
    assert_eq!(read("7", "UINT8"), Ok(TensorData::U8(vec![7])));
    assert_eq!(read("[]", "FP32"), Ok(f32s(&[])));
}

#[test]
fn floats_are_read_in_their_precision() {
    assert_eq!(
        read("[0.1, -2.5, 1, 16777217, 1e39, -0.0, 1e-46]", "FP32"),
        Ok(f32s(&[0.1, -2.5, 1.0, 16777216.0, f32::INFINITY, -0.0, 0.0]))
    );
    assert_eq!(
        read("[0.1, -3, 9007199254740993, 18446744073709551615, -9223372036854775808]", "FP64"),
        Ok(f64s(&[
            0.1,
            -3.0,
            9007199254740993i64 as f64,
            u64::MAX as f64,
            i64::MIN as f64
        ]))
    );
}

#[test]
fn integers_keep_full_precision() {
    assert_eq!(
        read("[9007199254740993, -9223372036854775808, 9223372036854775807]", "INT64"),
        Ok(TensorData::I64(vec![9007199254740993, i64::MIN, i64::MAX]))
    );
    assert_eq!(read("[18446744073709551615]", "UINT64"), Ok(TensorData::U64(vec![u64::MAX])));
}

#[test]
fn integer_slots_take_floats() {
    assert_eq!(
        read("[1.0, -1.9, 1e30, -1e30, 18446744073709551615]", "INT64"),
        Ok(TensorData::I64(vec![1, -1, i64::MAX, i64::MIN, i64::MAX]))
    );
    assert_eq!(
        read("[2.9, -1, -0.5, 1e30]", "UINT64"),
        Ok(TensorData::U64(vec![2, 0, 0, u64::MAX]))
    );
}

#[test]
fn narrow_integers_wrap() {
    assert_eq!(read("[127, 128, -129, 300]", "INT8"), Ok(TensorData::I8(vec![127, -128, 127, 44])));
    assert_eq!(read("[32768, -32769]", "INT16"), Ok(TensorData::I16(vec![-32768, 32767])));
    assert_eq!(read("[2147483648]", "INT32"), Ok(TensorData::I32(vec![i32::MIN])));
    assert_eq!(read("[255, 256]", "UINT8"), Ok(TensorData::U8(vec![255, 0])));
    assert_eq!(read("[65536, 65535]", "UINT16"), Ok(TensorData::U16(vec![0, 65535])));
    assert_eq!(read("[4294967297]", "UINT32"), Ok(TensorData::U32(vec![1])));
}

#[test]
fn other_elements_are_refused_by_their_text() {
    let fault = |s: &str| read(s, "FP32").unwrap_err();
    assert_eq!(fault("[1, \"a\\n\"]"), "unsupported element in data: \"a\\n\"");
    assert_eq!(fault("[[true], null]"), "unsupported element in data: true");
    assert_eq!(fault("null"), "unsupported element in data: null");
    assert_eq!(fault("[{\"a\": [1, 2.5]}]"), "unsupported element in data: {\"a\":[1,2.5]}");
    assert_eq!(read("[null]", "FP16").unwrap_err(), "unsupported element in data: null");
}

#[test]
fn other_datatypes_are_refused() {
    assert_eq!(
        read("[1]", "FP16").unwrap_err(),
        "datatype 'FP16' is not supported by this serve image (deferred)"
    );
    assert_eq!(read("[1]", "BOOL").unwrap_err(), "unsupported datatype 'BOOL'");
    assert_eq!(read("[1]", "fp32").unwrap_err(), "unsupported datatype 'fp32'");
    assert_eq!(read("[1]", "").unwrap_err(), "unsupported datatype ''");
}

#[test]
fn a_number_that_does_not_convert_is_named() {
    let v = json("[1, 2.5, -3]");
    let mut nums = Vec::new();
    collect_numbers(&v, &mut nums).unwrap();
    assert_eq!(nums.len(), 3);
    assert_eq!(map_nums(&nums, |n| n.as_f64().map(|x| x as i32)), Ok(vec![1, 2, -3]));
    assert_eq!(
        map_nums(&nums, |n| n.as_i64()),
        Err("number 2.5 not convertible to the target dtype".to_string())
    );
    assert_eq!(number_as_i64(nums[1]), Some(2));
    assert_eq!(number_as_u64(nums[2]), Some(0));
}

#[test]
fn collected_numbers_are_appended() {
    let (a, b) = (json("[1]"), json("[[2], \"x\"]"));
    let mut nums = Vec::new();
    collect_numbers(&a, &mut nums).unwrap();
    assert_eq!(
        collect_numbers(&b, &mut nums),
        Err("unsupported element in data: \"x\"".to_string())
    );
    let kept: Vec<Option<i64>> = nums.iter().map(|n| n.as_i64()).collect();
    assert_eq!(kept, vec![Some(1), Some(2)]);
}

#[test]
fn tensors_are_written_as_flat_numbers() {
    assert_eq!(
        f32s(&[0.1, f32::NAN, f32::INFINITY, -0.0, f32::from_bits(1)]).to_json(),
        vec![
            JsonScalar::Float((0.1f32 as f64).to_bits()),
            JsonScalar::Null,
            JsonScalar::Null,
            JsonScalar::Float((-0.0f64).to_bits()),
            JsonScalar::Float((f32::from_bits(1) as f64).to_bits())
        ]
    );
    assert_eq!(
        f64s(&[0.1, f64::NEG_INFINITY]).to_json(),
        vec![JsonScalar::Float(0.1f64.to_bits()), JsonScalar::Null]
    );
    assert_eq!(TensorData::I8(vec![-128]).to_json(), vec![JsonScalar::Signed(-128)]);
    assert_eq!(TensorData::I16(vec![-3]).to_json(), vec![JsonScalar::Signed(-3)]);
    assert_eq!(TensorData::I32(vec![i32::MIN]).to_json(), vec![JsonScalar::Signed(-2147483648)]);
    assert_eq!(TensorData::I64(vec![i64::MIN]).to_json(), vec![JsonScalar::Signed(i64::MIN)]);
    assert_eq!(TensorData::U8(vec![255]).to_json(), vec![JsonScalar::Unsigned(255)]);
    assert_eq!(TensorData::U16(vec![65535]).to_json(), vec![JsonScalar::Unsigned(65535)]);
    assert_eq!(TensorData::U32(vec![u32::MAX]).to_json(), vec![JsonScalar::Unsigned(4294967295)]);
    assert_eq!(TensorData::U64(vec![u64::MAX]).to_json(), vec![JsonScalar::Unsigned(u64::MAX)]);
}

fn as_value(entries: Vec<JsonScalar>) -> Value {
    Value::Array(
        entries
            .into_iter()
            .map(|e| match e {
                JsonScalar::Null => Value::Null,
                JsonScalar::Signed(i) => Value::from(i),
                JsonScalar::Unsigned(i) => Value::from(i),
                JsonScalar::Float(b) => Value::from(f64::from_bits(b)),
            })
            .collect(),
    )
}

#[test]
fn what_is_written_reads_back() {
    let tensors = vec![
        f32s(&[0.1, -0.0, f32::MAX, f32::from_bits(1), f32::MIN_POSITIVE]),
        f64s(&[0.1, -0.0, f64::MAX, 5e-324]),
        TensorData::I8(vec![-128, 127]),
        TensorData::I16(vec![i16::MIN, i16::MAX]),
        TensorData::I32(vec![i32::MIN, i32::MAX]),
        TensorData::I64(vec![i64::MIN, i64::MAX]),
        TensorData::U8(vec![0, 255]),
        TensorData::U16(vec![0, u16::MAX]),
        TensorData::U32(vec![0, u32::MAX]),
        TensorData::U64(vec![0, u64::MAX]),
    ];
    for t in tensors {
        let text = as_value(t.to_json()).to_string();
        assert_eq!(read(&text, t.datatype().v2()), Ok(t));
    }
}

#[test]
fn lengths_and_datatypes_of_tensors() {
    assert_eq!(f32s(&[1.0, 2.0]).len(), 2);
    assert_eq!(TensorData::U64(vec![]).len(), 0);
    assert_eq!(f64s(&[]).datatype(), Datatype::Fp64);
    assert_eq!(TensorData::U16(vec![]).datatype(), Datatype::Uint16);
}

#[test]
fn shapes_must_fit_their_data() {
    assert_eq!(validate_shape(0, &[2, 3], 6), Ok(()));
    assert_eq!(validate_shape(0, &[], 1), Ok(()));
    assert_eq!(validate_shape(0, &[0, 5], 0), Ok(()));
    assert_eq!(
        validate_shape(1, &[2, 3], 5),
        Err("input[1]: shape [2, 3] implies 6 elements but data has 5".to_string())
    );
    assert_eq!(
        validate_shape(0, &[], 0),
        Err("input[0]: shape [] implies 1 elements but data has 0".to_string())
    );
    assert_eq!(
        validate_shape(2, &[2, -3], 6),
        Err("input[2]: negative dim -3 in shape [2, -3]".to_string())
    );
    assert_eq!(
        validate_shape(0, &[i64::MAX, 2, -1], 0),
        Err("input[0]: shape [9223372036854775807, 2, -1] overflows".to_string())
    );
    assert_eq!(
        validate_shape(0, &[i64::MAX, 2, 0], 0),
        Err("input[0]: shape [9223372036854775807, 2, 0] overflows".to_string())
    );
    assert_eq!(
        validate_shape(0, &[0, -1], 0),
        Err("input[0]: negative dim -1 in shape [0, -1]".to_string())
    );
    assert_eq!(validate_shape(0, &[0, i64::MAX, i64::MAX], 0), Ok(()));
}

#[test]
fn tvm_types_have_v2_names() {
    let pairs = [
        ("float32", "FP32"),
        ("float64", "FP64"),
        ("int64", "INT64"),
        ("int32", "INT32"),
        ("int16", "INT16"),
        ("int8", "INT8"),
        ("uint8", "UINT8"),
        ("uint16", "UINT16"),
        ("uint32", "UINT32"),
        ("uint64", "UINT64"),
        ("", "FP32"),
        ("float16", "FP32"),
        ("bool", "FP32"),
    ];
    for (tvm, v2) in pairs {
        assert_eq!(tvm_to_v2_dtype(tvm), v2);
        assert_eq!(Datatype::from_v2(v2).unwrap().v2(), v2);
    }
    assert_eq!(Datatype::from_v2("FP16"), None);
    assert_eq!(Datatype::from_tvm("float16"), None);
}

#[test]
fn the_server_describes_itself() {
    let m = server_metadata();
    assert_eq!(m.name, "tvm-serve");
    assert_eq!(m.version, "2");
    assert!(m.extensions.is_empty());
}
