//! Open Inference v2 protocol types and rules, shared by the REST and gRPC sides.
//!
//! Tensor payloads are carried as [`TensorData`] over the native data types.
//! FP16 and BOOL are not supported. Elements of the two floating-point types are
//! held by their bits.
use crate::float_bits::{
    finite32, finite64, narrow, narrowed, narrowing_undoes_widening, widen, widened, LEAD_32,
    LEAD_64,
};
use crate::json::{
    as_f64_bits, collect_numbers, flattened, json_view, map_nums, number_as_i64, number_as_u64,
    number_f64, number_i64, number_u64, number_view, number_views, JsonView, NumberView,
};
use crate::text::{decimal, decimal_i64, decimal_u64, list_text, render_list, same_text, texts};
use vstd::prelude::*;

verus! {

/// A result whose value and error text are taken by their views.
pub open spec fn seen<T: View>(r: Result<T, String>) -> Result<T::V, Seq<char>> {
    match r {
        Ok(t) => Ok(t@),
        Err(m) => Err(m@),
    }
}

/// The tensor data types that can be served.
#[derive(Debug, Clone, Copy, PartialEq, Eq, Structural)]
pub enum Datatype {
    Fp32,
    Fp64,
    Int8,
    Int16,
    Int32,
    Int64,
    Uint8,
    Uint16,
    Uint32,
    Uint64,
}

/// The v2 name of a data type.
pub open spec fn v2_name(d: Datatype) -> Seq<char> {
    match d {
        Datatype::Fp32 => "FP32"@,
        Datatype::Fp64 => "FP64"@,
        Datatype::Int8 => "INT8"@,
        Datatype::Int16 => "INT16"@,
        Datatype::Int32 => "INT32"@,
        Datatype::Int64 => "INT64"@,
        Datatype::Uint8 => "UINT8"@,
        Datatype::Uint16 => "UINT16"@,
        Datatype::Uint32 => "UINT32"@,
        Datatype::Uint64 => "UINT64"@,
    }
}

/// The data type with a given v2 name.
pub open spec fn v2_datatype(s: Seq<char>) -> Option<Datatype> {
    if s == "FP32"@ {
        Some(Datatype::Fp32)
    } else if s == "FP64"@ {
        Some(Datatype::Fp64)
    } else if s == "INT8"@ {
        Some(Datatype::Int8)
    } else if s == "INT16"@ {
        Some(Datatype::Int16)
    } else if s == "INT32"@ {
        Some(Datatype::Int32)
    } else if s == "INT64"@ {
        Some(Datatype::Int64)
    } else if s == "UINT8"@ {
        Some(Datatype::Uint8)
    } else if s == "UINT16"@ {
        Some(Datatype::Uint16)
    } else if s == "UINT32"@ {
        Some(Datatype::Uint32)
    } else if s == "UINT64"@ {
        Some(Datatype::Uint64)
    } else {
        None
    }
}

/// The data type with a given TVM name.
pub open spec fn tvm_datatype(s: Seq<char>) -> Option<Datatype> {
    if s == "float32"@ {
        Some(Datatype::Fp32)
    } else if s == "float64"@ {
        Some(Datatype::Fp64)
    } else if s == "int8"@ {
        Some(Datatype::Int8)
    } else if s == "int16"@ {
        Some(Datatype::Int16)
    } else if s == "int32"@ {
        Some(Datatype::Int32)
    } else if s == "int64"@ {
        Some(Datatype::Int64)
    } else if s == "uint8"@ {
        Some(Datatype::Uint8)
    } else if s == "uint16"@ {
        Some(Datatype::Uint16)
    } else if s == "uint32"@ {
        Some(Datatype::Uint32)
    } else if s == "uint64"@ {
        Some(Datatype::Uint64)
    } else {
        None
    }
}

impl Datatype {
    /// Looks up a v2 name such as `FP32`.
    pub fn from_v2(name: &str) -> (r: Option<Datatype>)
        ensures
            r == v2_datatype(name@),
    {
        if same_text(name, "FP32") {
            Some(Datatype::Fp32)
        } else if same_text(name, "FP64") {
            Some(Datatype::Fp64)
        } else if same_text(name, "INT8") {
            Some(Datatype::Int8)
        } else if same_text(name, "INT16") {
            Some(Datatype::Int16)
        } else if same_text(name, "INT32") {
            Some(Datatype::Int32)
        } else if same_text(name, "INT64") {
            Some(Datatype::Int64)
        } else if same_text(name, "UINT8") {
            Some(Datatype::Uint8)
        } else if same_text(name, "UINT16") {
            Some(Datatype::Uint16)
        } else if same_text(name, "UINT32") {
            Some(Datatype::Uint32)
        } else if same_text(name, "UINT64") {
            Some(Datatype::Uint64)
        } else {
            None
        }
    }

    /// Looks up a TVM name such as `float32`.
    pub fn from_tvm(name: &str) -> (r: Option<Datatype>)
        ensures
            r == tvm_datatype(name@),
    {
        if same_text(name, "float32") {
            Some(Datatype::Fp32)
        } else if same_text(name, "float64") {
            Some(Datatype::Fp64)
        } else if same_text(name, "int8") {
            Some(Datatype::Int8)
        } else if same_text(name, "int16") {
            Some(Datatype::Int16)
        } else if same_text(name, "int32") {
            Some(Datatype::Int32)
        } else if same_text(name, "int64") {
            Some(Datatype::Int64)
        } else if same_text(name, "uint8") {
            Some(Datatype::Uint8)
        } else if same_text(name, "uint16") {
            Some(Datatype::Uint16)
        } else if same_text(name, "uint32") {
            Some(Datatype::Uint32)
        } else if same_text(name, "uint64") {
            Some(Datatype::Uint64)
        } else {
            None
        }
    }

    /// The v2 name, such as `FP32`.
    pub fn v2(self) -> (r: &'static str)
        ensures
            r@ == v2_name(self),
    {
        match self {
            Datatype::Fp32 => "FP32",
            Datatype::Fp64 => "FP64",
            Datatype::Int8 => "INT8",
            Datatype::Int16 => "INT16",
            Datatype::Int32 => "INT32",
            Datatype::Int64 => "INT64",
            Datatype::Uint8 => "UINT8",
            Datatype::Uint16 => "UINT16",
            Datatype::Uint32 => "UINT32",
            Datatype::Uint64 => "UINT64",
        }
    }
}

/// The v2 name that a tensor of a given TVM data type is published under. Names
/// that are not known, the empty one among them, count as `FP32`.
pub open spec fn published_datatype(tvm: Seq<char>) -> Seq<char> {
    match tvm_datatype(tvm) {
        Some(d) => v2_name(d),
        None => "FP32"@,
    }
}

/// TVM data type (such as `float32`) to Open Inference v2 data type (such as
/// `FP32`).
pub fn tvm_to_v2_dtype(dt: &str) -> (r: &'static str)
    ensures
        r@ == published_datatype(dt@),
{
    match Datatype::from_tvm(dt) {
        Some(d) => d.v2(),
        None => "FP32",
    }
}

/// Typed tensor payload. It holds no type of a transport or of the runtime, so
/// REST, gRPC and the worker share it. The floating-point variants hold bits.
#[derive(Debug, PartialEq)]
pub enum TensorData {
    F32(Vec<u32>),
    F64(Vec<u64>),
    I8(Vec<i8>),
    I16(Vec<i16>),
    I32(Vec<i32>),
    I64(Vec<i64>),
    U8(Vec<u8>),
    U16(Vec<u16>),
    U32(Vec<u32>),
    U64(Vec<u64>),
}

/// The elements of a tensor, with their type.
#[verifier::ext_equal]
pub enum TensorView {
    F32(Seq<u32>),
    F64(Seq<u64>),
    I8(Seq<i8>),
    I16(Seq<i16>),
    I32(Seq<i32>),
    I64(Seq<i64>),
    U8(Seq<u8>),
    U16(Seq<u16>),
    U32(Seq<u32>),
    U64(Seq<u64>),
}

impl View for TensorData {
    type V = TensorView;

    open spec fn view(&self) -> TensorView {
        match self {
            TensorData::F32(v) => TensorView::F32(v@),
            TensorData::F64(v) => TensorView::F64(v@),
            TensorData::I8(v) => TensorView::I8(v@),
            TensorData::I16(v) => TensorView::I16(v@),
            TensorData::I32(v) => TensorView::I32(v@),
            TensorData::I64(v) => TensorView::I64(v@),
            TensorData::U8(v) => TensorView::U8(v@),
            TensorData::U16(v) => TensorView::U16(v@),
            TensorData::U32(v) => TensorView::U32(v@),
            TensorData::U64(v) => TensorView::U64(v@),
        }
    }
}

impl TensorView {
    /// The number of elements.
    pub open spec fn count(self) -> nat {
        match self {
            TensorView::F32(v) => v.len(),
            TensorView::F64(v) => v.len(),
            TensorView::I8(v) => v.len(),
            TensorView::I16(v) => v.len(),
            TensorView::I32(v) => v.len(),
            TensorView::I64(v) => v.len(),
            TensorView::U8(v) => v.len(),
            TensorView::U16(v) => v.len(),
            TensorView::U32(v) => v.len(),
            TensorView::U64(v) => v.len(),
        }
    }

    /// The type of the elements.
    pub open spec fn datatype(self) -> Datatype {
        match self {
            TensorView::F32(_) => Datatype::Fp32,
            TensorView::F64(_) => Datatype::Fp64,
            TensorView::I8(_) => Datatype::Int8,
            TensorView::I16(_) => Datatype::Int16,
            TensorView::I32(_) => Datatype::Int32,
            TensorView::I64(_) => Datatype::Int64,
            TensorView::U8(_) => Datatype::Uint8,
            TensorView::U16(_) => Datatype::Uint16,
            TensorView::U32(_) => Datatype::Uint32,
            TensorView::U64(_) => Datatype::Uint64,
        }
    }

    /// Whether every floating-point element is a finite number.
    pub open spec fn finite(self) -> bool {
        match self {
            TensorView::F32(v) => forall|i: int| 0 <= i < v.len() ==> finite32(#[trigger] v[i]),
            TensorView::F64(v) => forall|i: int| 0 <= i < v.len() ==> finite64(#[trigger] v[i]),
            _ => true,
        }
    }
}

/// Numbers stored as elements of a data type. Integers are narrowed to the width
/// of the type by dropping high bits.
pub open spec fn tensor_of_numbers(d: Datatype, ns: Seq<NumberView>) -> TensorView {
    match d {
        Datatype::Fp32 => TensorView::F32(ns.map_values(|n: NumberView| narrowed(number_f64(n)))),
        Datatype::Fp64 => TensorView::F64(ns.map_values(|n: NumberView| number_f64(n))),
        Datatype::Int8 => TensorView::I8(ns.map_values(|n: NumberView| number_i64(n) as i8)),
        Datatype::Int16 => TensorView::I16(ns.map_values(|n: NumberView| number_i64(n) as i16)),
        Datatype::Int32 => TensorView::I32(ns.map_values(|n: NumberView| number_i64(n) as i32)),
        Datatype::Int64 => TensorView::I64(ns.map_values(|n: NumberView| number_i64(n))),
        Datatype::Uint8 => TensorView::U8(ns.map_values(|n: NumberView| number_u64(n) as u8)),
        Datatype::Uint16 => TensorView::U16(ns.map_values(|n: NumberView| number_u64(n) as u16)),
        Datatype::Uint32 => TensorView::U32(ns.map_values(|n: NumberView| number_u64(n) as u32)),
        Datatype::Uint64 => TensorView::U64(ns.map_values(|n: NumberView| number_u64(n))),
    }
}

/// The complaint of the REST side about a data type that it does not take.
pub open spec fn rest_datatype_fault(datatype: Seq<char>) -> Seq<char> {
    if datatype == "FP16"@ {
        "datatype 'FP16' is not supported by this serve image (deferred)"@
    } else {
        "unsupported datatype '"@ + datatype + "'"@
    }
}

/// What a JSON `data` field holds for a declared data type: the numbers of the
/// field as elements, or the complaint. A bad element is found before a bad type.
pub open spec fn decoded_json(data: JsonView, datatype: Seq<char>) -> Result<
    TensorView,
    Seq<char>,
> {
    match flattened(data) {
        Err(e) => Err(e),
        Ok(ns) => match v2_datatype(datatype) {
            Some(d) => Ok(tensor_of_numbers(d, ns)),
            None => Err(rest_datatype_fault(datatype)),
        },
    }
}

/// One entry of a JSON response array.
#[derive(Debug, Clone, Copy, PartialEq)]
pub enum JsonScalar {
    Null,
    Signed(i64),
    Unsigned(u64),
    Float(u64),
}

/// The number that an entry holds; `None` for `null`.
pub open spec fn scalar_number(s: JsonScalar) -> Option<NumberView> {
    match s {
        JsonScalar::Null => None,
        JsonScalar::Signed(i) => Some(NumberView::Int(i as int)),
        JsonScalar::Unsigned(i) => Some(NumberView::Int(i as int)),
        JsonScalar::Float(b) => Some(NumberView::Float(b)),
    }
}

/// The entry for a single: its exact value in double precision, or `null` where
/// it is not finite.
pub open spec fn scalar_of_f32(b: u32) -> JsonScalar {
    if finite32(b) {
        JsonScalar::Float(widened(b))
    } else {
        JsonScalar::Null
    }
}

/// The entry for a double: its value, or `null` where it is not finite.
pub open spec fn scalar_of_f64(b: u64) -> JsonScalar {
    if finite64(b) {
        JsonScalar::Float(b)
    } else {
        JsonScalar::Null
    }
}

/// The JSON entries of a tensor, in order.
pub open spec fn json_entries(t: TensorView) -> Seq<JsonScalar> {
    match t {
        TensorView::F32(v) => v.map_values(|x: u32| scalar_of_f32(x)),
        TensorView::F64(v) => v.map_values(|x: u64| scalar_of_f64(x)),
        TensorView::I8(v) => v.map_values(|x: i8| JsonScalar::Signed(x as i64)),
        TensorView::I16(v) => v.map_values(|x: i16| JsonScalar::Signed(x as i64)),
        TensorView::I32(v) => v.map_values(|x: i32| JsonScalar::Signed(x as i64)),
        TensorView::I64(v) => v.map_values(|x: i64| JsonScalar::Signed(x)),
        TensorView::U8(v) => v.map_values(|x: u8| JsonScalar::Unsigned(x as u64)),
        TensorView::U16(v) => v.map_values(|x: u16| JsonScalar::Unsigned(x as u64)),
        TensorView::U32(v) => v.map_values(|x: u32| JsonScalar::Unsigned(x as u64)),
        TensorView::U64(v) => v.map_values(|x: u64| JsonScalar::Unsigned(x)),
    }
}

/// Applies `f` to every element.
pub fn map_elements<A: Copy, B, F: Fn(A) -> B>(v: &Vec<A>, f: F) -> (r: Vec<B>)
    requires
        forall|x: A| call_requires(f, (x,)),
    ensures
        r@.len() == v@.len(),
        forall|i: int| 0 <= i < r@.len() ==> call_ensures(f, (v@[i],), #[trigger] r@[i]),
{
    let mut r: Vec<B> = Vec::new();
    for i in 0..v.len()
        invariant
            forall|x: A| call_requires(f, (x,)),
            r@.len() == i,
            forall|j: int| 0 <= j < i ==> call_ensures(f, (v@[j],), #[trigger] r@[j]),
    {
        r.push(f(v[i]));
    }
    r
}

impl TensorData {
    /// The number of elements.
    pub fn len(&self) -> (r: usize)
        ensures
            r == self@.count(),
    {
        match self {
            TensorData::F32(v) => v.len(),
            TensorData::F64(v) => v.len(),
            TensorData::I8(v) => v.len(),
            TensorData::I16(v) => v.len(),
            TensorData::I32(v) => v.len(),
            TensorData::I64(v) => v.len(),
            TensorData::U8(v) => v.len(),
            TensorData::U16(v) => v.len(),
            TensorData::U32(v) => v.len(),
            TensorData::U64(v) => v.len(),
        }
    }

    /// The data type of the elements.
    pub fn datatype(&self) -> (r: Datatype)
        ensures
            r == self@.datatype(),
    {
        match self {
            TensorData::F32(_) => Datatype::Fp32,
            TensorData::F64(_) => Datatype::Fp64,
            TensorData::I8(_) => Datatype::Int8,
            TensorData::I16(_) => Datatype::Int16,
            TensorData::I32(_) => Datatype::Int32,
            TensorData::I64(_) => Datatype::Int64,
            TensorData::U8(_) => Datatype::Uint8,
            TensorData::U16(_) => Datatype::Uint16,
            TensorData::U32(_) => Datatype::Uint32,
            TensorData::U64(_) => Datatype::Uint64,
        }
    }

    /// Reads a v2 input's `data` (flat or nested numbers) for the declared
    /// `datatype`. Integers are read directly, so INT64 keeps full precision;
    /// `1.0` is accepted in an integer slot. FP16 is rejected.
    pub fn from_json(v: &serde_json::Value, datatype: &str) -> (r: Result<TensorData, String>)
        ensures
            seen(r) == decoded_json(json_view(*v), datatype@),
    {
        let mut nums: Vec<&serde_json::Number> = Vec::new();
        assert(number_views(nums@) =~= Seq::<NumberView>::empty());
        match collect_numbers(v, &mut nums) {
            Ok(()) => {},
            Err(m) => return Err(m),
        }
        let ghost ns = number_views(nums@);
        assert(flattened(json_view(*v)) matches Ok(all) && all =~= ns);
        match Datatype::from_v2(datatype) {
            Some(Datatype::Fp32) => {
                let convert = |n: &serde_json::Number| -> (r: Option<u32>)
                    ensures
                        r == Some(narrowed(number_f64(number_view(*n)))),
                    {
                        match as_f64_bits(n) {
                            Some(x) => Some(narrow(x)),
                            None => None,
                        }
                    };
                match map_nums(&nums, convert) {
                    Ok(v) => {
                        assert(TensorView::F32(v@) =~= tensor_of_numbers(Datatype::Fp32, ns));
                        Ok(TensorData::F32(v))
                    },
                    Err(m) => Err(m),
                }
            },
            Some(Datatype::Fp64) => {
                let convert = |n: &serde_json::Number| -> (r: Option<u64>)
                    ensures
                        r == Some(number_f64(number_view(*n))),
                    {
                        match as_f64_bits(n) {
                            Some(x) => Some(x),
                            None => None,
                        }
                    };
                match map_nums(&nums, convert) {
                    Ok(v) => {
                        assert(TensorView::F64(v@) =~= tensor_of_numbers(Datatype::Fp64, ns));
                        Ok(TensorData::F64(v))
                    },
                    Err(m) => Err(m),
                }
            },
            Some(Datatype::Int8) => {
                let convert = |n: &serde_json::Number| -> (r: Option<i8>)
                    ensures
                        r == Some(number_i64(number_view(*n)) as i8),
                    {
                        match number_as_i64(n) {
                            Some(x) => Some(x as i8),
                            None => None,
                        }
                    };
                match map_nums(&nums, convert) {
                    Ok(v) => {
                        assert(TensorView::I8(v@) =~= tensor_of_numbers(Datatype::Int8, ns));
                        Ok(TensorData::I8(v))
                    },
                    Err(m) => Err(m),
                }
            },
            Some(Datatype::Int16) => {
                let convert = |n: &serde_json::Number| -> (r: Option<i16>)
                    ensures
                        r == Some(number_i64(number_view(*n)) as i16),
                    {
                        match number_as_i64(n) {
                            Some(x) => Some(x as i16),
                            None => None,
                        }
                    };
                match map_nums(&nums, convert) {
                    Ok(v) => {
                        assert(TensorView::I16(v@) =~= tensor_of_numbers(Datatype::Int16, ns));
                        Ok(TensorData::I16(v))
                    },
                    Err(m) => Err(m),
                }
            },
            Some(Datatype::Int32) => {
                let convert = |n: &serde_json::Number| -> (r: Option<i32>)
                    ensures
                        r == Some(number_i64(number_view(*n)) as i32),
                    {
                        match number_as_i64(n) {
                            Some(x) => Some(x as i32),
                            None => None,
                        }
                    };
                match map_nums(&nums, convert) {
                    Ok(v) => {
                        assert(TensorView::I32(v@) =~= tensor_of_numbers(Datatype::Int32, ns));
                        Ok(TensorData::I32(v))
                    },
                    Err(m) => Err(m),
                }
            },
            Some(Datatype::Int64) => {
                let convert = |n: &serde_json::Number| -> (r: Option<i64>)
                    ensures
                        r == Some(number_i64(number_view(*n))),
                    {
                        match number_as_i64(n) {
                            Some(x) => Some(x),
                            None => None,
                        }
                    };
                match map_nums(&nums, convert) {
                    Ok(v) => {
                        assert(TensorView::I64(v@) =~= tensor_of_numbers(Datatype::Int64, ns));
                        Ok(TensorData::I64(v))
                    },
                    Err(m) => Err(m),
                }
            },
            Some(Datatype::Uint8) => {
                let convert = |n: &serde_json::Number| -> (r: Option<u8>)
                    ensures
                        r == Some(number_u64(number_view(*n)) as u8),
                    {
                        match number_as_u64(n) {
                            Some(x) => Some(x as u8),
                            None => None,
                        }
                    };
                match map_nums(&nums, convert) {
                    Ok(v) => {
                        assert(TensorView::U8(v@) =~= tensor_of_numbers(Datatype::Uint8, ns));
                        Ok(TensorData::U8(v))
                    },
                    Err(m) => Err(m),
                }
            },
            Some(Datatype::Uint16) => {
                let convert = |n: &serde_json::Number| -> (r: Option<u16>)
                    ensures
                        r == Some(number_u64(number_view(*n)) as u16),
                    {
                        match number_as_u64(n) {
                            Some(x) => Some(x as u16),
                            None => None,
                        }
                    };
                match map_nums(&nums, convert) {
                    Ok(v) => {
                        assert(TensorView::U16(v@) =~= tensor_of_numbers(Datatype::Uint16, ns));
                        Ok(TensorData::U16(v))
                    },
                    Err(m) => Err(m),
                }
            },
            Some(Datatype::Uint32) => {
                let convert = |n: &serde_json::Number| -> (r: Option<u32>)
                    ensures
                        r == Some(number_u64(number_view(*n)) as u32),
                    {
                        match number_as_u64(n) {
                            Some(x) => Some(x as u32),
                            None => None,
                        }
                    };
                match map_nums(&nums, convert) {
                    Ok(v) => {
                        assert(TensorView::U32(v@) =~= tensor_of_numbers(Datatype::Uint32, ns));
                        Ok(TensorData::U32(v))
                    },
                    Err(m) => Err(m),
                }
            },
            Some(Datatype::Uint64) => {
                let convert = |n: &serde_json::Number| -> (r: Option<u64>)
                    ensures
                        r == Some(number_u64(number_view(*n))),
                    {
                        match number_as_u64(n) {
                            Some(x) => Some(x),
                            None => None,
                        }
                    };
                match map_nums(&nums, convert) {
                    Ok(v) => {
                        assert(TensorView::U64(v@) =~= tensor_of_numbers(Datatype::Uint64, ns));
                        Ok(TensorData::U64(v))
                    },
                    Err(m) => Err(m),
                }
            },
            None => {
                if same_text(datatype, "FP16") {
                    return Err(
                        "datatype 'FP16' is not supported by this serve image (deferred)".to_string(),
                    );
                }
                let mut message = "unsupported datatype '".to_string();
                message.append(datatype);
                message.append("'");
                Err(message)
            },
        }
    }

    /// The entries of a v2 response `data` array (flat, row-major).
    pub fn to_json(&self) -> (r: Vec<JsonScalar>)
        ensures
            r@ == json_entries(self@),
    {
        match self {
            TensorData::F32(v) => {
                let entry = |x: u32| -> (r: JsonScalar)
                    ensures
                        r == scalar_of_f32(x),
                    {
                        if (x / LEAD_32) % 256 < 255 {
                            JsonScalar::Float(widen(x))
                        } else {
                            JsonScalar::Null
                        }
                    };
                let r = map_elements(v, entry);
                assert(r@ =~= json_entries(self@));
                r
            },
            TensorData::F64(v) => {
                let entry = |x: u64| -> (r: JsonScalar)
                    ensures
                        r == scalar_of_f64(x),
                    {
                        if (x / LEAD_64) % 2048 < 2047 {
                            JsonScalar::Float(x)
                        } else {
                            JsonScalar::Null
                        }
                    };
                let r = map_elements(v, entry);
                assert(r@ =~= json_entries(self@));
                r
            },
            TensorData::I8(v) => {
                let entry = |x: i8| -> (r: JsonScalar)
                    ensures
                        r == JsonScalar::Signed(x as i64),
                    {
                        JsonScalar::Signed(x as i64)
                    };
                let r = map_elements(v, entry);
                assert(r@ =~= json_entries(self@));
                r
            },
            TensorData::I16(v) => {
                let entry = |x: i16| -> (r: JsonScalar)
                    ensures
                        r == JsonScalar::Signed(x as i64),
                    {
                        JsonScalar::Signed(x as i64)
                    };
                let r = map_elements(v, entry);
                assert(r@ =~= json_entries(self@));
                r
            },
            TensorData::I32(v) => {
                let entry = |x: i32| -> (r: JsonScalar)
                    ensures
                        r == JsonScalar::Signed(x as i64),
                    {
                        JsonScalar::Signed(x as i64)
                    };
                let r = map_elements(v, entry);
                assert(r@ =~= json_entries(self@));
                r
            },
            TensorData::I64(v) => {
                let entry = |x: i64| -> (r: JsonScalar)
                    ensures
                        r == JsonScalar::Signed(x),
                    {
                        JsonScalar::Signed(x)
                    };
                let r = map_elements(v, entry);
                assert(r@ =~= json_entries(self@));
                r
            },
            TensorData::U8(v) => {
                let entry = |x: u8| -> (r: JsonScalar)
                    ensures
                        r == JsonScalar::Unsigned(x as u64),
                    {
                        JsonScalar::Unsigned(x as u64)
                    };
                let r = map_elements(v, entry);
                assert(r@ =~= json_entries(self@));
                r
            },
            TensorData::U16(v) => {
                let entry = |x: u16| -> (r: JsonScalar)
                    ensures
                        r == JsonScalar::Unsigned(x as u64),
                    {
                        JsonScalar::Unsigned(x as u64)
                    };
                let r = map_elements(v, entry);
                assert(r@ =~= json_entries(self@));
                r
            },
            TensorData::U32(v) => {
                let entry = |x: u32| -> (r: JsonScalar)
                    ensures
                        r == JsonScalar::Unsigned(x as u64),
                    {
                        JsonScalar::Unsigned(x as u64)
                    };
                let r = map_elements(v, entry);
                assert(r@ =~= json_entries(self@));
                r
            },
            TensorData::U64(v) => {
                let entry = |x: u64| -> (r: JsonScalar)
                    ensures
                        r == JsonScalar::Unsigned(x),
                    {
                        JsonScalar::Unsigned(x)
                    };
                let r = map_elements(v, entry);
                assert(r@ =~= json_entries(self@));
                r
            },
        }
    }
}

/// Why a shape has no element count.
pub enum ShapeFault {
    Negative(i64),
    Overflow,
}

/// The number of elements of a shape, multiplied up from the first dimension on.
/// The first dimension that is negative, or that takes the product out of the
/// range of `i64`, is the fault.
pub open spec fn element_count(shape: Seq<i64>) -> Result<int, ShapeFault>
    decreases shape.len(),
{
    if shape.len() == 0 {
        Ok(1)
    } else {
        match element_count(shape.drop_last()) {
            Err(f) => Err(f),
            Ok(n) => if shape.last() < 0 {
                Err(ShapeFault::Negative(shape.last()))
            } else if n * shape.last() > i64::MAX {
                Err(ShapeFault::Overflow)
            } else {
                Ok(n * shape.last())
            },
        }
    }
}

/// The complaint about a shape that does not fit its data; `None` where it does.
pub open spec fn shape_fault(idx: nat, shape: Seq<i64>, data_len: nat) -> Option<Seq<char>> {
    match element_count(shape) {
        Err(ShapeFault::Negative(d)) => Some(
            "input["@ + decimal(idx as int) + "]: negative dim "@ + decimal(d as int)
                + " in shape "@ + list_text(shape),
        ),
        Err(ShapeFault::Overflow) => Some(
            "input["@ + decimal(idx as int) + "]: shape "@ + list_text(shape) + " overflows"@,
        ),
        Ok(n) => if n != data_len {
            Some(
                "input["@ + decimal(idx as int) + "]: shape "@ + list_text(shape) + " implies "@
                    + decimal(n) + " elements but data has "@ + decimal(data_len as int),
            )
        } else {
            None
        },
    }
}

proof fn first_dimension_fault_decides(shape: Seq<i64>, k: int)
    requires
        0 <= k <= shape.len(),
        element_count(shape.take(k)) is Err,
    ensures
        element_count(shape) == element_count(shape.take(k)),
    decreases shape.len() - k,
{
    if k < shape.len() {
        assert(shape.take(k + 1).drop_last() == shape.take(k));
        first_dimension_fault_decides(shape, k + 1);
    } else {
        assert(shape.take(k) == shape);
    }
}

/// Checks a shape against the length of its data: no negative dimension, and a
/// product that fits in `i64` and equals `data_len`. It stands between a client's
/// shape and the construction of a tensor.
pub fn validate_shape(idx: usize, shape: &[i64], data_len: usize) -> (r: Result<(), String>)
    ensures
        match shape_fault(idx as nat, shape@, data_len as nat) {
            None => r is Ok,
            Some(text) => r matches Err(m) && m@ == text,
        },
        r is Ok ==> product(shape@) == data_len && forall|i: int|
            0 <= i < shape@.len() ==> (#[trigger] shape@[i]) >= 0,
{
    let mut numel: i64 = 1;
    for i in 0..shape.len()
        invariant
            numel >= 0,
            element_count(shape@.take(i as int)) == Ok::<int, ShapeFault>(numel as int),
    {
        let d: i64 = shape[i];
        assert(shape@.take(i + 1).drop_last() == shape@.take(i as int));
        if d < 0 {
            proof {
                first_dimension_fault_decides(shape@, i + 1);
            }
            let mut m = "input[".to_string();
            m.append(decimal_u64(idx as u64).as_str());
            m.append("]: negative dim ");
            m.append(decimal_i64(d).as_str());
            m.append(" in shape ");
            m.append(render_list(shape).as_str());
            return Err(m);
        }
        assert(numel * d >= 0) by (nonlinear_arith)
            requires
                numel >= 0,
                d >= 0,
        ;
        match numel.checked_mul(d) {
            Some(n) => {
                numel = n;
            },
            None => {
                proof {
                    first_dimension_fault_decides(shape@, i + 1);
                }
                let mut m = "input[".to_string();
                m.append(decimal_u64(idx as u64).as_str());
                m.append("]: shape ");
                m.append(render_list(shape).as_str());
                m.append(" overflows");
                return Err(m);
            },
        }
    }
    assert(shape@.take(shape@.len() as int) == shape@);
    if numel as u64 != data_len as u64 {
        let mut m = "input[".to_string();
        m.append(decimal_u64(idx as u64).as_str());
        m.append("]: shape ");
        m.append(render_list(shape).as_str());
        m.append(" implies ");
        m.append(decimal_i64(numel).as_str());
        m.append(" elements but data has ");
        m.append(decimal_u64(data_len as u64).as_str());
        return Err(m);
    }
    proof {
        accepted_shape_counts_its_data(idx as nat, shape@, data_len as nat);
    }
    Ok(())
}

/// The product of the dimensions.
pub open spec fn product(shape: Seq<i64>) -> int
    decreases shape.len(),
{
    if shape.len() == 0 {
        1
    } else {
        product(shape.drop_last()) * shape.last()
    }
}

/// An accepted shape has no negative dimension, and its dimensions multiply to
/// the number of elements.
pub proof fn accepted_shape_counts_its_data(idx: nat, shape: Seq<i64>, data_len: nat)
    requires
        shape_fault(idx, shape, data_len) is None,
    ensures
        product(shape) == data_len,
        forall|i: int| 0 <= i < shape.len() ==> shape[i] >= 0,
{
    counted_shape_is_product(shape);
}

proof fn counted_shape_is_product(shape: Seq<i64>)
    requires
        element_count(shape) is Ok,
    ensures
        element_count(shape) == Ok::<int, ShapeFault>(product(shape)),
        product(shape) >= 0,
        forall|i: int| 0 <= i < shape.len() ==> shape[i] >= 0,
    decreases shape.len(),
{
    if shape.len() > 0 {
        counted_shape_is_product(shape.drop_last());
        assert forall|i: int| 0 <= i < shape.len() implies shape[i] >= 0 by {
            if i < shape.len() - 1 {
                assert(shape[i] == shape.drop_last()[i]);
            }
        }
        assert(product(shape.drop_last()) * shape.last() >= 0) by (nonlinear_arith)
            requires
                product(shape.drop_last()) >= 0,
                shape.last() >= 0,
        ;
    }
}

/// A shape without negative dimensions, whose partial products stay in the range
/// of `i64` and which multiplies to the number of elements, is accepted.
pub proof fn matching_shape_is_accepted(idx: nat, shape: Seq<i64>, data_len: nat)
    requires
        forall|i: int| 0 <= i < shape.len() ==> shape[i] >= 0,
        forall|k: int| 0 <= k <= shape.len() ==> product(#[trigger] shape.take(k)) <= i64::MAX,
        product(shape) == data_len,
    ensures
        shape_fault(idx, shape, data_len) is None,
{
    partial_products_count(shape, shape.len() as int);
    assert(shape.take(shape.len() as int) == shape);
}

proof fn partial_products_count(shape: Seq<i64>, k: int)
    requires
        0 <= k <= shape.len(),
        forall|i: int| 0 <= i < shape.len() ==> shape[i] >= 0,
        forall|j: int| 0 <= j <= shape.len() ==> product(#[trigger] shape.take(j)) <= i64::MAX,
    ensures
        element_count(shape.take(k)) == Ok::<int, ShapeFault>(product(shape.take(k))),
    decreases k,
{
    if k > 0 {
        partial_products_count(shape, k - 1);
        assert(shape.take(k).drop_last() == shape.take(k - 1));
    }
}

/// A data type is found again under its v2 name.
pub proof fn v2_names_are_distinct(d: Datatype)
    ensures
        v2_datatype(v2_name(d)) == Some(d),
{
    reveal_strlit("FP32");
    reveal_strlit("FP64");
    reveal_strlit("INT8");
    reveal_strlit("INT16");
    reveal_strlit("INT32");
    reveal_strlit("INT64");
    reveal_strlit("UINT8");
    reveal_strlit("UINT16");
    reveal_strlit("UINT32");
    reveal_strlit("UINT64");
    let s = v2_name(d);
    assert(s[s.len() - 1] == s.last());
}

/// Whatever data type a tensor is published under, requests may use it.
pub proof fn published_datatypes_are_accepted(tvm: Seq<char>)
    ensures
        v2_datatype(published_datatype(tvm)) == Some(
            match tvm_datatype(tvm) {
                Some(d) => d,
                None => Datatype::Fp32,
            },
        ),
{
    match tvm_datatype(tvm) {
        Some(d) => v2_names_are_distinct(d),
        None => v2_names_are_distinct(Datatype::Fp32),
    }
}

/// FP16 has no entry among the supported data types.
pub(crate) proof fn half_precision_is_unknown()
    ensures
        v2_datatype("FP16"@) is None,
{
    reveal_strlit("FP16");
    reveal_strlit("FP32");
    reveal_strlit("FP64");
    reveal_strlit("INT8");
    reveal_strlit("INT16");
    reveal_strlit("INT32");
    reveal_strlit("INT64");
    reveal_strlit("UINT8");
    reveal_strlit("UINT16");
    reveal_strlit("UINT32");
    reveal_strlit("UINT64");
    assert("FP16"@[2] != "FP32"@[2]);
    assert("FP16"@[2] != "FP64"@[2]);
    assert("FP16"@[0] != "INT8"@[0]);
}

/// No JSON data is taken for the data type FP16.
pub proof fn json_rejects_half_precision(data: JsonView)
    ensures
        decoded_json(data, "FP16"@) is Err,
{
    half_precision_is_unknown();
}

/// The numbers of the JSON entries of a tensor.
pub open spec fn entry_numbers(t: TensorView) -> Seq<NumberView> {
    json_entries(t).map_values(|s: JsonScalar| scalar_number(s)->0)
}

/// What a tensor is written as in JSON reads back as the same tensor, under its
/// own data type, as long as its elements are numbers: JSON has no infinities
/// and no NaN.
pub proof fn json_round_trip(t: TensorView)
    requires
        t.finite(),
    ensures
        forall|i: int|
            0 <= i < json_entries(t).len() ==> scalar_number(#[trigger] json_entries(t)[i]) is Some,
        tensor_of_numbers(t.datatype(), entry_numbers(t)) == t,
{
    let back = tensor_of_numbers(t.datatype(), entry_numbers(t));
    if let TensorView::F32(v) = t {
        assert forall|i: int| 0 <= i < v.len() implies back->F32_0[i] == #[trigger] v[i] by {
            assert(finite32(v[i]));
            narrowing_undoes_widening(v[i]);
        }
    }
    assert(back =~= t);
}

/// A REST inference request. Other fields of the v2 request are ignored: the
/// response always holds every output of the model.
#[derive(Debug)]
pub struct InferRequest {
    pub id: String,
    pub inputs: Vec<RequestInput>,
}

/// One input tensor of a REST request.
#[derive(Debug)]
pub struct RequestInput {
    pub name: String,
    pub shape: Vec<i64>,
    pub datatype: String,
    /// A flat or arbitrarily nested array of numbers, see [`TensorData::from_json`].
    pub data: serde_json::Value,
}

/// The contents of a [`RequestInput`].
#[verifier::ext_equal]
pub struct RequestInputView {
    pub name: Seq<char>,
    pub shape: Seq<i64>,
    pub datatype: Seq<char>,
    pub data: JsonView,
}

impl View for RequestInput {
    type V = RequestInputView;

    open spec fn view(&self) -> RequestInputView {
        RequestInputView {
            name: self.name@,
            shape: self.shape@,
            datatype: self.datatype@,
            data: json_view(self.data),
        }
    }
}

/// One output tensor of a REST response.
#[derive(Debug)]
pub struct ResponseOutput {
    pub name: String,
    pub shape: Vec<i64>,
    pub datatype: String,
    /// Flat and row-major, see [`TensorData::to_json`].
    pub data: Vec<JsonScalar>,
}

/// The contents of a [`ResponseOutput`].
#[verifier::ext_equal]
pub struct ResponseOutputView {
    pub name: Seq<char>,
    pub shape: Seq<i64>,
    pub datatype: Seq<char>,
    pub data: Seq<JsonScalar>,
}

impl View for ResponseOutput {
    type V = ResponseOutputView;

    open spec fn view(&self) -> ResponseOutputView {
        ResponseOutputView {
            name: self.name@,
            shape: self.shape@,
            datatype: self.datatype@,
            data: self.data@,
        }
    }
}

/// What a REST response tells beside the outputs.
#[derive(Debug, Clone, Copy, PartialEq)]
pub struct ResponseParameters {
    /// The bits of a double.
    pub inference_time_ms: u64,
}

/// A REST inference response.
#[derive(Debug)]
pub struct InferResponse {
    pub model_name: String,
    pub model_version: String,
    pub id: String,
    pub outputs: Vec<ResponseOutput>,
    pub parameters: ResponseParameters,
}

/// The contents of an [`InferResponse`].
#[verifier::ext_equal]
pub struct InferResponseView {
    pub model_name: Seq<char>,
    pub model_version: Seq<char>,
    pub id: Seq<char>,
    pub outputs: Seq<ResponseOutputView>,
    pub parameters: ResponseParameters,
}

impl View for InferResponse {
    type V = InferResponseView;

    open spec fn view(&self) -> InferResponseView {
        InferResponseView {
            model_name: self.model_name@,
            model_version: self.model_version@,
            id: self.id@,
            outputs: self.outputs@.map_values(|o: ResponseOutput| o@),
            parameters: self.parameters,
        }
    }
}

/// How a client maps the elements of a quantized tensor to real numbers and back:
/// `real = (q - zero_point) * scale`. Per-axis quantization has an entry for each
/// index of the axis `quantized_dimension`.
#[derive(Debug)]
pub struct Quantization {
    /// The bits of doubles.
    pub scale: Vec<u64>,
    pub zero_point: Vec<i64>,
    pub quantized_dimension: Option<i64>,
}

/// The contents of a [`Quantization`].
#[verifier::ext_equal]
pub struct QuantizationView {
    pub scale: Seq<u64>,
    pub zero_point: Seq<i64>,
    pub quantized_dimension: Option<i64>,
}

impl View for Quantization {
    type V = QuantizationView;

    open spec fn view(&self) -> QuantizationView {
        QuantizationView {
            scale: self.scale@,
            zero_point: self.zero_point@,
            quantized_dimension: self.quantized_dimension,
        }
    }
}

/// What is published of a tensor of the model.
#[derive(Debug)]
pub struct TensorMetadata {
    pub name: String,
    pub datatype: String,
    pub shape: Vec<i64>,
    pub parameters: Option<Quantization>,
}

/// The contents of a [`TensorMetadata`].
#[verifier::ext_equal]
pub struct TensorMetadataView {
    pub name: Seq<char>,
    pub datatype: Seq<char>,
    pub shape: Seq<i64>,
    pub parameters: Option<QuantizationView>,
}

impl View for TensorMetadata {
    type V = TensorMetadataView;

    open spec fn view(&self) -> TensorMetadataView {
        TensorMetadataView {
            name: self.name@,
            datatype: self.datatype@,
            shape: self.shape@,
            parameters: match self.parameters {
                Some(q) => Some(q@),
                None => None,
            },
        }
    }
}

/// The contents of a list of tensor descriptions.
pub open spec fn metadata_views(v: Seq<TensorMetadata>) -> Seq<TensorMetadataView> {
    v.map_values(|t: TensorMetadata| t@)
}

/// What is published of the model.
#[derive(Debug)]
pub struct ModelMetadata {
    pub name: String,
    pub versions: Vec<String>,
    pub platform: String,
    pub inputs: Vec<TensorMetadata>,
    pub outputs: Vec<TensorMetadata>,
}

/// The contents of a [`ModelMetadata`].
#[verifier::ext_equal]
pub struct ModelMetadataView {
    pub name: Seq<char>,
    pub versions: Seq<Seq<char>>,
    pub platform: Seq<char>,
    pub inputs: Seq<TensorMetadataView>,
    pub outputs: Seq<TensorMetadataView>,
}

impl View for ModelMetadata {
    type V = ModelMetadataView;

    open spec fn view(&self) -> ModelMetadataView {
        ModelMetadataView {
            name: self.name@,
            versions: texts(self.versions@),
            platform: self.platform@,
            inputs: metadata_views(self.inputs@),
            outputs: metadata_views(self.outputs@),
        }
    }
}

/// What is published of the server.
#[derive(Debug)]
pub struct ServerMetadata {
    pub name: String,
    pub version: String,
    pub extensions: Vec<String>,
}

/// The contents of a [`ServerMetadata`].
#[verifier::ext_equal]
pub struct ServerMetadataView {
    pub name: Seq<char>,
    pub version: Seq<char>,
    pub extensions: Seq<Seq<char>>,
}

impl View for ServerMetadata {
    type V = ServerMetadataView;

    open spec fn view(&self) -> ServerMetadataView {
        ServerMetadataView {
            name: self.name@,
            version: self.version@,
            extensions: texts(self.extensions@),
        }
    }
}

/// Describes the server. Both transports give this answer.
pub fn server_metadata() -> (r: ServerMetadata)
    ensures
        r@ == (ServerMetadataView { name: "tvm-serve"@, version: "2"@, extensions: seq![] }),
{
    let r = ServerMetadata {
        name: "tvm-serve".to_string(),
        version: "2".to_string(),
        extensions: Vec::new(),
    };
    assert(r@.extensions =~= seq![]);
    r
}

} // verus!
