//! Laws of tensors: what their elements are, from JSON data, from raw bytes and from
//! typed gRPC contents, and what they are written as.
use crate::float_bits::{
    distance, finite32, finite64, int_to_double, magnitude32, magnitude64, negative32,
    negative64, widening_is_exact, INFINITY_32,
};
use crate::grpc::{
    contents_of, decoded_contents, decoded_grpc, decoded_raw, le_value, ContentsView,
    InferTensorContents,
};
use crate::json::{flattened, number_i64, number_u64, JsonView, NumberView};
use crate::laws::numbers::{
    doubles_become_the_nearest_single, integers_become_the_nearest_double,
    short_integers_keep_their_value, size, small_integers_keep_their_value_in_a_single,
};
use crate::protocol::{
    accepted_shape_counts_its_data, decoded_json, element_count, json_entries,
    matching_shape_is_accepted, product, published_datatype, seen, shape_fault, tvm_datatype,
    v2_datatype, v2_name, v2_names_are_distinct, Datatype, JsonScalar, ShapeFault, TensorData,
    TensorView,
};
use crate::text::{decimal, list_text};
use vstd::arithmetic::mul::lemma_mul_is_associative;
use vstd::arithmetic::power2::pow2;
use vstd::prelude::*;

verus! {

/// The v2 names, and that no other name is taken.
pub proof fn v2_names_are_these(s: Seq<char>)
    ensures
        v2_name(Datatype::Fp32) == "FP32"@,
        v2_name(Datatype::Fp64) == "FP64"@,
        v2_name(Datatype::Int8) == "INT8"@,
        v2_name(Datatype::Int16) == "INT16"@,
        v2_name(Datatype::Int32) == "INT32"@,
        v2_name(Datatype::Int64) == "INT64"@,
        v2_name(Datatype::Uint8) == "UINT8"@,
        v2_name(Datatype::Uint16) == "UINT16"@,
        v2_name(Datatype::Uint32) == "UINT32"@,
        v2_name(Datatype::Uint64) == "UINT64"@,
        v2_datatype(s) matches Some(d) ==> s == v2_name(d),
        v2_datatype(s) is None ==> forall|d: Datatype| s != #[trigger] v2_name(d),
{
    if v2_datatype(s) is None {
        assert forall|d: Datatype| s != #[trigger] v2_name(d) by {
            v2_names_are_distinct(d);
        }
    }
}

/// A model's data type is published under the v2 name of the same kind and width,
/// and only the ten TVM names are known.
pub proof fn tvm_names_are_published_as_these(s: Seq<char>)
    ensures
        s == "float32"@ ==> published_datatype(s) == "FP32"@,
        s == "float64"@ ==> published_datatype(s) == "FP64"@,
        s == "int8"@ ==> published_datatype(s) == "INT8"@,
        s == "int16"@ ==> published_datatype(s) == "INT16"@,
        s == "int32"@ ==> published_datatype(s) == "INT32"@,
        s == "int64"@ ==> published_datatype(s) == "INT64"@,
        s == "uint8"@ ==> published_datatype(s) == "UINT8"@,
        s == "uint16"@ ==> published_datatype(s) == "UINT16"@,
        s == "uint32"@ ==> published_datatype(s) == "UINT32"@,
        s == "uint64"@ ==> published_datatype(s) == "UINT64"@,
        tvm_datatype(s) is Some <==> (s == "float32"@ || s == "float64"@ || s == "int8"@ || s
            == "int16"@ || s == "int32"@ || s == "int64"@ || s == "uint8"@ || s == "uint16"@ || s
            == "uint32"@ || s == "uint64"@),
        tvm_datatype(s) is None ==> published_datatype(s) == "FP32"@,
{
    reveal_strlit("float32");
    reveal_strlit("float64");
    reveal_strlit("int8");
    reveal_strlit("int16");
    reveal_strlit("int32");
    reveal_strlit("int64");
    reveal_strlit("uint8");
    reveal_strlit("uint16");
    reveal_strlit("uint32");
    reveal_strlit("uint64");
    assert(s.len() > 0 ==> s[s.len() - 1] == s.last());
}


/// The elements of a tensor are those of its list, under the data type of its
/// variant.
pub proof fn tensors_hold_their_elements(t: TensorView, data: TensorData)
    ensures
        t matches TensorView::F32(v) ==> t.count() == v.len() && t.datatype() == Datatype::Fp32,
        t matches TensorView::F64(v) ==> t.count() == v.len() && t.datatype() == Datatype::Fp64,
        t matches TensorView::I8(v) ==> t.count() == v.len() && t.datatype() == Datatype::Int8,
        t matches TensorView::I16(v) ==> t.count() == v.len() && t.datatype() == Datatype::Int16,
        t matches TensorView::I32(v) ==> t.count() == v.len() && t.datatype() == Datatype::Int32,
        t matches TensorView::I64(v) ==> t.count() == v.len() && t.datatype() == Datatype::Int64,
        t matches TensorView::U8(v) ==> t.count() == v.len() && t.datatype() == Datatype::Uint8,
        t matches TensorView::U16(v) ==> t.count() == v.len() && t.datatype() == Datatype::Uint16,
        t matches TensorView::U32(v) ==> t.count() == v.len() && t.datatype() == Datatype::Uint32,
        t matches TensorView::U64(v) ==> t.count() == v.len() && t.datatype() == Datatype::Uint64,
        data matches TensorData::F32(v) ==> data@ == TensorView::F32(v@),
        data matches TensorData::F64(v) ==> data@ == TensorView::F64(v@),
        data matches TensorData::I8(v) ==> data@ == TensorView::I8(v@),
        data matches TensorData::I16(v) ==> data@ == TensorView::I16(v@),
        data matches TensorData::I32(v) ==> data@ == TensorView::I32(v@),
        data matches TensorData::I64(v) ==> data@ == TensorView::I64(v@),
        data matches TensorData::U8(v) ==> data@ == TensorView::U8(v@),
        data matches TensorData::U16(v) ==> data@ == TensorView::U16(v@),
        data matches TensorData::U32(v) ==> data@ == TensorView::U32(v@),
        data matches TensorData::U64(v) ==> data@ == TensorView::U64(v@),
{
}

/// Finite numbers are those whose bits without the sign lie below infinity.
pub proof fn finite_numbers_lie_below_infinity(a: u32, b: u64)
    ensures
        finite32(a) <==> a % 0x8000_0000 < 0x7f80_0000,
        finite64(b) <==> b % 0x8000_0000_0000_0000 < 0x7ff0_0000_0000_0000,
        negative32(a) <==> a >= 0x8000_0000,
        negative64(b) <==> b >= 0x8000_0000_0000_0000,
{
}

/// JSON data is taken exactly if it is made of numbers and the data type is known;
/// the tensor then has the declared data type and as many elements as the data has
/// numbers. A fault in the data is reported before one in the data type.
pub proof fn json_data_becomes_a_tensor(data: JsonView, datatype: Seq<char>)
    ensures
        decoded_json(data, datatype) is Ok <==> flattened(data) is Ok && v2_datatype(
            datatype,
        ) is Some,
        decoded_json(data, datatype) matches Ok(t) ==> v2_datatype(datatype) == Some(t.datatype())
            && t.count() == flattened(data)->Ok_0.len(),
        flattened(data) matches Err(m) ==> decoded_json(data, datatype) == Err::<
            TensorView,
            Seq<char>,
        >(m),
        flattened(data) is Ok && datatype == "FP16"@ ==> decoded_json(data, datatype) == Err::<
            TensorView,
            Seq<char>,
        >("datatype 'FP16' is not supported by this serve image (deferred)"@),
        flattened(data) is Ok && v2_datatype(datatype) is None && datatype != "FP16"@
            ==> decoded_json(data, datatype) == Err::<TensorView, Seq<char>>(
            "unsupported datatype '"@ + datatype + "'"@,
        ),
{
    crate::protocol::half_precision_is_unknown();
}

/// An integer in a floating-point slot keeps its sign, and becomes the number of
/// that precision nearest to it: exactly itself up to 53 bits in double precision
/// and up to 24 bits in single precision. In single precision the nearest one is
/// meant to the double that the integer becomes first, which up to 53 bits is the
/// integer itself.
pub proof fn integers_in_floating_point_slots(
    data: JsonView,
    datatype: Seq<char>,
    k: int,
    i: int,
    other32: nat,
    other64: u64,
)
    requires
        decoded_json(data, datatype) is Ok,
        0 <= k < flattened(data)->Ok_0.len(),
        flattened(data)->Ok_0[k] == NumberView::Int(i),
        i64::MIN <= i <= u64::MAX,
        other32 <= INFINITY_32,
        finite64(other64),
    ensures
        decoded_json(data, datatype) matches Ok(TensorView::F64(v)) ==> {
            let units = size(i) * pow2(1074);
            &&& finite64(v[k])
            &&& negative64(v[k]) == (i < 0)
            &&& distance(units, magnitude64(v[k])) <= distance(units, magnitude64(other64))
            &&& -0x20_0000_0000_0000 < i < 0x20_0000_0000_0000 ==> magnitude64(v[k]) == units
        },
        decoded_json(data, datatype) matches Ok(TensorView::F32(v)) ==> {
            let units = size(i) * pow2(1074);
            let own = magnitude32((v[k] % 0x8000_0000) as nat);
            &&& v[k] % 0x8000_0000 <= INFINITY_32
            &&& negative32(v[k]) == (i < 0)
            &&& -0x20_0000_0000_0000 < i < 0x20_0000_0000_0000 ==> distance(units, own)
                <= distance(units, magnitude32(other32))
            &&& -0x100_0000 <= i <= 0x100_0000 ==> own == units
            &&& distance(magnitude64(int_to_double(i)), own) <= distance(
                magnitude64(int_to_double(i)),
                magnitude32(other32),
            )
        },
{
    integers_become_the_nearest_double(i, other64);
    doubles_become_the_nearest_single(int_to_double(i), other32);
    if -0x20_0000_0000_0000 < i < 0x20_0000_0000_0000 {
        short_integers_keep_their_value(i);
    }
    if -0x100_0000 <= i <= 0x100_0000 {
        small_integers_keep_their_value_in_a_single(i);
    }
}

/// A double in a floating-point slot stays as it is in double precision, and becomes
/// the nearest single of its sign in single precision.
pub proof fn doubles_in_floating_point_slots(
    data: JsonView,
    datatype: Seq<char>,
    k: int,
    b: u64,
    other: nat,
)
    requires
        decoded_json(data, datatype) is Ok,
        0 <= k < flattened(data)->Ok_0.len(),
        flattened(data)->Ok_0[k] == NumberView::Float(b),
        finite64(b),
        other <= INFINITY_32,
    ensures
        decoded_json(data, datatype) matches Ok(TensorView::F64(v)) ==> v[k] == b,
        decoded_json(data, datatype) matches Ok(TensorView::F32(v)) ==> {
            let own = magnitude32((v[k] % 0x8000_0000) as nat);
            &&& v[k] % 0x8000_0000 <= INFINITY_32
            &&& negative32(v[k]) == negative64(b)
            &&& distance(magnitude64(b), own) <= distance(magnitude64(b), magnitude32(other))
            &&& distance(magnitude64(b), own) == distance(magnitude64(b), magnitude32(other))
                && other != v[k] % 0x8000_0000 ==> v[k] % 2 == 0
        },
{
    doubles_become_the_nearest_single(b, other);
}

/// Two numbers of the same value give the same floating-point element, whether they
/// are written as integers or as doubles, and wherever they stand.
pub proof fn equal_numbers_give_equal_elements(
    a: JsonView,
    b: JsonView,
    datatype: Seq<char>,
    j: int,
    k: int,
    i: int,
)
    requires
        decoded_json(a, datatype) is Ok,
        decoded_json(b, datatype) is Ok,
        0 <= j < flattened(a)->Ok_0.len(),
        0 <= k < flattened(b)->Ok_0.len(),
        flattened(a)->Ok_0[j] == NumberView::Int(i),
        flattened(b)->Ok_0[k] == NumberView::Float(int_to_double(i)),
    ensures
        decoded_json(a, datatype) matches Ok(TensorView::F32(v)) ==> (decoded_json(
            b,
            datatype,
        ) matches Ok(TensorView::F32(u)) && v[j] == u[k]),
        decoded_json(a, datatype) matches Ok(TensorView::F64(v)) ==> (decoded_json(
            b,
            datatype,
        ) matches Ok(TensorView::F64(u)) && v[j] == u[k]),
{
}

/// A number in an integer slot keeps its value where it fits the width of the slot,
/// and otherwise its low bits. What the number counts as is said by
/// [`numbers_in_signed_slots`](crate::laws::numbers::numbers_in_signed_slots) and
/// [`numbers_in_unsigned_slots`](crate::laws::numbers::numbers_in_unsigned_slots).
pub proof fn numbers_in_integer_slots(data: JsonView, datatype: Seq<char>, k: int)
    requires
        decoded_json(data, datatype) is Ok,
        0 <= k < flattened(data)->Ok_0.len(),
    ensures
        ({
            let n = flattened(data)->Ok_0[k];
            let x = number_i64(n);
            let y = number_u64(n);
            match decoded_json(data, datatype)->Ok_0 {
                TensorView::I8(v) => {
                    &&& (v[k] as i64) & 0xff == x & 0xff
                    &&& i8::MIN <= x <= i8::MAX ==> v[k] == x
                },
                TensorView::I16(v) => {
                    &&& (v[k] as i64) & 0xffff == x & 0xffff
                    &&& i16::MIN <= x <= i16::MAX ==> v[k] == x
                },
                TensorView::I32(v) => {
                    &&& (v[k] as i64) & 0xffffffff == x & 0xffffffff
                    &&& i32::MIN <= x <= i32::MAX ==> v[k] == x
                },
                TensorView::U8(v) => v[k] == y % 0x100 && (y <= u8::MAX ==> v[k] == y),
                TensorView::U16(v) => v[k] == y % 0x10000 && (y <= u16::MAX ==> v[k] == y),
                TensorView::U32(v) => v[k] == y % 0x100000000 && (y <= u32::MAX ==> v[k] == y),
                TensorView::I64(v) => v[k] == x,
                TensorView::U64(v) => v[k] == y,
                _ => true,
            }
        }),
{
    let n = flattened(data)->Ok_0[k];
    let x = number_i64(n);
    let y = number_u64(n);
    assert((x as i8) as i64 & 0xff == x & 0xff) by (bit_vector);
    assert((x as i16) as i64 & 0xffff == x & 0xffff) by (bit_vector);
    assert((x as i32) as i64 & 0xffff_ffff == x & 0xffff_ffff) by (bit_vector);
    assert(y as u8 == y % 0x100) by (bit_vector);
    assert(y as u16 == y % 0x1_0000) by (bit_vector);
    assert(y as u32 == y % 0x1_0000_0000) by (bit_vector);
}

/// What a tensor is written as in JSON, element by element: an integer as itself, a
/// finite floating-point number as the double of the same value, and anything else
/// as `null`.
pub proof fn json_entries_hold_the_elements(t: TensorView, k: int)
    requires
        0 <= k < t.count(),
    ensures
        json_entries(t).len() == t.count(),
        match t {
            TensorView::F32(v) => if v[k] % 0x8000_0000 < 0x7f80_0000 {
                json_entries(t)[k] matches JsonScalar::Float(b) && finite64(b) && negative64(b)
                    == negative32(v[k]) && magnitude64(b) == magnitude32(
                    (v[k] % 0x8000_0000) as nat,
                )
            } else {
                json_entries(t)[k] is Null
            },
            TensorView::F64(v) => if v[k] % 0x8000_0000_0000_0000 < 0x7ff0_0000_0000_0000 {
                json_entries(t)[k] matches JsonScalar::Float(b) && b == v[k]
            } else {
                json_entries(t)[k] is Null
            },
            TensorView::I8(v) => json_entries(t)[k] matches JsonScalar::Signed(x) && x == v[k],
            TensorView::I16(v) => json_entries(t)[k] matches JsonScalar::Signed(x) && x == v[k],
            TensorView::I32(v) => json_entries(t)[k] matches JsonScalar::Signed(x) && x == v[k],
            TensorView::I64(v) => json_entries(t)[k] matches JsonScalar::Signed(x) && x == v[k],
            TensorView::U8(v) => json_entries(t)[k] matches JsonScalar::Unsigned(x) && x == v[k],
            TensorView::U16(v) => json_entries(t)[k] matches JsonScalar::Unsigned(x) && x == v[k],
            TensorView::U32(v) => json_entries(t)[k] matches JsonScalar::Unsigned(x) && x == v[k],
            TensorView::U64(v) => json_entries(t)[k] matches JsonScalar::Unsigned(x) && x == v[k],
        },
{
    if let TensorView::F32(v) = t {
        finite_numbers_lie_below_infinity(v[k], 0);
        if finite32(v[k]) {
            widening_is_exact(v[k]);
        }
    }
    if let TensorView::F64(v) = t {
        finite_numbers_lie_below_infinity(0, v[k]);
    }
}

/// Raw bytes are taken exactly if the data type is known and they hold whole
/// elements.
pub proof fn raw_bytes_become_a_tensor(datatype: Seq<char>, raw: Seq<u8>)
    ensures
        decoded_raw(datatype, raw) matches Ok(t) ==> v2_datatype(datatype) == Some(t.datatype()),
        v2_datatype(datatype) is None ==> decoded_raw(datatype, raw) is Err,
        v2_datatype(datatype) matches Some(d) ==> (decoded_raw(datatype, raw) is Ok <==> match d {
            Datatype::Int8 | Datatype::Uint8 => true,
            Datatype::Int16 | Datatype::Uint16 => raw.len() % 2 == 0,
            Datatype::Fp32 | Datatype::Int32 | Datatype::Uint32 => raw.len() % 4 == 0,
            Datatype::Fp64 | Datatype::Int64 | Datatype::Uint64 => raw.len() % 8 == 0,
        }),
        v2_datatype(datatype) is Some && decoded_raw(datatype, raw) is Err ==> decoded_raw(
            datatype,
            raw,
        )->Err_0 == "raw bytes length "@ + decimal(raw.len() as int) + " is not a multiple of "@
            + decimal(
            match v2_datatype(datatype)->0 {
                Datatype::Int16 | Datatype::Uint16 => 2,
                Datatype::Fp32 | Datatype::Int32 | Datatype::Uint32 => 4,
                _ => 8int,
            },
        ) + " for "@ + datatype,
        datatype == "FP16"@ ==> decoded_raw(datatype, raw) == Err::<TensorView, Seq<char>>(
            "datatype 'FP16' is not supported (deferred)"@,
        ),
        v2_datatype(datatype) is None && datatype != "FP16"@ ==> decoded_raw(datatype, raw)
            == Err::<TensorView, Seq<char>>("unsupported datatype '"@ + datatype + "'"@),
{
    crate::protocol::half_precision_is_unknown();
}

/// Two bytes of a list as a number, the low byte first.
pub open spec fn two_bytes(raw: Seq<u8>, at: int) -> int {
    raw[at] + 0x100 * raw[at + 1]
}

/// Four bytes of a list as a number, the low byte first.
pub open spec fn four_bytes(raw: Seq<u8>, at: int) -> int {
    raw[at] + 0x100 * raw[at + 1] + 0x1_0000 * raw[at + 2] + 0x100_0000 * raw[at + 3]
}

/// Eight bytes of a list as a number, the low byte first.
pub open spec fn eight_bytes(raw: Seq<u8>, at: int) -> int {
    four_bytes(raw, at) + 0x1_0000_0000 * four_bytes(raw, at + 4)
}

/// A number read as two's complement of a width, given as its count of values.
pub open spec fn two_s_complement(n: int, values: int) -> int {
    if 2 * n < values {
        n
    } else {
        n - values
    }
}

proof fn le_value_of_bytes(raw: Seq<u8>, at: int)
    ensures
        0 <= at && at + 2 <= raw.len() ==> le_value(raw.subrange(at, at + 2)) == two_bytes(raw, at),
        0 <= at && at + 4 <= raw.len() ==> le_value(raw.subrange(at, at + 4)) == four_bytes(
            raw,
            at,
        ),
        0 <= at && at + 8 <= raw.len() ==> le_value(raw.subrange(at, at + 8)) == eight_bytes(
            raw,
            at,
        ),
{
    reveal_with_fuel(le_value, 9);
}

/// The elements of raw bytes, byte by byte: the low byte comes first, signed elements
/// are in two's complement, and floating-point elements are their bits.
pub proof fn raw_elements_are_little_endian(datatype: Seq<char>, raw: Seq<u8>, k: int)
    requires
        decoded_raw(datatype, raw) is Ok,
        0 <= k < decoded_raw(datatype, raw)->Ok_0.count(),
    ensures
        match decoded_raw(datatype, raw)->Ok_0 {
            TensorView::F32(v) => v.len() * 4 == raw.len() && v[k] == four_bytes(raw, 4 * k),
            TensorView::F64(v) => v.len() * 8 == raw.len() && v[k] == eight_bytes(raw, 8 * k),
            TensorView::I8(v) => v.len() == raw.len() && v[k] == two_s_complement(
                raw[k] as int,
                0x100,
            ),
            TensorView::I16(v) => v.len() * 2 == raw.len() && v[k] == two_s_complement(
                two_bytes(raw, 2 * k),
                0x1_0000,
            ),
            TensorView::I32(v) => v.len() * 4 == raw.len() && v[k] == two_s_complement(
                four_bytes(raw, 4 * k),
                0x1_0000_0000,
            ),
            TensorView::I64(v) => v.len() * 8 == raw.len() && v[k] == two_s_complement(
                eight_bytes(raw, 8 * k),
                0x1_0000_0000_0000_0000,
            ),
            TensorView::U8(v) => v.len() == raw.len() && v[k] == raw[k],
            TensorView::U16(v) => v.len() * 2 == raw.len() && v[k] == two_bytes(raw, 2 * k),
            TensorView::U32(v) => v.len() * 4 == raw.len() && v[k] == four_bytes(raw, 4 * k),
            TensorView::U64(v) => v.len() * 8 == raw.len() && v[k] == eight_bytes(raw, 8 * k),
        },
{
    le_value_of_bytes(raw, 2 * k);
    le_value_of_bytes(raw, 4 * k);
    le_value_of_bytes(raw, 8 * k);
    assert(forall|x: u8|
        (#[trigger] (x as i8)) == if x < 0x80 {
            x as int
        } else {
            x - 0x100
        }) by (bit_vector);
    assert(forall|x: u16|
        (#[trigger] (x as i16)) == if x < 0x8000 {
            x as int
        } else {
            x - 0x1_0000
        }) by (bit_vector);
    assert(forall|x: u32|
        (#[trigger] (x as i32)) == if x < 0x8000_0000 {
            x as int
        } else {
            x - 0x1_0000_0000
        }) by (bit_vector);
    assert(forall|x: u64|
        (#[trigger] (x as i64)) == if x < 0x8000_0000_0000_0000 {
            x as int
        } else {
            x - 0x1_0000_0000_0000_0000
        }) by (bit_vector);
}

/// Typed contents are taken exactly if the data type is known, and give a tensor of
/// that type.
pub proof fn typed_contents_become_a_tensor(datatype: Seq<char>, c: ContentsView)
    ensures
        decoded_contents(datatype, c) is Ok <==> v2_datatype(datatype) is Some,
        decoded_contents(datatype, c) matches Ok(t) ==> v2_datatype(datatype) == Some(t.datatype()),
        datatype == "FP16"@ ==> decoded_contents(datatype, c) == Err::<TensorView, Seq<char>>(
            "datatype 'FP16' is not supported (deferred)"@,
        ),
        v2_datatype(datatype) is None && datatype != "FP16"@ ==> decoded_contents(datatype, c)
            == Err::<TensorView, Seq<char>>("unsupported datatype '"@ + datatype + "'"@),
{
    crate::protocol::half_precision_is_unknown();
}

/// The elements of typed contents: those of the field of the data type, as they are
/// where they fit its width and by their low bits otherwise.
pub proof fn typed_elements_are_those_of_the_field(datatype: Seq<char>, c: ContentsView, k: int)
    requires
        decoded_contents(datatype, c) is Ok,
        0 <= k < decoded_contents(datatype, c)->Ok_0.count(),
    ensures
        match decoded_contents(datatype, c)->Ok_0 {
            TensorView::F32(v) => v == c.fp32_contents,
            TensorView::F64(v) => v == c.fp64_contents,
            TensorView::I8(v) => {
                let x = c.int_contents[k];
                &&& v.len() == c.int_contents.len()
                &&& (v[k] as i32) & 0xff == x & 0xff
                &&& -128 <= x <= 127 ==> v[k] == x
            },
            TensorView::I16(v) => {
                let x = c.int_contents[k];
                &&& v.len() == c.int_contents.len()
                &&& (v[k] as i32) & 0xffff == x & 0xffff
                &&& -32768 <= x <= 32767 ==> v[k] == x
            },
            TensorView::I32(v) => v == c.int_contents,
            TensorView::I64(v) => v == c.int64_contents,
            TensorView::U8(v) => v.len() == c.uint_contents.len() && v[k] == c.uint_contents[k]
                % 0x100,
            TensorView::U16(v) => v.len() == c.uint_contents.len() && v[k] == c.uint_contents[k]
                % 0x1_0000,
            TensorView::U32(v) => v == c.uint_contents,
            TensorView::U64(v) => v == c.uint64_contents,
        },
{
    assert(forall|x: i32| (#[trigger] (x as i8)) as i32 & 0xff == x & 0xff) by (bit_vector);
    assert(forall|x: i32| (#[trigger] (x as i16)) as i32 & 0xffff == x & 0xffff) by (bit_vector);
    assert(forall|x: u32| (#[trigger] (x as u8)) == x % 0x100) by (bit_vector);
    assert(forall|x: u32| (#[trigger] (x as u16)) == x % 0x1_0000) by (bit_vector);
}

/// The number of elements of typed contents is that of the field.
pub proof fn typed_tensors_have_the_length_of_the_field(datatype: Seq<char>, c: ContentsView)
    ensures
        decoded_contents(datatype, c) matches Ok(t) ==> t.count() == match t {
            TensorView::F32(_) => c.fp32_contents.len(),
            TensorView::F64(_) => c.fp64_contents.len(),
            TensorView::I8(_) | TensorView::I16(_) | TensorView::I32(_) => c.int_contents.len(),
            TensorView::I64(_) => c.int64_contents.len(),
            TensorView::U8(_) | TensorView::U16(_) | TensorView::U32(_) => c.uint_contents.len(),
            TensorView::U64(_) => c.uint64_contents.len(),
        },
{
}

/// Raw bytes count wherever there are any, then typed contents, and an input with
/// neither is refused.
pub proof fn raw_bytes_come_before_typed_contents(
    datatype: Seq<char>,
    contents: Option<ContentsView>,
    c: ContentsView,
    raw: Seq<u8>,
)
    ensures
        decoded_grpc(datatype, contents, Some(raw)) == decoded_raw(datatype, raw),
        decoded_grpc(datatype, Some(c), None) == decoded_contents(datatype, c),
        decoded_grpc(datatype, None, None) == Err::<TensorView, Seq<char>>(
            "no contents and no raw_input_contents"@,
        ),
{
}

/// What a tensor is written as in typed contents: its elements, each with its value,
/// in the field of its data type, and nothing in the other fields.
pub proof fn typed_contents_hold_the_elements(t: TensorView)
    ensures
        ({
            let c = contents_of(t);
            let n = t.count();
            match t {
                TensorView::F32(v) => c.fp32_contents == v && n == fields_total(c),
                TensorView::F64(v) => c.fp64_contents == v && n == fields_total(c),
                TensorView::I8(v) => n == fields_total(c) && c.int_contents.len() == n && forall|
                    k: int,
                | 0 <= k < n ==> (#[trigger] c.int_contents[k]) == v[k],
                TensorView::I16(v) => n == fields_total(c) && c.int_contents.len() == n && forall|
                    k: int,
                | 0 <= k < n ==> (#[trigger] c.int_contents[k]) == v[k],
                TensorView::I32(v) => c.int_contents == v && n == fields_total(c),
                TensorView::I64(v) => c.int64_contents == v && n == fields_total(c),
                TensorView::U8(v) => n == fields_total(c) && c.uint_contents.len() == n && forall|
                    k: int,
                | 0 <= k < n ==> (#[trigger] c.uint_contents[k]) == v[k],
                TensorView::U16(v) => n == fields_total(c) && c.uint_contents.len() == n && forall|
                    k: int,
                | 0 <= k < n ==> (#[trigger] c.uint_contents[k]) == v[k],
                TensorView::U32(v) => c.uint_contents == v && n == fields_total(c),
                TensorView::U64(v) => c.uint64_contents == v && n == fields_total(c),
            }
        }),
{
}

/// How many elements the typed fields hold together.
pub open spec fn fields_total(c: ContentsView) -> nat {
    c.int_contents.len() + c.int64_contents.len() + c.uint_contents.len() + c.uint64_contents.len()
        + c.fp32_contents.len() + c.fp64_contents.len()
}

/// The typed fields show what the message holds.
pub proof fn contents_show_the_fields(c: InferTensorContents)
    ensures
        c@.int_contents == c.int_contents@,
        c@.int64_contents == c.int64_contents@,
        c@.uint_contents == c.uint_contents@,
        c@.uint64_contents == c.uint64_contents@,
        c@.fp32_contents == c.fp32_contents@,
        c@.fp64_contents == c.fp64_contents@,
{
}

/// The product of dimensions: one for none, a dimension for itself alone, and for
/// two lists put together the product of both.
pub proof fn products_multiply(a: Seq<i64>, b: Seq<i64>, d: i64)
    ensures
        product(Seq::empty()) == 1,
        product(seq![d]) == d,
        product(a + b) == product(a) * product(b),
    decreases b.len(),
{
    reveal_with_fuel(product, 2);
    assert(seq![d].drop_last() =~= Seq::<i64>::empty());
    if b.len() == 0 {
        assert(a + b =~= a);
        assert(b =~= Seq::<i64>::empty());
    } else {
        products_multiply(a, b.drop_last(), d);
        assert((a + b).drop_last() =~= a + b.drop_last());
        lemma_mul_is_associative(product(a), product(b.drop_last()), b.last() as int);
    }
}

/// Whether the dimensions up to `k` are not negative and their products stay in the
/// range of `i64`.
pub open spec fn counts_up_to(shape: Seq<i64>, k: int) -> bool {
    &&& forall|i: int| 0 <= i < k ==> (#[trigger] shape[i]) >= 0
    &&& forall|i: int| 0 <= i <= k ==> product(#[trigger] shape.take(i)) <= i64::MAX
}

/// A shape is accepted exactly if no dimension is negative, no product of leading
/// dimensions leaves the range of `i64`, and the dimensions multiply to the number
/// of elements.
pub proof fn shapes_are_accepted_by_their_product(idx: nat, shape: Seq<i64>, data_len: nat)
    ensures
        shape_fault(idx, shape, data_len) is None <==> counts_up_to(shape, shape.len() as int)
            && product(shape) == data_len,
{
    if shape_fault(idx, shape, data_len) is None {
        accepted_shape_counts_its_data(idx, shape, data_len);
        assert forall|i: int| 0 <= i <= shape.len() implies product(#[trigger] shape.take(i))
            <= i64::MAX by {
            counted_prefix(shape, i);
        }
    }
    if counts_up_to(shape, shape.len() as int) && product(shape) == data_len {
        matching_shape_is_accepted(idx, shape, data_len);
    }
}

proof fn counted_prefix(shape: Seq<i64>, k: int)
    requires
        element_count(shape) is Ok,
        0 <= k <= shape.len(),
    ensures
        element_count(shape.take(k)) == Ok::<int, ShapeFault>(product(shape.take(k))),
        product(shape.take(k)) <= i64::MAX,
    decreases shape.len(),
{
    if k == shape.len() {
        assert(shape.take(k) =~= shape);
        counted(shape);
    } else {
        counted_prefix(shape.drop_last(), k);
        assert(shape.drop_last().take(k) =~= shape.take(k));
    }
}

proof fn counted(shape: Seq<i64>)
    requires
        element_count(shape) is Ok,
    ensures
        element_count(shape) == Ok::<int, ShapeFault>(product(shape)),
        product(shape) <= i64::MAX,
    decreases shape.len(),
{
    if shape.len() > 0 {
        counted(shape.drop_last());
    }
}

proof fn counts_give_the_product(shape: Seq<i64>, k: int)
    requires
        0 <= k <= shape.len(),
        counts_up_to(shape, k),
    ensures
        element_count(shape.take(k)) == Ok::<int, ShapeFault>(product(shape.take(k))),
    decreases k,
{
    if k > 0 {
        counts_give_the_product(shape, k - 1);
        assert(shape.take(k).drop_last() =~= shape.take(k - 1));
    }
}

proof fn fault_stays(shape: Seq<i64>, k: int)
    requires
        0 <= k <= shape.len(),
        element_count(shape.take(k)) is Err,
    ensures
        element_count(shape) == element_count(shape.take(k)),
    decreases shape.len() - k,
{
    if k < shape.len() {
        assert(shape.take(k + 1).drop_last() =~= shape.take(k));
        fault_stays(shape, k + 1);
    } else {
        assert(shape.take(k) =~= shape);
    }
}

/// The complaint about a shape names the input, the shape, and what is wrong with
/// the first dimension that is wrong, or the two counts that differ.
pub proof fn shape_complaints_say_what_is_wrong(
    idx: nat,
    shape: Seq<i64>,
    data_len: nat,
    k: int,
)
    requires
        0 <= k <= shape.len(),
        counts_up_to(shape, k),
    ensures
        k < shape.len() && shape[k] < 0 ==> shape_fault(idx, shape, data_len) == Some(
            "input["@ + decimal(idx as int) + "]: negative dim "@ + decimal(shape[k] as int)
                + " in shape "@ + list_text(shape),
        ),
        k < shape.len() && shape[k] >= 0 && product(shape.take(k + 1)) > i64::MAX ==> shape_fault(
            idx,
            shape,
            data_len,
        ) == Some(
            "input["@ + decimal(idx as int) + "]: shape "@ + list_text(shape) + " overflows"@,
        ),
        k == shape.len() && product(shape) != data_len ==> shape_fault(idx, shape, data_len)
            == Some(
            "input["@ + decimal(idx as int) + "]: shape "@ + list_text(shape) + " implies "@
                + decimal(product(shape)) + " elements but data has "@ + decimal(data_len as int),
        ),
{
    counts_give_the_product(shape, k);
    if k < shape.len() {
        assert(shape.take(k + 1).drop_last() =~= shape.take(k));
        if element_count(shape.take(k + 1)) is Err {
            fault_stays(shape, k + 1);
        }
    } else {
        assert(shape.take(k) =~= shape);
    }
}

/// A result shows its tensor, or its text.
pub proof fn results_show_what_they_hold(r: Result<TensorData, String>)
    ensures
        r matches Ok(t) ==> seen(r) == Ok::<TensorView, Seq<char>>(t@),
        r matches Err(m) ==> seen(r) == Err::<TensorView, Seq<char>>(m@),
{
}

} // verus!
