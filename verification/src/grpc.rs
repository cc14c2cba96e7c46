//! The gRPC side of the Open Inference v2 protocol: decoding and encoding of
//! tensors and messages.
//!
//! A client sends the elements of its tensors in one of two ways: as raw
//! little-endian bytes, or in the typed field for the data type. The messages here
//! hold the fields that are read or written; the floating-point fields hold bits.
use crate::json::{flattened, JsonView, NumberView};
use crate::laws::requests::grpc_requests_decode_input_by_input;
use crate::protocol::{
    decoded_json, entry_numbers, half_precision_is_unknown, json_round_trip, map_elements,
    metadata_views, published_datatype, seen, tvm_to_v2_dtype, v2_datatype, v2_name,
    v2_names_are_distinct, Datatype, ModelMetadata, ModelMetadataView, TensorData, TensorMetadata,
    RequestInputView, TensorMetadataView, TensorView,
};
use crate::relax::{spec_views, MetadataView, TensorSpec, TensorSpecView};
use crate::rest::{decoded_request, http_answer, published_model, HttpStatus};
use crate::text::{decimal, decimal_u64, same_text, texts};
use crate::worker::{
    accepted_inputs, conclude, input_views, output_views, run_outcome, Handle, InferInput,
    InferInputView, InferOutput, InferOutputView, ServeErr, ServeFault, WorkerAnswer,
};
use vstd::arithmetic::div_mod::{
    lemma_div_basics_2, lemma_div_denominator, lemma_fundamental_div_mod_converse,
};
use vstd::prelude::*;

verus! {

/// The number that bytes stand for, the least significant byte first.
pub open spec fn le_value(bytes: Seq<u8>) -> nat
    decreases bytes.len(),
{
    if bytes.len() == 0 {
        0
    } else {
        bytes[0] as nat + 256 * le_value(bytes.drop_first())
    }
}

/// Element `i` of raw bytes that hold elements of `width` bytes each.
pub open spec fn word(raw: Seq<u8>, width: int, i: int) -> nat {
    le_value(raw.subrange(i * width, i * width + width))
}

/// The number of bytes of an element.
pub open spec fn width(d: Datatype) -> nat {
    match d {
        Datatype::Int8 | Datatype::Uint8 => 1,
        Datatype::Int16 | Datatype::Uint16 => 2,
        Datatype::Fp32 | Datatype::Int32 | Datatype::Uint32 => 4,
        Datatype::Fp64 | Datatype::Int64 | Datatype::Uint64 => 8,
    }
}

/// The tensor that raw bytes hold. Signed elements are in two's complement.
pub open spec fn tensor_of_raw(d: Datatype, raw: Seq<u8>) -> TensorView {
    match d {
        Datatype::Fp32 => TensorView::F32(
            Seq::new(raw.len() / 4, |i: int| word(raw, 4, i) as u32),
        ),
        Datatype::Fp64 => TensorView::F64(
            Seq::new(raw.len() / 8, |i: int| word(raw, 8, i) as u64),
        ),
        Datatype::Int8 => TensorView::I8(raw.map_values(|b: u8| b as i8)),
        Datatype::Int16 => TensorView::I16(
            Seq::new(raw.len() / 2, |i: int| (word(raw, 2, i) as u16) as i16),
        ),
        Datatype::Int32 => TensorView::I32(
            Seq::new(raw.len() / 4, |i: int| (word(raw, 4, i) as u32) as i32),
        ),
        Datatype::Int64 => TensorView::I64(
            Seq::new(raw.len() / 8, |i: int| (word(raw, 8, i) as u64) as i64),
        ),
        Datatype::Uint8 => TensorView::U8(raw),
        Datatype::Uint16 => TensorView::U16(
            Seq::new(raw.len() / 2, |i: int| word(raw, 2, i) as u16),
        ),
        Datatype::Uint32 => TensorView::U32(
            Seq::new(raw.len() / 4, |i: int| word(raw, 4, i) as u32),
        ),
        Datatype::Uint64 => TensorView::U64(
            Seq::new(raw.len() / 8, |i: int| word(raw, 8, i) as u64),
        ),
    }
}

/// The complaint of the gRPC side about a data type that it does not take.
pub open spec fn grpc_datatype_fault(datatype: Seq<char>) -> Seq<char> {
    if datatype == "FP16"@ {
        "datatype 'FP16' is not supported (deferred)"@
    } else {
        "unsupported datatype '"@ + datatype + "'"@
    }
}

/// What raw bytes hold for a declared data type: a tensor, or the complaint.
pub open spec fn decoded_raw(datatype: Seq<char>, raw: Seq<u8>) -> Result<TensorView, Seq<char>> {
    match v2_datatype(datatype) {
        Some(d) => if raw.len() % width(d) != 0 {
            Err(
                "raw bytes length "@ + decimal(raw.len() as int) + " is not a multiple of "@
                    + decimal(width(d) as int) + " for "@ + datatype,
            )
        } else {
            Ok(tensor_of_raw(d, raw))
        },
        None => Err(grpc_datatype_fault(datatype)),
    }
}

fn datatype_fault(datatype: &str) -> (r: String)
    ensures
        r@ == grpc_datatype_fault(datatype@),
{
    if same_text(datatype, "FP16") {
        return "datatype 'FP16' is not supported (deferred)".to_string();
    }
    let mut m = "unsupported datatype '".to_string();
    m.append(datatype);
    m.append("'");
    m
}

fn width_of(d: Datatype) -> (r: usize)
    ensures
        r == width(d),
{
    match d {
        Datatype::Int8 | Datatype::Uint8 => 1,
        Datatype::Int16 | Datatype::Uint16 => 2,
        Datatype::Fp32 | Datatype::Int32 | Datatype::Uint32 => 4,
        Datatype::Fp64 | Datatype::Int64 | Datatype::Uint64 => 8,
    }
}

proof fn le_value_of_halves(a: Seq<u8>, b: Seq<u8>)
    requires
        a.len() == 2 || a.len() == 4,
    ensures
        le_value(a + b) == le_value(a) + (if a.len() == 2 { 0x1_0000nat } else { 0x1_0000_0000nat })
            * le_value(b),
{
    reveal_with_fuel(le_value, 5);
    let s = a + b;
    assert(s.drop_first() =~= a.drop_first() + b);
    assert(s.drop_first().drop_first() =~= a.drop_first().drop_first() + b);
    if a.len() == 2 {
        assert(s.drop_first().drop_first() =~= b);
    } else {
        assert(s.drop_first().drop_first().drop_first() =~= a.drop_first().drop_first().drop_first()
            + b);
        assert(s.drop_first().drop_first().drop_first().drop_first() =~= b);
    }
}

fn read_u16(raw: &[u8], at: usize) -> (r: u16)
    requires
        at + 2 <= raw.len(),
    ensures
        r == le_value(raw@.subrange(at as int, at + 2)),
{
    proof {
        reveal_with_fuel(le_value, 3);
    }
    raw[at] as u16 + 256 * raw[at + 1] as u16
}

fn read_u32(raw: &[u8], at: usize) -> (r: u32)
    requires
        at + 4 <= raw.len(),
    ensures
        r == le_value(raw@.subrange(at as int, at + 4)),
{
    let low: u16 = read_u16(raw, at);
    let high: u16 = read_u16(raw, at + 2);
    proof {
        let a = raw@.subrange(at as int, at + 2);
        let b = raw@.subrange(at + 2, at + 4);
        le_value_of_halves(a, b);
        assert(a + b =~= raw@.subrange(at as int, at + 4));
    }
    low as u32 + 0x1_0000 * high as u32
}

fn read_u64(raw: &[u8], at: usize) -> (r: u64)
    requires
        at + 8 <= raw.len(),
    ensures
        r == le_value(raw@.subrange(at as int, at + 8)),
{
    let low: u32 = read_u32(raw, at);
    let high: u32 = read_u32(raw, at + 4);
    proof {
        let a = raw@.subrange(at as int, at + 4);
        let b = raw@.subrange(at + 4, at + 8);
        le_value_of_halves(a, b);
        assert(a + b =~= raw@.subrange(at as int, at + 8));
    }
    low as u64 + 0x1_0000_0000 * high as u64
}

fn words_u16(raw: &[u8]) -> (r: Vec<u16>)
    requires
        raw@.len() % 2 == 0,
    ensures
        r@ == Seq::new(raw@.len() / 2, |i: int| word(raw@, 2, i) as u16),
{
    let mut r: Vec<u16> = Vec::new();
    let count: usize = raw.len() / 2;
    for i in 0..count
        invariant
            count == raw.len() / 2,
            r@ == Seq::new(i as nat, |j: int| word(raw@, 2, j) as u16),
    {
        r.push(read_u16(raw, i * 2));
    }
    r
}

fn words_u32(raw: &[u8]) -> (r: Vec<u32>)
    requires
        raw@.len() % 4 == 0,
    ensures
        r@ == Seq::new(raw@.len() / 4, |i: int| word(raw@, 4, i) as u32),
{
    let mut r: Vec<u32> = Vec::new();
    let count: usize = raw.len() / 4;
    for i in 0..count
        invariant
            count == raw.len() / 4,
            r@ == Seq::new(i as nat, |j: int| word(raw@, 4, j) as u32),
    {
        r.push(read_u32(raw, i * 4));
    }
    r
}

fn words_u64(raw: &[u8]) -> (r: Vec<u64>)
    requires
        raw@.len() % 8 == 0,
    ensures
        r@ == Seq::new(raw@.len() / 8, |i: int| word(raw@, 8, i) as u64),
{
    let mut r: Vec<u64> = Vec::new();
    let count: usize = raw.len() / 8;
    for i in 0..count
        invariant
            count == raw.len() / 8,
            r@ == Seq::new(i as nat, |j: int| word(raw@, 8, j) as u64),
    {
        r.push(read_u64(raw, i * 8));
    }
    r
}

fn bytes_of(raw: &[u8]) -> (r: Vec<u8>)
    ensures
        r@ == raw@,
{
    let mut r: Vec<u8> = Vec::new();
    for i in 0..raw.len()
        invariant
            r@ =~= raw@.take(i as int),
    {
        r.push(raw[i]);
    }
    r
}

/// Decodes raw little-endian bytes for the declared data type.
pub fn tensor_data_from_raw(datatype: &str, raw: &[u8]) -> (r: Result<TensorData, String>)
    ensures
        seen(r) == decoded_raw(datatype@, raw@),
{
    let d = match Datatype::from_v2(datatype) {
        Some(d) => d,
        None => return Err(datatype_fault(datatype)),
    };
    let size: usize = width_of(d);
    if raw.len() % size != 0 {
        let mut m = "raw bytes length ".to_string();
        m.append(decimal_u64(raw.len() as u64).as_str());
        m.append(" is not a multiple of ");
        m.append(decimal_u64(size as u64).as_str());
        m.append(" for ");
        m.append(datatype);
        return Err(m);
    }
    let data = match d {
        Datatype::Fp32 => TensorData::F32(words_u32(raw)),
        Datatype::Fp64 => TensorData::F64(words_u64(raw)),
        Datatype::Int8 => {
            let signed = |x: u8| -> (r: i8)
                ensures
                    r == x as i8,
                { x as i8 };
            TensorData::I8(map_elements(&bytes_of(raw), signed))
        },
        Datatype::Int16 => {
            let signed = |x: u16| -> (r: i16)
                ensures
                    r == x as i16,
                { x as i16 };
            TensorData::I16(map_elements(&words_u16(raw), signed))
        },
        Datatype::Int32 => {
            let signed = |x: u32| -> (r: i32)
                ensures
                    r == x as i32,
                { x as i32 };
            TensorData::I32(map_elements(&words_u32(raw), signed))
        },
        Datatype::Int64 => {
            let signed = |x: u64| -> (r: i64)
                ensures
                    r == x as i64,
                { x as i64 };
            TensorData::I64(map_elements(&words_u64(raw), signed))
        },
        Datatype::Uint8 => TensorData::U8(bytes_of(raw)),
        Datatype::Uint16 => TensorData::U16(words_u16(raw)),
        Datatype::Uint32 => TensorData::U32(words_u32(raw)),
        Datatype::Uint64 => TensorData::U64(words_u64(raw)),
    };
    assert(data@ =~= tensor_of_raw(d, raw@));
    Ok(data)
}

/// The typed fields of a tensor message. INT8 and INT16 travel in `int_contents`
/// and UINT8 and UINT16 in `uint_contents`.
#[derive(Debug, Default)]
pub struct InferTensorContents {
    pub int_contents: Vec<i32>,
    pub int64_contents: Vec<i64>,
    pub uint_contents: Vec<u32>,
    pub uint64_contents: Vec<u64>,
    pub fp32_contents: Vec<u32>,
    pub fp64_contents: Vec<u64>,
}

/// The elements of an [`InferTensorContents`].
#[verifier::ext_equal]
pub struct ContentsView {
    pub int_contents: Seq<i32>,
    pub int64_contents: Seq<i64>,
    pub uint_contents: Seq<u32>,
    pub uint64_contents: Seq<u64>,
    pub fp32_contents: Seq<u32>,
    pub fp64_contents: Seq<u64>,
}

impl View for InferTensorContents {
    type V = ContentsView;

    open spec fn view(&self) -> ContentsView {
        ContentsView {
            int_contents: self.int_contents@,
            int64_contents: self.int64_contents@,
            uint_contents: self.uint_contents@,
            uint64_contents: self.uint64_contents@,
            fp32_contents: self.fp32_contents@,
            fp64_contents: self.fp64_contents@,
        }
    }
}

/// The tensor that the typed fields hold. Elements of 8 and 16 bits are narrowed
/// to their width by dropping high bits.
pub open spec fn tensor_of_contents(d: Datatype, c: ContentsView) -> TensorView {
    match d {
        Datatype::Fp32 => TensorView::F32(c.fp32_contents),
        Datatype::Fp64 => TensorView::F64(c.fp64_contents),
        Datatype::Int8 => TensorView::I8(c.int_contents.map_values(|x: i32| x as i8)),
        Datatype::Int16 => TensorView::I16(c.int_contents.map_values(|x: i32| x as i16)),
        Datatype::Int32 => TensorView::I32(c.int_contents),
        Datatype::Int64 => TensorView::I64(c.int64_contents),
        Datatype::Uint8 => TensorView::U8(c.uint_contents.map_values(|x: u32| x as u8)),
        Datatype::Uint16 => TensorView::U16(c.uint_contents.map_values(|x: u32| x as u16)),
        Datatype::Uint32 => TensorView::U32(c.uint_contents),
        Datatype::Uint64 => TensorView::U64(c.uint64_contents),
    }
}

/// What the typed fields hold for a declared data type: a tensor, or the
/// complaint.
pub open spec fn decoded_contents(datatype: Seq<char>, c: ContentsView) -> Result<
    TensorView,
    Seq<char>,
> {
    match v2_datatype(datatype) {
        Some(d) => Ok(tensor_of_contents(d, c)),
        None => Err(grpc_datatype_fault(datatype)),
    }
}

/// What an input holds. Raw bytes take precedence over the typed fields.
pub open spec fn decoded_grpc(
    datatype: Seq<char>,
    contents: Option<ContentsView>,
    raw: Option<Seq<u8>>,
) -> Result<TensorView, Seq<char>> {
    match (raw, contents) {
        (Some(bytes), _) => decoded_raw(datatype, bytes),
        (None, Some(c)) => decoded_contents(datatype, c),
        (None, None) => Err("no contents and no raw_input_contents"@),
    }
}

fn same_elements<T: Copy>(v: &Vec<T>) -> (r: Vec<T>)
    ensures
        r@ == v@,
{
    let mut r: Vec<T> = Vec::new();
    for i in 0..v.len()
        invariant
            r@ =~= v@.take(i as int),
    {
        r.push(v[i]);
    }
    r
}

/// Decodes one input tensor.
pub fn tensor_data_from_grpc(
    datatype: &str,
    contents: Option<&InferTensorContents>,
    raw: Option<&[u8]>,
) -> (r: Result<TensorData, String>)
    ensures
        seen(r) == decoded_grpc(
            datatype@,
            match contents {
                Some(c) => Some(c@),
                None => None,
            },
            match raw {
                Some(b) => Some(b@),
                None => None,
            },
        ),
{
    if let Some(bytes) = raw {
        return tensor_data_from_raw(datatype, bytes);
    }
    let c = match contents {
        Some(c) => c,
        None => return Err("no contents and no raw_input_contents".to_string()),
    };
    let d = match Datatype::from_v2(datatype) {
        Some(d) => d,
        None => return Err(datatype_fault(datatype)),
    };
    let data = match d {
        Datatype::Fp32 => TensorData::F32(same_elements(&c.fp32_contents)),
        Datatype::Fp64 => TensorData::F64(same_elements(&c.fp64_contents)),
        Datatype::Int8 => {
            let narrowed = |x: i32| -> (r: i8)
                ensures
                    r == x as i8,
                { x as i8 };
            TensorData::I8(map_elements(&c.int_contents, narrowed))
        },
        Datatype::Int16 => {
            let narrowed = |x: i32| -> (r: i16)
                ensures
                    r == x as i16,
                { x as i16 };
            TensorData::I16(map_elements(&c.int_contents, narrowed))
        },
        Datatype::Int32 => TensorData::I32(same_elements(&c.int_contents)),
        Datatype::Int64 => TensorData::I64(same_elements(&c.int64_contents)),
        Datatype::Uint8 => {
            let narrowed = |x: u32| -> (r: u8)
                ensures
                    r == x as u8,
                { x as u8 };
            TensorData::U8(map_elements(&c.uint_contents, narrowed))
        },
        Datatype::Uint16 => {
            let narrowed = |x: u32| -> (r: u16)
                ensures
                    r == x as u16,
                { x as u16 };
            TensorData::U16(map_elements(&c.uint_contents, narrowed))
        },
        Datatype::Uint32 => TensorData::U32(same_elements(&c.uint_contents)),
        Datatype::Uint64 => TensorData::U64(same_elements(&c.uint64_contents)),
    };
    assert(data@ =~= tensor_of_contents(d, c@));
    Ok(data)
}

/// The typed fields without any element.
pub open spec fn no_contents() -> ContentsView {
    ContentsView {
        int_contents: seq![],
        int64_contents: seq![],
        uint_contents: seq![],
        uint64_contents: seq![],
        fp32_contents: seq![],
        fp64_contents: seq![],
    }
}

/// The typed fields for a tensor: its elements in the field of its data type, and
/// nothing elsewhere.
pub open spec fn contents_of(t: TensorView) -> ContentsView {
    match t {
        TensorView::F32(v) => ContentsView { fp32_contents: v, ..no_contents() },
        TensorView::F64(v) => ContentsView { fp64_contents: v, ..no_contents() },
        TensorView::I8(v) => ContentsView {
            int_contents: v.map_values(|x: i8| x as i32),
            ..no_contents()
        },
        TensorView::I16(v) => ContentsView {
            int_contents: v.map_values(|x: i16| x as i32),
            ..no_contents()
        },
        TensorView::I32(v) => ContentsView { int_contents: v, ..no_contents() },
        TensorView::I64(v) => ContentsView { int64_contents: v, ..no_contents() },
        TensorView::U8(v) => ContentsView {
            uint_contents: v.map_values(|x: u8| x as u32),
            ..no_contents()
        },
        TensorView::U16(v) => ContentsView {
            uint_contents: v.map_values(|x: u16| x as u32),
            ..no_contents()
        },
        TensorView::U32(v) => ContentsView { uint_contents: v, ..no_contents() },
        TensorView::U64(v) => ContentsView { uint64_contents: v, ..no_contents() },
    }
}

/// Encodes output data into the typed field of its data type.
pub fn tensor_data_to_contents(data: TensorData) -> (r: InferTensorContents)
    ensures
        r@ == contents_of(data@),
{
    let mut c = InferTensorContents {
        int_contents: Vec::new(),
        int64_contents: Vec::new(),
        uint_contents: Vec::new(),
        uint64_contents: Vec::new(),
        fp32_contents: Vec::new(),
        fp64_contents: Vec::new(),
    };
    let ghost t = data@;
    match data {
        TensorData::F32(v) => {
            c.fp32_contents = v;
        },
        TensorData::F64(v) => {
            c.fp64_contents = v;
        },
        TensorData::I8(v) => {
            let widened = |x: i8| -> (r: i32)
                ensures
                    r == x as i32,
                { x as i32 };
            c.int_contents = map_elements(&v, widened);
        },
        TensorData::I16(v) => {
            let widened = |x: i16| -> (r: i32)
                ensures
                    r == x as i32,
                { x as i32 };
            c.int_contents = map_elements(&v, widened);
        },
        TensorData::I32(v) => {
            c.int_contents = v;
        },
        TensorData::I64(v) => {
            c.int64_contents = v;
        },
        TensorData::U8(v) => {
            let widened = |x: u8| -> (r: u32)
                ensures
                    r == x as u32,
                { x as u32 };
            c.uint_contents = map_elements(&v, widened);
        },
        TensorData::U16(v) => {
            let widened = |x: u16| -> (r: u32)
                ensures
                    r == x as u32,
                { x as u32 };
            c.uint_contents = map_elements(&v, widened);
        },
        TensorData::U32(v) => {
            c.uint_contents = v;
        },
        TensorData::U64(v) => {
            c.uint64_contents = v;
        },
    }
    assert(c@ =~= contents_of(t));
    c
}

/// The typed fields that a tensor is written to read back as the same tensor,
/// under its own data type.
pub proof fn contents_round_trip(t: TensorView)
    ensures
        decoded_contents(v2_name(t.datatype()), contents_of(t)) == Ok::<TensorView, Seq<char>>(t),
{
    v2_names_are_distinct(t.datatype());
    assert(tensor_of_contents(t.datatype(), contents_of(t)) =~= t);
}

/// Byte `k` of a number, the least significant byte first.
pub open spec fn byte(n: nat, k: nat) -> u8 {
    ((n / pow256(k)) % 256) as u8
}

/// The place value of byte `k`.
pub open spec fn pow256(k: nat) -> nat
    decreases k,
{
    if k == 0 {
        1
    } else {
        256 * pow256((k - 1) as nat)
    }
}

/// Element `i` of a tensor as an unsigned number of the width of its data type:
/// the bits of a floating-point number, a signed integer in two's complement.
pub open spec fn element_bits(t: TensorView, i: int) -> nat {
    match t {
        TensorView::F32(v) => v[i] as nat,
        TensorView::F64(v) => v[i] as nat,
        TensorView::I8(v) => (v[i] as u8) as nat,
        TensorView::I16(v) => (v[i] as u16) as nat,
        TensorView::I32(v) => (v[i] as u32) as nat,
        TensorView::I64(v) => (v[i] as u64) as nat,
        TensorView::U8(v) => v[i] as nat,
        TensorView::U16(v) => v[i] as nat,
        TensorView::U32(v) => v[i] as nat,
        TensorView::U64(v) => v[i] as nat,
    }
}

/// The elements of a tensor as consecutive little-endian bytes.
pub open spec fn raw_bytes(t: TensorView) -> Seq<u8> {
    let w = width(t.datatype());
    Seq::new(
        t.count() * w,
        |j: int| byte(element_bits(t, j / w as int), (j % w as int) as nat),
    )
}

proof fn bytes_give_number(s: Seq<u8>, n: nat)
    requires
        n < pow256(s.len()),
        forall|k: int| 0 <= k < s.len() ==> #[trigger] s[k] == byte(n, k as nat),
    ensures
        le_value(s) == n,
    decreases s.len(),
{
    reveal_with_fuel(pow256, 2);
    if s.len() > 0 {
        let rest = s.drop_first();
        assert forall|k: int| 0 <= k < rest.len() implies #[trigger] rest[k] == byte(
            n / 256,
            k as nat,
        ) by {
            assert(rest[k] == s[k + 1]);
            place_values_are_positive(k as nat);
            lemma_div_denominator(n as int, 256, pow256(k as nat) as int);
            assert(pow256((k + 1) as nat) == 256 * pow256(k as nat));
        }
        bytes_give_number(rest, n / 256);
        lemma_div_basics_2(n as int);
        assert(byte(n, 0) == n % 256);
        assert(s[0] == byte(n, 0));
    }
}

proof fn place_values_are_positive(k: nat)
    ensures
        pow256(k) > 0,
    decreases k,
{
    if k > 0 {
        place_values_are_positive((k - 1) as nat);
    }
}

proof fn raw_word_is_element(t: TensorView, i: int)
    requires
        0 <= i < t.count(),
    ensures
        i * width(t.datatype()) + width(t.datatype()) <= raw_bytes(t).len(),
        word(raw_bytes(t), width(t.datatype()) as int, i) == element_bits(t, i),
{
    let w = width(t.datatype()) as int;
    let raw = raw_bytes(t);
    let n = element_bits(t, i);
    assert(i * w + w <= t.count() * w) by (nonlinear_arith)
        requires
            i < t.count(),
            w > 0,
    ;
    assert(0 <= i * w) by (nonlinear_arith)
        requires
            0 <= i,
            w > 0,
    ;
    let s = raw.subrange(i * w, i * w + w);
    assert forall|k: int| 0 <= k < s.len() implies #[trigger] s[k] == byte(n, k as nat) by {
        lemma_fundamental_div_mod_converse(i * w + k, w, i, k);
        assert(s[k] == raw[i * w + k]);
    }
    reveal_with_fuel(pow256, 9);
    bytes_give_number(s, n);
}

proof fn single_byte_word(raw: Seq<u8>, i: int)
    requires
        0 <= i < raw.len(),
    ensures
        word(raw, 1, i) == raw[i],
{
    reveal_with_fuel(le_value, 2);
    assert(i * 1 == i);
}

/// The little-endian bytes of a tensor read back as the same tensor, under its own
/// data type.
pub proof fn raw_round_trip(t: TensorView)
    ensures
        decoded_raw(v2_name(t.datatype()), raw_bytes(t)) == Ok::<TensorView, Seq<char>>(t),
{
    v2_names_are_distinct(t.datatype());
    let d = t.datatype();
    let w = width(d) as int;
    let raw = raw_bytes(t);
    lemma_fundamental_div_mod_converse(raw.len() as int, w, t.count() as int, 0);
    assert forall|i: int| 0 <= i < t.count() implies word(raw, w, i) == #[trigger] element_bits(
        t,
        i,
    ) by {
        raw_word_is_element(t, i);
    }
    assert(forall|x: i8| (#[trigger] (x as u8)) as i8 == x) by (bit_vector);
    assert(forall|x: i16| (#[trigger] (x as u16)) as i16 == x) by (bit_vector);
    assert(forall|x: i32| (#[trigger] (x as u32)) as i32 == x) by (bit_vector);
    assert(forall|x: i64| (#[trigger] (x as u64)) as i64 == x) by (bit_vector);
    let back = tensor_of_raw(d, raw);
    assert(back.count() == t.count());
    match t {
        TensorView::F32(v) => {
            assert forall|i: int| 0 <= i < v.len() implies back->F32_0[i] == #[trigger] v[i] by {
                assert(element_bits(t, i) == v[i]);
            }
        },
        TensorView::F64(v) => {
            assert forall|i: int| 0 <= i < v.len() implies back->F64_0[i] == #[trigger] v[i] by {
                assert(element_bits(t, i) == v[i]);
            }
        },
        TensorView::I8(v) => {
            assert forall|i: int| 0 <= i < v.len() implies back->I8_0[i] == #[trigger] v[i] by {
                single_byte_word(raw, i);
                assert(element_bits(t, i) == v[i] as u8);
            }
        },
        TensorView::I16(v) => {
            assert forall|i: int| 0 <= i < v.len() implies back->I16_0[i] == #[trigger] v[i] by {
                assert(element_bits(t, i) == v[i] as u16);
            }
        },
        TensorView::I32(v) => {
            assert forall|i: int| 0 <= i < v.len() implies back->I32_0[i] == #[trigger] v[i] by {
                assert(element_bits(t, i) == v[i] as u32);
            }
        },
        TensorView::I64(v) => {
            assert forall|i: int| 0 <= i < v.len() implies back->I64_0[i] == #[trigger] v[i] by {
                assert(element_bits(t, i) == v[i] as u64);
            }
        },
        TensorView::U8(v) => {
            assert forall|i: int| 0 <= i < v.len() implies back->U8_0[i] == #[trigger] v[i] by {
                single_byte_word(raw, i);
                assert(element_bits(t, i) == v[i]);
            }
        },
        TensorView::U16(v) => {
            assert forall|i: int| 0 <= i < v.len() implies back->U16_0[i] == #[trigger] v[i] by {
                assert(element_bits(t, i) == v[i]);
            }
        },
        TensorView::U32(v) => {
            assert forall|i: int| 0 <= i < v.len() implies back->U32_0[i] == #[trigger] v[i] by {
                assert(element_bits(t, i) == v[i]);
            }
        },
        TensorView::U64(v) => {
            assert forall|i: int| 0 <= i < v.len() implies back->U64_0[i] == #[trigger] v[i] by {
                assert(element_bits(t, i) == v[i]);
            }
        },
    }
    assert(back =~= t);
}

/// A tensor reads the same from its raw bytes and from its typed fields.
pub proof fn raw_and_typed_inputs_agree(t: TensorView, contents: Option<ContentsView>)
    ensures
        decoded_grpc(v2_name(t.datatype()), contents, Some(raw_bytes(t))) == decoded_grpc(
            v2_name(t.datatype()),
            Some(contents_of(t)),
            None,
        ),
{
    raw_round_trip(t);
    contents_round_trip(t);
}

/// No input is taken for the data type FP16, in whichever way it is sent.
pub proof fn grpc_rejects_half_precision(contents: Option<ContentsView>, raw: Option<Seq<u8>>)
    ensures
        decoded_grpc("FP16"@, contents, raw) is Err,
{
    half_precision_is_unknown();
}

/// The gRPC codes that the server answers failed requests with.
#[derive(Debug, Clone, Copy, PartialEq, Eq, Structural)]
pub enum GrpcCode {
    InvalidArgument,
    NotFound,
    Internal,
}

/// The code and the text that a fault is answered with.
pub open spec fn grpc_answer(f: ServeFault) -> (GrpcCode, Seq<char>) {
    match f {
        ServeFault::NotFound(m) => (GrpcCode::NotFound, m),
        ServeFault::BadRequest(m) => (GrpcCode::InvalidArgument, m),
        ServeFault::Internal(m) => (GrpcCode::Internal, m),
    }
}

/// Chooses the answer to a request that failed.
pub fn serve_err_status(e: ServeErr) -> (r: (GrpcCode, String))
    ensures
        (r.0, r.1@) == grpc_answer(e@),
{
    match e {
        ServeErr::NotFound(m) => (GrpcCode::NotFound, m),
        ServeErr::BadRequest(m) => (GrpcCode::InvalidArgument, m),
        ServeErr::Internal(m) => (GrpcCode::Internal, m),
    }
}

/// Answers whether the model of that name is ready to serve.
pub fn model_ready(handle: &Handle, name: &str) -> (r: bool)
    ensures
        r == (name@ == handle.model_name@),
{
    same_text(name, handle.model_name.as_str())
}

/// What is published of a tensor. The message has no place for parameters.
pub open spec fn tensor_message(s: TensorSpecView) -> TensorMetadataView {
    TensorMetadataView {
        name: s.name,
        datatype: published_datatype(s.dtype),
        shape: s.shape,
        parameters: None,
    }
}

fn describe_all(specs: &Vec<TensorSpec>) -> (r: Vec<TensorMetadata>)
    ensures
        metadata_views(r@) == spec_views(specs@).map_values(|s: TensorSpecView| tensor_message(s)),
{
    let ghost all = spec_views(specs@).map_values(|s: TensorSpecView| tensor_message(s));
    let mut r: Vec<TensorMetadata> = Vec::new();
    for i in 0..specs.len()
        invariant
            all == spec_views(specs@).map_values(|s: TensorSpecView| tensor_message(s)),
            metadata_views(r@) =~= all.take(i as int),
    {
        let ghost before = metadata_views(r@);
        let t = TensorMetadata {
            name: specs[i].name.clone(),
            datatype: tvm_to_v2_dtype(specs[i].dtype.as_str()).to_string(),
            shape: same_elements(&specs[i].shape),
            parameters: None,
        };
        assert(t@ == all[i as int]);
        r.push(t);
        assert(metadata_views(r@) =~= before.push(t@));
    }
    r
}

/// What is published of a model.
pub open spec fn model_message(model_name: Seq<char>, m: MetadataView) -> ModelMetadataView {
    ModelMetadataView {
        name: model_name,
        versions: seq!["1"@],
        platform: "tvm_relax"@,
        inputs: m.inputs.map_values(|s: TensorSpecView| tensor_message(s)),
        outputs: m.outputs.map_values(|s: TensorSpecView| tensor_message(s)),
    }
}

/// Describes the model of that name.
pub fn model_metadata(handle: &Handle, name: &str) -> (r: Result<ModelMetadata, (GrpcCode, String)>)
    ensures
        match r {
            Ok(m) => name@ == handle.model_name@ && m@ == model_message(
                handle.model_name@,
                handle.metadata@,
            ),
            Err(e) => name@ != handle.model_name@ && e.0 == GrpcCode::NotFound && e.1@ == "model '"@
                + name@ + "' not found"@,
        },
{
    if !same_text(name, handle.model_name.as_str()) {
        let mut m = "model '".to_string();
        m.append(name);
        m.append("' not found");
        return Err((GrpcCode::NotFound, m));
    }
    let mut versions: Vec<String> = Vec::new();
    versions.push("1".to_string());
    assert(texts(versions@) =~= seq!["1"@]);
    Ok(
        ModelMetadata {
            name: handle.model_name.clone(),
            versions,
            platform: "tvm_relax".to_string(),
            inputs: describe_all(&handle.metadata.inputs),
            outputs: describe_all(&handle.metadata.outputs),
        },
    )
}

/// One input tensor of a request.
#[derive(Debug)]
pub struct InferInputTensor {
    pub name: String,
    pub datatype: String,
    pub shape: Vec<i64>,
    pub contents: Option<InferTensorContents>,
}

/// The contents of an [`InferInputTensor`].
#[verifier::ext_equal]
pub struct InferInputTensorView {
    pub name: Seq<char>,
    pub datatype: Seq<char>,
    pub shape: Seq<i64>,
    pub contents: Option<ContentsView>,
}

impl View for InferInputTensor {
    type V = InferInputTensorView;

    open spec fn view(&self) -> InferInputTensorView {
        InferInputTensorView {
            name: self.name@,
            datatype: self.datatype@,
            shape: self.shape@,
            contents: match self.contents {
                Some(c) => Some(c@),
                None => None,
            },
        }
    }
}

/// The contents of the inputs of a request.
pub open spec fn tensor_views(v: Seq<InferInputTensor>) -> Seq<InferInputTensorView> {
    v.map_values(|t: InferInputTensor| t@)
}

/// The raw bytes of the inputs of a request.
pub open spec fn raw_views(v: Seq<Vec<u8>>) -> Seq<Seq<u8>> {
    v.map_values(|b: Vec<u8>| b@)
}

/// Input `i` of a request with its data decoded, or the complaint. If the request
/// has raw contents at all, every input is read from them.
pub open spec fn decoded_tensor(
    i: int,
    t: InferInputTensorView,
    raw_contents: Seq<Seq<u8>>,
) -> Result<InferInputView, Seq<char>> {
    if raw_contents.len() > 0 && i >= raw_contents.len() {
        Err("raw_input_contents incomplete"@)
    } else {
        let raw = if raw_contents.len() > 0 {
            Some(raw_contents[i])
        } else {
            None
        };
        match decoded_grpc(t.datatype, t.contents, raw) {
            Err(m) => Err("input["@ + decimal(i) + "]: "@ + m),
            Ok(data) => Ok(InferInputView { name: t.name, shape: t.shape, data }),
        }
    }
}

/// The inputs of a request with their data decoded; the first one that cannot be
/// decoded gives the complaint.
pub open spec fn decoded_tensors(
    inputs: Seq<InferInputTensorView>,
    raw_contents: Seq<Seq<u8>>,
) -> Result<Seq<InferInputView>, Seq<char>>
    decreases inputs.len(),
{
    if inputs.len() == 0 {
        Ok(seq![])
    } else {
        match decoded_tensors(inputs.drop_last(), raw_contents) {
            Err(m) => Err(m),
            Ok(before) => match decoded_tensor(inputs.len() - 1, inputs.last(), raw_contents) {
                Err(m) => Err(m),
                Ok(input) => Ok(before.push(input)),
            },
        }
    }
}

proof fn first_undecodable_decides(
    inputs: Seq<InferInputTensorView>,
    raw_contents: Seq<Seq<u8>>,
    k: int,
)
    requires
        0 <= k <= inputs.len(),
        decoded_tensors(inputs.take(k), raw_contents) is Err,
    ensures
        decoded_tensors(inputs, raw_contents) == decoded_tensors(inputs.take(k), raw_contents),
    decreases inputs.len() - k,
{
    if k < inputs.len() {
        assert(inputs.take(k + 1).drop_last() =~= inputs.take(k));
        first_undecodable_decides(inputs, raw_contents, k + 1);
    } else {
        assert(inputs.take(k) =~= inputs);
    }
}

/// Decodes the inputs of a request. What cannot be decoded is the client's fault.
pub fn decode_inputs(inputs: &Vec<InferInputTensor>, raw_input_contents: &Vec<Vec<u8>>) -> (r:
    Result<Vec<InferInput>, (GrpcCode, String)>)
    ensures
        match decoded_tensors(tensor_views(inputs@), raw_views(raw_input_contents@)) {
            Ok(v) => r matches Ok(decoded) && input_views(decoded@) == v,
            Err(m) => r matches Err(e) && e.0 == GrpcCode::InvalidArgument && e.1@ == m,
        },
        r matches Ok(decoded) ==> decoded@.len() == inputs@.len() && forall|k: int|
            0 <= k < inputs@.len() ==> (#[trigger] decoded@[k]).name@ == inputs@[k].name@
                && decoded@[k].shape@ == inputs@[k].shape@ && v2_datatype(inputs@[k].datatype@)
                == Some(decoded@[k].data@.datatype()),
{
    let ghost all = tensor_views(inputs@);
    let ghost raws = raw_views(raw_input_contents@);
    let use_raw = raw_input_contents.len() > 0;
    let mut decoded: Vec<InferInput> = Vec::new();
    assert(all.take(0) =~= seq![]);
    assert(input_views(decoded@) =~= seq![]);
    for i in 0..inputs.len()
        invariant
            all == tensor_views(inputs@),
            raws == raw_views(raw_input_contents@),
            use_raw == (raws.len() > 0),
            decoded_tensors(all.take(i as int), raws) == Ok::<Seq<InferInputView>, Seq<char>>(
                input_views(decoded@),
            ),
    {
        let ghost before = input_views(decoded@);
        let t = &inputs[i];
        assert(all[i as int] == t@);
        assert(all.take(i + 1).drop_last() =~= all.take(i as int));
        if use_raw && i >= raw_input_contents.len() {
            proof {
                first_undecodable_decides(all, raws, i + 1);
            }
            return Err((GrpcCode::InvalidArgument, "raw_input_contents incomplete".to_string()));
        }
        let raw = if use_raw {
            assert(raws[i as int] == raw_input_contents@[i as int]@);
            Some(raw_input_contents[i].as_slice())
        } else {
            None
        };
        match tensor_data_from_grpc(t.datatype.as_str(), t.contents.as_ref(), raw) {
            Ok(data) => {
                let input = InferInput {
                    name: t.name.clone(),
                    shape: same_elements(&t.shape),
                    data,
                };
                decoded.push(input);
                assert(input_views(decoded@) =~= before.push(input@));
            },
            Err(e) => {
                proof {
                    first_undecodable_decides(all, raws, i + 1);
                }
                let mut m = "input[".to_string();
                m.append(decimal_u64(i as u64).as_str());
                m.append("]: ");
                m.append(e.as_str());
                return Err((GrpcCode::InvalidArgument, m));
            },
        }
    }
    assert(all.take(all.len() as int) =~= all);
    proof {
        grpc_requests_decode_input_by_input(all, raws);
        assert(input_views(decoded@).len() == decoded@.len());
        assert forall|k: int| 0 <= k < decoded@.len() implies input_views(decoded@)[k] == (
        #[trigger] decoded@[k])@ && all[k] == inputs@[k]@ by {}
    }
    Ok(decoded)
}

/// What becomes of a request for model `name`: the inputs to run, or the code and
/// the text to answer with. What cannot be decoded is answered before the name is
/// looked at.
pub open spec fn accepted_request(
    model_name: Seq<char>,
    specs: Seq<TensorSpecView>,
    name: Seq<char>,
    inputs: Seq<InferInputTensorView>,
    raw_contents: Seq<Seq<u8>>,
) -> Result<Seq<InferInputView>, (GrpcCode, Seq<char>)> {
    match decoded_tensors(inputs, raw_contents) {
        Err(m) => Err((GrpcCode::InvalidArgument, m)),
        Ok(decoded) => match accepted_inputs(model_name, specs, name, decoded) {
            Err(f) => Err(grpc_answer(f)),
            Ok(job) => Ok(job),
        },
    }
}

/// Decodes a request and validates it against the model. The inputs that come back
/// are what the worker is to run.
pub fn accept_request(
    handle: &Handle,
    name: &str,
    inputs: &Vec<InferInputTensor>,
    raw_input_contents: &Vec<Vec<u8>>,
) -> (r: Result<Vec<InferInput>, (GrpcCode, String)>)
    ensures
        (match r {
            Ok(job) => Ok::<Seq<InferInputView>, (GrpcCode, Seq<char>)>(input_views(job@)),
            Err(e) => Err((e.0, e.1@)),
        }) == accepted_request(
            handle.model_name@,
            handle.metadata@.inputs,
            name@,
            tensor_views(inputs@),
            raw_views(raw_input_contents@),
        ),
{
    match decode_inputs(inputs, raw_input_contents) {
        Err(e) => Err(e),
        Ok(decoded) => match handle.serve_infer(name, decoded) {
            Err(e) => Err(serve_err_status(e)),
            Ok(job) => Ok(job),
        },
    }
}

/// One output tensor of a response.
#[derive(Debug)]
pub struct InferOutputTensor {
    pub name: String,
    pub datatype: String,
    pub shape: Vec<i64>,
    pub contents: InferTensorContents,
}

/// The contents of an [`InferOutputTensor`].
#[verifier::ext_equal]
pub struct InferOutputTensorView {
    pub name: Seq<char>,
    pub datatype: Seq<char>,
    pub shape: Seq<i64>,
    pub contents: ContentsView,
}

impl View for InferOutputTensor {
    type V = InferOutputTensorView;

    open spec fn view(&self) -> InferOutputTensorView {
        InferOutputTensorView {
            name: self.name@,
            datatype: self.datatype@,
            shape: self.shape@,
            contents: self.contents@,
        }
    }
}

/// An inference response. Outputs travel in typed fields only.
#[derive(Debug)]
pub struct ModelInferResponse {
    pub model_name: String,
    pub model_version: String,
    pub id: String,
    pub outputs: Vec<InferOutputTensor>,
}

/// The contents of a [`ModelInferResponse`].
#[verifier::ext_equal]
pub struct ModelInferResponseView {
    pub model_name: Seq<char>,
    pub model_version: Seq<char>,
    pub id: Seq<char>,
    pub outputs: Seq<InferOutputTensorView>,
}

impl View for ModelInferResponse {
    type V = ModelInferResponseView;

    open spec fn view(&self) -> ModelInferResponseView {
        ModelInferResponseView {
            model_name: self.model_name@,
            model_version: self.model_version@,
            id: self.id@,
            outputs: self.outputs@.map_values(|o: InferOutputTensor| o@),
        }
    }
}

/// An output tensor as it is written in a response.
pub open spec fn output_message(o: InferOutputView) -> InferOutputTensorView {
    InferOutputTensorView {
        name: o.name,
        datatype: o.datatype,
        shape: o.shape,
        contents: contents_of(o.data),
    }
}

/// The response that tells of the outputs of a run.
pub open spec fn response(
    model_name: Seq<char>,
    id: Seq<char>,
    outs: Seq<InferOutputView>,
) -> ModelInferResponseView {
    ModelInferResponseView {
        model_name,
        model_version: "1"@,
        id,
        outputs: outs.map_values(|o: InferOutputView| output_message(o)),
    }
}

/// Encodes the outputs of a run.
pub fn encode_response(handle: &Handle, id: String, outs: Vec<InferOutput>) -> (r:
    ModelInferResponse)
    ensures
        r@ == response(handle.model_name@, id@, output_views(outs@)),
        r.outputs@.len() == outs@.len(),
        forall|k: int|
            0 <= k < outs@.len() ==> (#[trigger] r.outputs@[k]).name@ == outs@[k].name@
                && r.outputs@[k].shape@ == outs@[k].shape@ && r.outputs@[k].datatype@
                == outs@[k].datatype@ && r.outputs@[k].contents@ == contents_of(outs@[k].data@),
{
    let ghost all = output_views(outs@).map_values(|o: InferOutputView| output_message(o));
    let ghost view = |o: InferOutputTensor| o@;
    let mut outputs: Vec<InferOutputTensor> = Vec::new();
    for o in it: outs
        invariant
            all == output_views(outs@).map_values(|o: InferOutputView| output_message(o)),
            it.seq() == outs@,
            view == (|o: InferOutputTensor| o@),
            outputs@.map_values(view) =~= all.take(it.index() as int),
    {
        let ghost before = outputs@.map_values(view);
        let ghost k = it.index() as int;
        let output = InferOutputTensor {
            name: o.name,
            datatype: o.datatype,
            shape: o.shape,
            contents: tensor_data_to_contents(o.data),
        };
        assert(output@ == all[k]);
        outputs.push(output);
        assert(outputs@.map_values(view) =~= before.push(output@));
        assert(all.take(k + 1) =~= all.take(k).push(all[k]));
    }
    let r = ModelInferResponse {
        model_name: handle.model_name.clone(),
        model_version: "1".to_string(),
        id,
        outputs,
    };
    assert(r@.outputs =~= all);
    assert(forall|k: int|
        0 <= k < outs@.len() ==> all[k] == (#[trigger] r.outputs@[k])@ && output_views(outs@)[k]
            == outs@[k]@);
    r
}

/// What the end of a run is answered with: the response of a run that gave outputs,
/// or the code and the text of the fault.
pub open spec fn answered_request(
    model_name: Seq<char>,
    id: Seq<char>,
    answer: WorkerAnswer,
) -> Result<ModelInferResponseView, (GrpcCode, Seq<char>)> {
    match run_outcome(answer) {
        Ok(outs) => Ok(response(model_name, id, outs)),
        Err(f) => Err(grpc_answer(f)),
    }
}

/// Answers a request once its run has ended.
pub fn answer_request(handle: &Handle, id: String, answer: WorkerAnswer) -> (r: Result<
    ModelInferResponse,
    (GrpcCode, String),
>)
    ensures
        (match r {
            Ok(m) => Ok::<ModelInferResponseView, (GrpcCode, Seq<char>)>(m@),
            Err(e) => Err((e.0, e.1@)),
        }) == answered_request(handle.model_name@, id@, answer),
{
    match conclude(answer) {
        Ok(outs) => Ok(encode_response(handle, id, outs)),
        Err(e) => Err(serve_err_status(e)),
    }
}

/// If a request has raw contents at all, the typed fields of its inputs do not
/// matter.
pub proof fn raw_contents_take_precedence(
    a: Seq<InferInputTensorView>,
    b: Seq<InferInputTensorView>,
    raw_contents: Seq<Seq<u8>>,
)
    requires
        raw_contents.len() > 0,
        a.len() == b.len(),
        forall|i: int|
            0 <= i < a.len() ==> (#[trigger] a[i]).name == b[i].name && a[i].datatype
                == b[i].datatype && a[i].shape == b[i].shape,
    ensures
        decoded_tensors(a, raw_contents) == decoded_tensors(b, raw_contents),
    decreases a.len(),
{
    if a.len() > 0 {
        assert forall|i: int| 0 <= i < a.drop_last().len() implies (#[trigger] a.drop_last()[i]).name
            == b.drop_last()[i].name && a.drop_last()[i].datatype == b.drop_last()[i].datatype
            && a.drop_last()[i].shape == b.drop_last()[i].shape by {
            assert(a.drop_last()[i] == a[i]);
        }
        raw_contents_take_precedence(a.drop_last(), b.drop_last(), raw_contents);
        assert(a[a.len() - 1] == a.last());
    }
}

/// A request with raw contents for some of its inputs only is refused.
pub proof fn incomplete_raw_contents_are_refused(
    inputs: Seq<InferInputTensorView>,
    raw_contents: Seq<Seq<u8>>,
)
    requires
        0 < raw_contents.len() < inputs.len(),
    ensures
        decoded_tensors(inputs, raw_contents) is Err,
{
}

/// Raw contents beyond the inputs of a request are ignored.
pub proof fn surplus_raw_contents_are_ignored(
    inputs: Seq<InferInputTensorView>,
    raw_contents: Seq<Seq<u8>>,
    n: int,
)
    requires
        0 < n <= raw_contents.len(),
        inputs.len() <= n,
    ensures
        decoded_tensors(inputs, raw_contents) == decoded_tensors(inputs, raw_contents.take(n)),
    decreases inputs.len(),
{
    if inputs.len() > 0 {
        surplus_raw_contents_are_ignored(inputs.drop_last(), raw_contents, n);
    }
}

/// A tensor reads the same from JSON and from a gRPC message, so that the
/// transports hand the same inputs on. JSON has no infinities and no NaN.
pub proof fn transports_read_the_same_tensor(t: TensorView, data: JsonView)
    requires
        t.finite(),
        flattened(data) == Ok::<Seq<NumberView>, Seq<char>>(entry_numbers(t)),
    ensures
        decoded_json(data, v2_name(t.datatype())) == decoded_grpc(
            v2_name(t.datatype()),
            Some(contents_of(t)),
            None,
        ),
        decoded_json(data, v2_name(t.datatype())) == Ok::<TensorView, Seq<char>>(t),
{
    json_round_trip(t);
    contents_round_trip(t);
    v2_names_are_distinct(t.datatype());
}

/// Both transports answer a failed request with the same text, under the status
/// of the same meaning.
pub proof fn transports_answer_failures_alike(f: ServeFault)
    ensures
        grpc_answer(f).1 == http_answer(f).1,
        grpc_answer(f).0 == GrpcCode::NotFound <==> http_answer(f).0 == HttpStatus::NotFound,
        grpc_answer(f).0 == GrpcCode::InvalidArgument <==> http_answer(f).0
            == HttpStatus::BadRequest,
        grpc_answer(f).0 == GrpcCode::Internal <==> http_answer(f).0
            == HttpStatus::InternalServerError,
{
}

/// Requests that decode to the same inputs are accepted or refused alike by both
/// transports: with the same job for the worker, or with the same text.
pub proof fn transports_accept_the_same_requests(
    model_name: Seq<char>,
    specs: Seq<TensorSpecView>,
    name: Seq<char>,
    json: Seq<RequestInputView>,
    inputs: Seq<InferInputTensorView>,
    raw_contents: Seq<Seq<u8>>,
)
    requires
        decoded_request(json) is Ok,
        decoded_request(json) == decoded_tensors(inputs, raw_contents),
    ensures
        match (
            crate::rest::accepted_request(model_name, specs, name, json),
            accepted_request(model_name, specs, name, inputs, raw_contents),
        ) {
            (Ok(a), Ok(b)) => a == b,
            (Err(a), Err(b)) => a.1 == b.1,
            _ => false,
        },
{
}

/// Both transports publish the same of a model, but for the quantization
/// parameters, which gRPC leaves out.
pub proof fn transports_publish_the_same_model(model_name: Seq<char>, m: MetadataView)
    ensures
        ({
            let rest = published_model(model_name, m);
            let grpc = model_message(model_name, m);
            let bare = |t: TensorMetadataView| TensorMetadataView { parameters: None, ..t };
            &&& grpc.name == rest.name
            &&& grpc.versions == rest.versions
            &&& grpc.platform == rest.platform
            &&& grpc.inputs == rest.inputs.map_values(bare)
            &&& grpc.outputs == rest.outputs.map_values(bare)
        }),
{
}

} // verus!
