//! Laws of the operations themselves: what a call gives back, whatever it is called
//! with. The other laws say of each of these results what it is made of.
use crate::float_bits::{
    clamped, finite32, finite64, narrow, narrowed, to_i64, to_u64, truncated, widen, widened,
};
use crate::grpc;
use crate::grpc::{
    contents_of, decode_inputs, decoded_grpc, decoded_raw, decoded_tensors, grpc_answer,
    raw_views, serve_err_status, tensor_data_from_grpc, tensor_data_from_raw,
    tensor_data_to_contents, tensor_views, GrpcCode, InferInputTensor, InferTensorContents,
    ModelInferResponse,
};
use crate::json::{
    json_view, number_as_i64, number_as_u64, number_i64, number_u64, number_view,
};
use crate::protocol::{
    decoded_json, json_entries, product, published_datatype, shape_fault, tvm_datatype,
    tvm_to_v2_dtype, v2_datatype, v2_name, validate_shape, Datatype, InferResponse, JsonScalar,
    RequestInput, TensorData, TensorMetadata, TensorView,
};
use crate::relax::{
    canonical, canonical_arch, check_llvm_target, fault_of, fault_text, parse_plain_target,
    plain_target, runtime_checked, target_checked, target_fault, validate_llvm_target, LlvmTarget,
    Metadata, RuntimeError, TensorSpec,
};
use crate::rest;
use crate::rest::{
    decode_request, decoded_request, http_answer, request_views, serve_err_http,
    to_tensor_metadata, HttpStatus,
};
use crate::startup::{
    check_dtypes, check_model, dtype_fault, model_checked, start_fault_of, start_fault_text,
    StartError,
};
use crate::text::{
    before_dash, decimal, decimal_i64, decimal_u64, first_dash_part, is_white, is_whitespace,
    list_text, lower_case, parse_unsigned, render_list, same_text, split_words, strip_prefix,
    texts, to_lower, trim, trimmed, unsigned_value, words_of,
};
use crate::worker::{
    accepted_inputs, conclude, input_views, name_outputs, named_outputs, output_views,
    run_outcome, Handle, InferInput, InferOutput, RawOutput, ServeErr, WorkerAnswer,
};
use vstd::prelude::*;

verus! {

/// An accepted request is run with the inputs where the model takes them: where the
/// names are those of the signature, in any order, place `k` gets an input of the name
/// that the signature has at place `k`; otherwise place `k` gets input `k`.
pub proof fn serving_puts_inputs_where_the_model_takes_them(
    handle: &Handle,
    name: &str,
    inputs: Vec<InferInput>,
    r: Result<Vec<InferInput>, ServeErr>,
    k: int,
)
    requires
        call_ensures(Handle::serve_infer, (handle, name, inputs), r),
        r is Ok,
        0 <= k < handle.metadata.inputs@.len(),
    ensures
        r->Ok_0@.len() == handle.metadata.inputs@.len(),
        name@ == handle.model_name@,
        (forall|i: int| 0 <= i < inputs@.len() ==> (#[trigger] inputs@[i]).name@.len() > 0)
            && Seq::new(inputs@.len(), |i: int| inputs@[i].name@).to_multiset() == Seq::new(
            handle.metadata.inputs@.len(),
            |i: int| handle.metadata.inputs@[i].name@,
        ).to_multiset() ==> r->Ok_0@[k].name@ == handle.metadata.inputs@[k].name@,
        !((forall|i: int| 0 <= i < inputs@.len() ==> (#[trigger] inputs@[i]).name@.len() > 0)
            && Seq::new(inputs@.len(), |i: int| inputs@[i].name@).to_multiset() == Seq::new(
            handle.metadata.inputs@.len(),
            |i: int| handle.metadata.inputs@[i].name@,
        ).to_multiset()) ==> r->Ok_0@[k].name@ == inputs@[k].name@ && r->Ok_0@[k].shape@
            == inputs@[k].shape@ && r->Ok_0@[k].data@ == inputs@[k].data@,
{
    let v = r->Ok_0;
    assert(v@[k] == v@[k]);
}

/// What serving gives is what becomes of the request.
pub proof fn serving_gives_what_becomes_of_the_request(
    handle: &Handle,
    name: &str,
    inputs: Vec<InferInput>,
    r: Result<Vec<InferInput>, ServeErr>,
)
    requires
        call_ensures(Handle::serve_infer, (handle, name, inputs), r),
    ensures
        match accepted_inputs(
            handle.model_name@,
            handle.metadata@.inputs,
            name@,
            input_views(inputs@),
        ) {
            Ok(job) => r matches Ok(v) && input_views(v@) == job,
            Err(f) => r matches Err(e) && e@ == f,
        },
{
}

/// Decoding a REST request keeps the names and shapes of its inputs.
pub proof fn rest_decoding_keeps_names_and_shapes(
    inputs: Vec<RequestInput>,
    r: Result<Vec<InferInput>, (HttpStatus, String)>,
    k: int,
)
    requires
        call_ensures(decode_request, (inputs,), r),
        0 <= k < inputs@.len(),
    ensures
        r matches Ok(v) ==> {
            &&& v@.len() == inputs@.len()
            &&& v@[k].name@ == inputs@[k].name@
            &&& v@[k].shape@ == inputs@[k].shape@
            &&& decoded_json(json_view(inputs@[k].data), inputs@[k].datatype@) == Ok::<
                TensorView,
                Seq<char>,
            >(v@[k].data@)
        },
        match decoded_request(request_views(inputs@)) {
            Ok(v) => r is Ok,
            Err(m) => r matches Err(e) && e.0 == HttpStatus::BadRequest && e.1@ == m,
        },
{
    if let Ok(v) = r {
        assert(v@[k] == v@[k]);
    }
}

/// Decoding a gRPC request keeps the names and shapes of its inputs, and gives data of
/// the declared data type.
pub proof fn grpc_decoding_keeps_names_and_shapes(
    inputs: &Vec<InferInputTensor>,
    raw: &Vec<Vec<u8>>,
    r: Result<Vec<InferInput>, (GrpcCode, String)>,
    k: int,
)
    requires
        call_ensures(decode_inputs, (inputs, raw), r),
        0 <= k < inputs@.len(),
    ensures
        r matches Ok(v) ==> {
            &&& v@.len() == inputs@.len()
            &&& v@[k].name@ == inputs@[k].name@
            &&& v@[k].shape@ == inputs@[k].shape@
            &&& v2_datatype(inputs@[k].datatype@) == Some(v@[k].data@.datatype())
        },
        match decoded_tensors(tensor_views(inputs@), raw_views(raw@)) {
            Ok(job) => r matches Ok(v) && input_views(v@) == job,
            Err(m) => r matches Err(e) && e.0 == GrpcCode::InvalidArgument && e.1@ == m,
        },
{
    if let Ok(v) = r {
        assert(v@[k] == v@[k]);
    }
}

/// A REST response has the outputs of the run, each with its name, shape, data type
/// and elements.
pub proof fn rest_encoding_keeps_the_outputs(
    handle: &Handle,
    id: String,
    outs: Vec<InferOutput>,
    ms: u64,
    r: InferResponse,
    k: int,
)
    requires
        call_ensures(rest::encode_response, (handle, id, outs, ms), r),
        0 <= k < outs@.len(),
    ensures
        r.model_name@ == handle.model_name@,
        r.model_version@ == "1"@,
        r.id@ == id@,
        r.parameters.inference_time_ms == ms,
        r.outputs@.len() == outs@.len(),
        r.outputs@[k].name@ == outs@[k].name@,
        r.outputs@[k].shape@ == outs@[k].shape@,
        r.outputs@[k].datatype@ == outs@[k].datatype@,
        r.outputs@[k].data@ == json_entries(outs@[k].data@),
        r.outputs@[k].data@.len() == outs@[k].data@.count(),
{
    assert(r@.model_name == r.model_name@);
    assert(r@.parameters == r.parameters);
}

/// A gRPC response has the outputs of the run, each with its name, shape, data type
/// and elements.
pub proof fn grpc_encoding_keeps_the_outputs(
    handle: &Handle,
    id: String,
    outs: Vec<InferOutput>,
    r: ModelInferResponse,
    k: int,
)
    requires
        call_ensures(grpc::encode_response, (handle, id, outs), r),
        0 <= k < outs@.len(),
    ensures
        r.model_name@ == handle.model_name@,
        r.model_version@ == "1"@,
        r.id@ == id@,
        r.outputs@.len() == outs@.len(),
        r.outputs@[k].name@ == outs@[k].name@,
        r.outputs@[k].shape@ == outs@[k].shape@,
        r.outputs@[k].datatype@ == outs@[k].datatype@,
        r.outputs@[k].contents@ == contents_of(outs@[k].data@),
{
    assert(r@.model_name == r.model_name@);
}

/// Whole requests: what the two transports accept and answer.
pub proof fn whole_requests(
    handle: &Handle,
    name: &str,
    json: Vec<RequestInput>,
    rest_job: Result<Vec<InferInput>, (HttpStatus, String)>,
    inputs: &Vec<InferInputTensor>,
    raw: &Vec<Vec<u8>>,
    grpc_job: Result<Vec<InferInput>, (GrpcCode, String)>,
    id: String,
    answer: WorkerAnswer,
    ms: u64,
    rest_answer: Result<InferResponse, (HttpStatus, String)>,
    grpc_reply: Result<ModelInferResponse, (GrpcCode, String)>,
)
    requires
        call_ensures(rest::accept_request, (handle, name, json), rest_job),
        call_ensures(grpc::accept_request, (handle, name, inputs, raw), grpc_job),
        call_ensures(rest::answer_request, (handle, id, answer, ms), rest_answer),
        call_ensures(grpc::answer_request, (handle, id, answer), grpc_reply),
    ensures
        match rest::accepted_request(
            handle.model_name@,
            handle.metadata@.inputs,
            name@,
            request_views(json@),
        ) {
            Ok(job) => rest_job matches Ok(v) && input_views(v@) == job,
            Err(e) => rest_job matches Err(f) && f.0 == e.0 && f.1@ == e.1,
        },
        match grpc::accepted_request(
            handle.model_name@,
            handle.metadata@.inputs,
            name@,
            tensor_views(inputs@),
            raw_views(raw@),
        ) {
            Ok(job) => grpc_job matches Ok(v) && input_views(v@) == job,
            Err(e) => grpc_job matches Err(f) && f.0 == e.0 && f.1@ == e.1,
        },
        match rest::answered_request(handle.model_name@, id@, answer, ms) {
            Ok(m) => rest_answer matches Ok(v) && v@ == m,
            Err(e) => rest_answer matches Err(f) && f.0 == e.0 && f.1@ == e.1,
        },
        match grpc::answered_request(handle.model_name@, id@, answer) {
            Ok(m) => grpc_reply matches Ok(v) && v@ == m,
            Err(e) => grpc_reply matches Err(f) && f.0 == e.0 && f.1@ == e.1,
        },
{
}

/// The ends of runs, their outputs, and the statuses of faults.
pub proof fn runs_and_their_faults(
    answer: WorkerAnswer,
    outcome: Result<Vec<InferOutput>, ServeErr>,
    e: ServeErr,
    http: (HttpStatus, String),
    code: (GrpcCode, String),
    specs: &Vec<TensorSpec>,
    raw: Vec<RawOutput>,
    outs: Vec<InferOutput>,
    s: HttpStatus,
    number: u16,
)
    requires
        call_ensures(conclude, (answer,), outcome),
        call_ensures(serve_err_http, (e,), http),
        call_ensures(serve_err_status, (e,), code),
        call_ensures(name_outputs, (specs, raw), outs),
        call_ensures(HttpStatus::code, (s,), number),
    ensures
        match run_outcome(answer) {
            Ok(o) => outcome matches Ok(v) && output_views(v@) == o,
            Err(f) => outcome matches Err(e) && e@ == f,
        },
        (http.0, http.1@) == http_answer(e@),
        (code.0, code.1@) == grpc_answer(e@),
        output_views(outs@) == named_outputs(crate::relax::spec_views(specs@), raw@),
        outs@.len() == raw@.len(),
        forall|k: int|
            0 <= k < outs@.len() ==> (#[trigger] outs@[k]).shape@ == raw@[k].shape@ && outs@[k].data@
                == raw@[k].data@,
        number == s.number(),
{
}

/// Tensors and data types, read and written.
pub proof fn tensors_read_and_written(
    v: &serde_json::Value,
    datatype: &str,
    from_json: Result<TensorData, String>,
    t: &TensorData,
    entries: Vec<JsonScalar>,
    raw: &[u8],
    from_raw: Result<TensorData, String>,
    c: &InferTensorContents,
    from_contents: Result<TensorData, String>,
    data: TensorData,
    contents: InferTensorContents,
    n: usize,
    d: Datatype,
)
    requires
        call_ensures(TensorData::from_json, (v, datatype), from_json),
        call_ensures(TensorData::to_json, (t,), entries),
        call_ensures(TensorData::len, (t,), n),
        call_ensures(TensorData::datatype, (t,), d),
        call_ensures(tensor_data_from_raw, (datatype, raw), from_raw),
        call_ensures(tensor_data_from_grpc, (datatype, Some(c), None), from_contents),
        call_ensures(tensor_data_to_contents, (data,), contents),
    ensures
        match decoded_json(json_view(*v), datatype@) {
            Ok(x) => from_json matches Ok(y) && y@ == x,
            Err(m) => from_json matches Err(e) && e@ == m,
        },
        entries@ == json_entries(t@),
        n == t@.count(),
        d == t@.datatype(),
        match decoded_raw(datatype@, raw@) {
            Ok(x) => from_raw matches Ok(y) && y@ == x,
            Err(m) => from_raw matches Err(e) && e@ == m,
        },
        match decoded_grpc(datatype@, Some(c@), None) {
            Ok(x) => from_contents matches Ok(y) && y@ == x,
            Err(m) => from_contents matches Err(e) && e@ == m,
        },
        contents@ == contents_of(data@),
{
}

/// Names of data types, shapes and published tensors.
pub proof fn names_shapes_and_published_tensors(
    s: &str,
    v2: Option<Datatype>,
    tvm: Option<Datatype>,
    d: Datatype,
    text: &'static str,
    published: &'static str,
    idx: usize,
    shape: &[i64],
    len: usize,
    valid: Result<(), String>,
    spec: &TensorSpec,
    told: TensorMetadata,
)
    requires
        call_ensures(Datatype::from_v2, (s,), v2),
        call_ensures(Datatype::from_tvm, (s,), tvm),
        call_ensures(Datatype::v2, (d,), text),
        call_ensures(tvm_to_v2_dtype, (s,), published),
        call_ensures(validate_shape, (idx, shape, len), valid),
        call_ensures(to_tensor_metadata, (spec,), told),
    ensures
        v2 == v2_datatype(s@),
        tvm == tvm_datatype(s@),
        text@ == v2_name(d),
        published@ == published_datatype(s@),
        match shape_fault(idx as nat, shape@, len as nat) {
            None => valid is Ok,
            Some(m) => valid matches Err(e) && e@ == m,
        },
        valid is Ok ==> product(shape@) == len,
        told.name@ == spec.name@,
        told.shape@ == spec.shape@,
        told.datatype@ == published_datatype(spec.dtype@),
        told.parameters is Some <==> spec.scale@.len() > 0,
        told.parameters matches Some(q) ==> q.scale@ == spec.scale@ && q.zero_point@
            == spec.zero_point@ && q.quantized_dimension == spec.quantized_dimension,
{
}

/// The checks of a model against the runtime.
pub proof fn checks_of_a_model<P: Fn(&str) -> Result<LlvmTarget, String>>(
    m: &Metadata,
    version: &str,
    commit: &str,
    arch: &str,
    parse: P,
    identity: Result<(), RuntimeError>,
    text: &str,
    target: Result<(), RuntimeError>,
    whole: Result<(), StartError>,
    dtypes: Result<(), StartError>,
)
    requires
        call_ensures(Metadata::validate_runtime::<P>, (m, version, commit, arch, parse), identity),
        call_ensures(validate_llvm_target::<P>, (text, arch, parse), target),
        call_ensures(check_model::<P>, (m, version, commit, arch, parse), whole),
        call_ensures(check_dtypes, (m,), dtypes),
    ensures
        runtime_checked(m@, version@, commit@, arch@, parse, fault_of(identity)),
        target_checked(text@, arch@, parse, fault_of(target)),
        model_checked(m@, version@, commit@, arch@, parse, start_fault_of(whole)),
        start_fault_of(dtypes) == dtype_fault(m@),
{
}

/// Targets, architectures and the messages of faults.
pub proof fn targets_and_messages(
    s: &str,
    plain: LlvmTarget,
    t: LlvmTarget,
    arch: &str,
    checked: Result<(), RuntimeError>,
    name: Option<&'static str>,
    e: &RuntimeError,
    text: String,
    f: &StartError,
    start_text: String,
)
    requires
        call_ensures(parse_plain_target, (s,), plain),
        call_ensures(check_llvm_target, (t, arch), checked),
        call_ensures(canonical_arch, (arch,), name),
        call_ensures(RuntimeError::message, (e,), text),
        call_ensures(StartError::message, (f,), start_text),
    ensures
        plain.kind@ == plain_target(s@).kind,
        plain.mtriple@ == plain_target(s@).mtriple,
        fault_of(checked) == target_fault(t@, arch@),
        name matches Some(n) ==> canonical(arch@) == Some(n@),
        name is None <==> canonical(arch@) is None,
        text@ == fault_text(e@),
        start_text@ == start_fault_text(f@),
{
    assert(plain@.kind == plain.kind@);
}

/// The functions on text.
pub proof fn functions_on_text(
    s: &str,
    t: &str,
    c: char,
    white: bool,
    trim_result: String,
    words: Vec<String>,
    rest: Option<String>,
    part: String,
    lower: String,
    same: bool,
    max: u64,
    number: Option<u64>,
    u: u64,
    i: i64,
    u_text: String,
    i_text: String,
    xs: &[i64],
    list: String,
)
    requires
        call_ensures(is_whitespace, (c,), white),
        call_ensures(trim, (s,), trim_result),
        call_ensures(split_words, (s,), words),
        call_ensures(strip_prefix, (s, t), rest),
        call_ensures(first_dash_part, (s,), part),
        call_ensures(to_lower, (s,), lower),
        call_ensures(same_text, (s, t), same),
        call_ensures(parse_unsigned, (s, max), number),
        call_ensures(decimal_u64, (u,), u_text),
        call_ensures(decimal_i64, (i,), i_text),
        call_ensures(render_list, (xs,), list),
    ensures
        white == is_white(c),
        trim_result@ == trimmed(s@),
        texts(words@) == words_of(s@),
        rest matches Some(r) ==> s@ == t@ + r@,
        rest is None ==> !t@.is_prefix_of(s@),
        part@ == before_dash(s@),
        lower@ == lower_case(s@),
        same == (s@ == t@),
        number matches Some(n) ==> unsigned_value(s@, max as nat) == Some(n as nat),
        number is None <==> unsigned_value(s@, max as nat) is None,
        u_text@ == decimal(u as int),
        i_text@ == decimal(i as int),
        list@ == list_text(xs@),
{
    if let Some(r) = rest {
        assert(s@ =~= t@ + r@) by {
            assert(t@ =~= s@.take(t@.len() as int));
        }
    }
}

/// The conversions of numbers.
pub proof fn conversions_of_numbers(
    b: u64,
    signed: i64,
    unsigned: u64,
    single: u32,
    a: u32,
    double: u64,
    n: &serde_json::Number,
    i: Option<i64>,
    u: Option<u64>,
)
    requires
        finite64(b),
        finite32(a),
        call_ensures(to_i64, (b,), signed),
        call_ensures(to_u64, (b,), unsigned),
        call_ensures(narrow, (b,), single),
        call_ensures(widen, (a,), double),
        call_ensures(number_as_i64, (n,), i),
        call_ensures(number_as_u64, (n,), u),
    ensures
        signed == clamped(truncated(b), i64::MIN as int, i64::MAX as int),
        unsigned == clamped(truncated(b), 0, u64::MAX as int),
        single == narrowed(b),
        double == widened(a),
        i == Some(number_i64(number_view(*n))),
        u == Some(number_u64(number_view(*n))),
{
}

} // verus!
