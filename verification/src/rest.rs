//! The REST side of the Open Inference v2 protocol: configuration values, the
//! published metadata, and the decoding and encoding of inference messages.
use crate::json::json_view;
use crate::laws::requests::rest_requests_decode_input_by_input;
use crate::protocol::{
    decoded_json, json_entries, metadata_views, published_datatype, tvm_to_v2_dtype, v2_datatype,
    InferResponse, InferResponseView, ModelMetadata, ModelMetadataView, Quantization,
    QuantizationView, RequestInput, RequestInputView, ResponseOutput, ResponseOutputView,
    ResponseParameters, TensorData, TensorMetadata, TensorMetadataView, TensorView,
};
use crate::relax::{spec_views, MetadataView, TensorSpec, TensorSpecView};
use crate::text::{parse_unsigned, same_text, texts, unsigned_value};
use crate::worker::{
    accepted_inputs, conclude, input_views, output_views, run_outcome, Handle, InferInput,
    InferInputView, InferOutput, InferOutputView, ServeErr, ServeFault, WorkerAnswer,
};
use vstd::prelude::*;

verus! {

/// The 16-bit number that an environment variable holds, or the default where it
/// is not set or holds something else.
pub fn env_u16(value: Option<&str>, default: u16) -> (r: u16)
    ensures
        r == (match value {
            Some(s) => match unsigned_value(s@, u16::MAX as nat) {
                Some(n) => n as u16,
                None => default,
            },
            None => default,
        }),
{
    match value {
        Some(s) => match parse_unsigned(s, u16::MAX as u64) {
            Some(n) => n as u16,
            None => default,
        },
        None => default,
    }
}

/// The number, at least one, that an environment variable holds, or the default
/// where it is not set or holds something else.
pub fn env_usize(value: Option<&str>, default: usize) -> (r: usize)
    ensures
        r == (match value {
            Some(s) => match unsigned_value(s@, usize::MAX as nat) {
                Some(n) => if n >= 1 {
                    n as usize
                } else {
                    default
                },
                None => default,
            },
            None => default,
        }),
        default >= 1 ==> r >= 1,
{
    match value {
        Some(s) => match parse_unsigned(s, usize::MAX as u64) {
            Some(n) => if n >= 1 {
                n as usize
            } else {
                default
            },
            None => default,
        },
        None => default,
    }
}

/// The HTTP statuses that the server answers with.
#[derive(Debug, Clone, Copy, PartialEq, Eq, Structural)]
pub enum HttpStatus {
    Success,
    BadRequest,
    NotFound,
    InternalServerError,
}

impl HttpStatus {
    /// The number of a status.
    pub open spec fn number(self) -> u16 {
        match self {
            HttpStatus::Success => 200,
            HttpStatus::BadRequest => 400,
            HttpStatus::NotFound => 404,
            HttpStatus::InternalServerError => 500,
        }
    }

    /// The three-digit code.
    pub fn code(self) -> (r: u16)
        ensures
            r == self.number(),
    {
        match self {
            HttpStatus::Success => 200,
            HttpStatus::BadRequest => 400,
            HttpStatus::NotFound => 404,
            HttpStatus::InternalServerError => 500,
        }
    }
}

/// The status and the text that a fault is answered with.
pub open spec fn http_answer(f: ServeFault) -> (HttpStatus, Seq<char>) {
    match f {
        ServeFault::NotFound(m) => (HttpStatus::NotFound, m),
        ServeFault::BadRequest(m) => (HttpStatus::BadRequest, m),
        ServeFault::Internal(m) => (HttpStatus::InternalServerError, m),
    }
}

/// Chooses the answer to a request that failed.
pub fn serve_err_http(e: ServeErr) -> (r: (HttpStatus, String))
    ensures
        (r.0, r.1@) == http_answer(e@),
{
    match e {
        ServeErr::NotFound(m) => (HttpStatus::NotFound, m),
        ServeErr::BadRequest(m) => (HttpStatus::BadRequest, m),
        ServeErr::Internal(m) => (HttpStatus::InternalServerError, m),
    }
}

/// What is published of a tensor. Only a quantized one has parameters; it is one
/// when it has scales.
pub open spec fn tensor_metadata(s: TensorSpecView) -> TensorMetadataView {
    TensorMetadataView {
        name: s.name,
        datatype: published_datatype(s.dtype),
        shape: s.shape,
        parameters: if s.scale.len() == 0 {
            None
        } else {
            Some(
                QuantizationView {
                    scale: s.scale,
                    zero_point: s.zero_point,
                    quantized_dimension: s.quantized_dimension,
                },
            )
        },
    }
}

/// Describes a tensor of the model.
pub fn to_tensor_metadata(s: &TensorSpec) -> (r: TensorMetadata)
    ensures
        r@ == tensor_metadata(s@),
        r.name@ == s.name@,
        r.shape@ == s.shape@,
        r.datatype@ == published_datatype(s.dtype@),
        r.parameters is Some <==> s.scale@.len() > 0,
        r.parameters matches Some(q) ==> q.scale@ == s.scale@ && q.zero_point@ == s.zero_point@
            && q.quantized_dimension == s.quantized_dimension,
{
    let parameters = if s.scale.len() == 0 {
        None
    } else {
        Some(
            Quantization {
                scale: s.scale.clone(),
                zero_point: s.zero_point.clone(),
                quantized_dimension: s.quantized_dimension,
            },
        )
    };
    let r = TensorMetadata {
        name: s.name.clone(),
        datatype: tvm_to_v2_dtype(s.dtype.as_str()).to_string(),
        shape: s.shape.clone(),
        parameters,
    };
    assert(r@ =~= tensor_metadata(s@));
    r
}

fn describe_all(specs: &Vec<TensorSpec>) -> (r: Vec<TensorMetadata>)
    ensures
        metadata_views(r@) == spec_views(specs@).map_values(
            |s: TensorSpecView| tensor_metadata(s),
        ),
{
    let ghost all = spec_views(specs@).map_values(|s: TensorSpecView| tensor_metadata(s));
    let mut r: Vec<TensorMetadata> = Vec::new();
    for i in 0..specs.len()
        invariant
            all == spec_views(specs@).map_values(|s: TensorSpecView| tensor_metadata(s)),
            metadata_views(r@) =~= all.take(i as int),
    {
        let ghost before = metadata_views(r@);
        let t = to_tensor_metadata(&specs[i]);
        assert(t@ == all[i as int]);
        r.push(t);
        assert(metadata_views(r@) =~= before.push(t@));
    }
    r
}

/// What is published of a model.
pub open spec fn published_model(model_name: Seq<char>, m: MetadataView) -> ModelMetadataView {
    ModelMetadataView {
        name: model_name,
        versions: seq!["1"@],
        platform: "tvm_relax"@,
        inputs: m.inputs.map_values(|s: TensorSpecView| tensor_metadata(s)),
        outputs: m.outputs.map_values(|s: TensorSpecView| tensor_metadata(s)),
    }
}

/// Answers whether the model of that name is ready to serve.
pub fn model_ready(handle: &Handle, name: &str) -> (r: HttpStatus)
    ensures
        r == (if name@ == handle.model_name@ {
            HttpStatus::Success
        } else {
            HttpStatus::NotFound
        }),
{
    if same_text(name, handle.model_name.as_str()) {
        HttpStatus::Success
    } else {
        HttpStatus::NotFound
    }
}

/// Describes the model of that name.
pub fn model_metadata(handle: &Handle, name: &str) -> (r: Result<ModelMetadata, HttpStatus>)
    ensures
        match r {
            Ok(m) => name@ == handle.model_name@ && m@ == published_model(
                handle.model_name@,
                handle.metadata@,
            ),
            Err(s) => name@ != handle.model_name@ && s == HttpStatus::NotFound,
        },
{
    if !same_text(name, handle.model_name.as_str()) {
        return Err(HttpStatus::NotFound);
    }
    let mut versions: Vec<String> = Vec::new();
    versions.push("1".to_string());
    assert(texts(versions@) =~= seq!["1"@]);
    Ok(
        ModelMetadata {
            name: handle.model_name.clone(),
            versions,
            platform: "tvm_relax".to_string(),
            inputs: describe_all(&handle.metadata.inputs),
            outputs: describe_all(&handle.metadata.outputs),
        },
    )
}

/// The contents of the inputs of a request.
pub open spec fn request_views(v: Seq<RequestInput>) -> Seq<RequestInputView> {
    v.map_values(|i: RequestInput| i@)
}

/// The inputs of a request with their data decoded; the first one that cannot be
/// decoded gives the complaint.
pub open spec fn decoded_request(inputs: Seq<RequestInputView>) -> Result<
    Seq<InferInputView>,
    Seq<char>,
>
    decreases inputs.len(),
{
    if inputs.len() == 0 {
        Ok(seq![])
    } else {
        match decoded_request(inputs.drop_last()) {
            Err(m) => Err(m),
            Ok(before) => {
                let i = inputs.last();
                match decoded_json(i.data, i.datatype) {
                    Err(m) => Err(m),
                    Ok(data) => Ok(
                        before.push(InferInputView { name: i.name, shape: i.shape, data }),
                    ),
                }
            },
        }
    }
}

proof fn first_undecodable_decides(inputs: Seq<RequestInputView>, k: int)
    requires
        0 <= k <= inputs.len(),
        decoded_request(inputs.take(k)) is Err,
    ensures
        decoded_request(inputs) == decoded_request(inputs.take(k)),
    decreases inputs.len() - k,
{
    if k < inputs.len() {
        assert(inputs.take(k + 1).drop_last() =~= inputs.take(k));
        first_undecodable_decides(inputs, k + 1);
    } else {
        assert(inputs.take(k) =~= inputs);
    }
}

/// Decodes the inputs of a request. What cannot be decoded is the client's fault.
pub fn decode_request(inputs: Vec<RequestInput>) -> (r: Result<
    Vec<InferInput>,
    (HttpStatus, String),
>)
    ensures
        match decoded_request(request_views(inputs@)) {
            Ok(v) => r matches Ok(decoded) && input_views(decoded@) == v,
            Err(m) => r matches Err(e) && e.0 == HttpStatus::BadRequest && e.1@ == m,
        },
        r matches Ok(decoded) ==> decoded@.len() == inputs@.len() && forall|k: int|
            0 <= k < inputs@.len() ==> (#[trigger] decoded@[k]).name@ == inputs@[k].name@
                && decoded@[k].shape@ == inputs@[k].shape@ && decoded_json(
                json_view(inputs@[k].data),
                inputs@[k].datatype@,
            ) == Ok::<TensorView, Seq<char>>(decoded@[k].data@),
{
    let ghost all = request_views(inputs@);
    let mut decoded: Vec<InferInput> = Vec::new();
    assert(all.take(0) =~= seq![]);
    assert(input_views(decoded@) =~= seq![]);
    for i in it: inputs
        invariant
            all == request_views(inputs@),
            it.seq() == inputs@,
            decoded_request(all.take(it.index() as int)) == Ok::<Seq<InferInputView>, Seq<char>>(
                input_views(decoded@),
            ),
    {
        let ghost k = it.index() as int;
        let ghost before = input_views(decoded@);
        assert(all[k] == i@);
        assert(all.take(k + 1).drop_last() =~= all.take(k));
        match TensorData::from_json(&i.data, i.datatype.as_str()) {
            Ok(data) => {
                let input = InferInput { name: i.name, shape: i.shape, data };
                decoded.push(input);
                assert(input_views(decoded@) =~= before.push(input@));
            },
            Err(m) => {
                proof {
                    first_undecodable_decides(all, k + 1);
                }
                return Err((HttpStatus::BadRequest, m));
            },
        }
    }
    assert(all.take(all.len() as int) =~= all);
    proof {
        rest_requests_decode_input_by_input(all);
        assert(input_views(decoded@).len() == decoded@.len());
        assert forall|k: int| 0 <= k < decoded@.len() implies input_views(decoded@)[k] == (
        #[trigger] decoded@[k])@ && all[k] == inputs@[k]@ by {}
    }
    Ok(decoded)
}

/// What becomes of a request for model `name`: the inputs to run, or the status and
/// the text to answer with. What cannot be decoded is answered before the name is
/// looked at.
pub open spec fn accepted_request(
    model_name: Seq<char>,
    specs: Seq<TensorSpecView>,
    name: Seq<char>,
    inputs: Seq<RequestInputView>,
) -> Result<Seq<InferInputView>, (HttpStatus, Seq<char>)> {
    match decoded_request(inputs) {
        Err(m) => Err((HttpStatus::BadRequest, m)),
        Ok(decoded) => match accepted_inputs(model_name, specs, name, decoded) {
            Err(f) => Err(http_answer(f)),
            Ok(job) => Ok(job),
        },
    }
}

/// Decodes a request and validates it against the model. The inputs that come back
/// are what the worker is to run.
pub fn accept_request(handle: &Handle, name: &str, inputs: Vec<RequestInput>) -> (r: Result<
    Vec<InferInput>,
    (HttpStatus, String),
>)
    ensures
        (match r {
            Ok(job) => Ok::<Seq<InferInputView>, (HttpStatus, Seq<char>)>(input_views(job@)),
            Err(e) => Err((e.0, e.1@)),
        }) == accepted_request(
            handle.model_name@,
            handle.metadata@.inputs,
            name@,
            request_views(inputs@),
        ),
{
    match decode_request(inputs) {
        Err(e) => Err(e),
        Ok(decoded) => match handle.serve_infer(name, decoded) {
            Err(e) => Err(serve_err_http(e)),
            Ok(job) => Ok(job),
        },
    }
}

/// An output tensor as it is written in a response.
pub open spec fn response_output(o: InferOutputView) -> ResponseOutputView {
    ResponseOutputView {
        name: o.name,
        shape: o.shape,
        datatype: o.datatype,
        data: json_entries(o.data),
    }
}

/// The response that tells of the outputs of a run.
pub open spec fn response(
    model_name: Seq<char>,
    id: Seq<char>,
    outs: Seq<InferOutputView>,
    inference_time_ms: u64,
) -> InferResponseView {
    InferResponseView {
        model_name,
        model_version: "1"@,
        id,
        outputs: outs.map_values(|o: InferOutputView| response_output(o)),
        parameters: ResponseParameters { inference_time_ms },
    }
}

/// Encodes the outputs of a run. `inference_time_ms` holds the bits of a double.
pub fn encode_response(
    handle: &Handle,
    id: String,
    outs: Vec<InferOutput>,
    inference_time_ms: u64,
) -> (r: InferResponse)
    ensures
        r@ == response(handle.model_name@, id@, output_views(outs@), inference_time_ms),
        r.outputs@.len() == outs@.len(),
        forall|k: int|
            0 <= k < outs@.len() ==> (#[trigger] r.outputs@[k]).name@ == outs@[k].name@
                && r.outputs@[k].shape@ == outs@[k].shape@ && r.outputs@[k].datatype@
                == outs@[k].datatype@ && r.outputs@[k].data@ == json_entries(outs@[k].data@),
{
    let ghost all = output_views(outs@).map_values(|o: InferOutputView| response_output(o));
    let ghost view = |o: ResponseOutput| o@;
    let mut outputs: Vec<ResponseOutput> = Vec::new();
    for o in it: outs
        invariant
            all == output_views(outs@).map_values(|o: InferOutputView| response_output(o)),
            it.seq() == outs@,
            view == (|o: ResponseOutput| o@),
            outputs@.map_values(view) =~= all.take(it.index() as int),
    {
        let ghost before = outputs@.map_values(view);
        let ghost k = it.index() as int;
        let output = ResponseOutput {
            name: o.name,
            shape: o.shape,
            datatype: o.datatype,
            data: o.data.to_json(),
        };
        assert(output@ == all[k]);
        outputs.push(output);
        assert(outputs@.map_values(view) =~= before.push(output@));
        assert(all.take(k + 1) =~= all.take(k).push(all[k]));
    }
    let r = InferResponse {
        model_name: handle.model_name.clone(),
        model_version: "1".to_string(),
        id,
        outputs,
        parameters: ResponseParameters { inference_time_ms },
    };
    assert(r@.outputs =~= all);
    assert(forall|k: int|
        0 <= k < outs@.len() ==> all[k] == (#[trigger] r.outputs@[k])@ && output_views(outs@)[k]
            == outs@[k]@);
    r
}

/// What the end of a run is answered with: the response of a run that gave outputs,
/// or the status and the text of the fault.
pub open spec fn answered_request(
    model_name: Seq<char>,
    id: Seq<char>,
    answer: WorkerAnswer,
    inference_time_ms: u64,
) -> Result<InferResponseView, (HttpStatus, Seq<char>)> {
    match run_outcome(answer) {
        Ok(outs) => Ok(response(model_name, id, outs, inference_time_ms)),
        Err(f) => Err(http_answer(f)),
    }
}

/// Answers a request once its run has ended. `inference_time_ms` holds the bits of
/// a double.
pub fn answer_request(
    handle: &Handle,
    id: String,
    answer: WorkerAnswer,
    inference_time_ms: u64,
) -> (r: Result<InferResponse, (HttpStatus, String)>)
    ensures
        (match r {
            Ok(m) => Ok::<InferResponseView, (HttpStatus, Seq<char>)>(m@),
            Err(e) => Err((e.0, e.1@)),
        }) == answered_request(handle.model_name@, id@, answer, inference_time_ms),
{
    match conclude(answer) {
        Ok(outs) => Ok(encode_response(handle, id, outs, inference_time_ms)),
        Err(e) => Err(serve_err_http(e)),
    }
}

/// Decoding keeps the inputs in their order, with their names, shapes and declared
/// data types.
pub proof fn decoding_keeps_the_inputs(inputs: Seq<RequestInputView>)
    requires
        decoded_request(inputs) is Ok,
    ensures
        ({
            let decoded = decoded_request(inputs)->Ok_0;
            &&& decoded.len() == inputs.len()
            &&& forall|i: int|
                0 <= i < inputs.len() ==> (#[trigger] decoded[i]).name == inputs[i].name
                    && decoded[i].shape == inputs[i].shape && v2_datatype(inputs[i].datatype)
                    == Some(decoded[i].data.datatype())
        }),
    decreases inputs.len(),
{
    if inputs.len() > 0 {
        decoding_keeps_the_inputs(inputs.drop_last());
        let before = decoded_request(inputs.drop_last())->Ok_0;
        let decoded = decoded_request(inputs)->Ok_0;
        assert forall|i: int| 0 <= i < inputs.len() implies (#[trigger] decoded[i]).name
            == inputs[i].name && decoded[i].shape == inputs[i].shape && v2_datatype(
            inputs[i].datatype,
        ) == Some(decoded[i].data.datatype()) by {
            if i < inputs.len() - 1 {
                assert(decoded[i] == before[i]);
                assert(inputs.drop_last()[i] == inputs[i]);
            }
        }
    }
}

} // verus!
