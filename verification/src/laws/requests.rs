//! Laws of requests: how they are decoded, validated and put in order, and how they
//! are answered.
use crate::grpc::{
    accepted_request as grpc_accepted, answered_request as grpc_answered, contents_of,
    decoded_grpc, decoded_tensors, grpc_answer, raw_views, tensor_views, GrpcCode,
    InferInputTensor, InferInputTensorView, InferOutputTensor, ModelInferResponse,
};
use crate::grpc::response as grpc_response;
use crate::json::json_view;
use crate::laws::tensors::shapes_are_accepted_by_their_product;
use crate::protocol::{
    decoded_json, json_entries, product, shape_fault, v2_datatype, v2_name, Datatype,
    InferResponse, RequestInput, RequestInputView, ResponseOutput,
};
use crate::relax::TensorSpecView;
use crate::rest::{
    accepted_request as rest_accepted, answered_request as rest_answered, decoded_request,
    http_answer, request_views, HttpStatus,
};
use crate::rest::response as rest_response;
use crate::text::decimal;
use crate::worker::{
    accepted_inputs, arranged, arranging_keeps_every_input, dlpack_datatype,
    first_shape_fault, input_names, input_views, inputs_of_one_name_keep_their_order,
    matched_by_name, named, named_inputs_follow_the_signature, named_outputs, output_views,
    run_outcome, spec_names, InferInput, InferInputView, InferOutput, InferOutputView, RawOutput,
    ServeErr, ServeFault, WorkerAnswer,
};
use vstd::prelude::*;

verus! {

/// Whether the names of the inputs are those of the signature, in any order, and none
/// is empty.
pub open spec fn names_fit(inputs: Seq<InferInputView>, specs: Seq<TensorSpecView>) -> bool {
    &&& forall|i: int| 0 <= i < inputs.len() ==> (#[trigger] inputs[i]).name.len() > 0
    &&& Seq::new(inputs.len(), |i: int| inputs[i].name).to_multiset() == Seq::new(
        specs.len(),
        |i: int| specs[i].name,
    ).to_multiset()
}

proof fn fitting_names_are_matched(inputs: Seq<InferInputView>, specs: Seq<TensorSpecView>)
    ensures
        input_names(inputs).len() == inputs.len(),
        spec_names(specs).len() == specs.len(),
        forall|i: int|
            0 <= i < inputs.len() ==> #[trigger] input_names(inputs)[i] == inputs[i].name,
        forall|i: int| 0 <= i < specs.len() ==> #[trigger] spec_names(specs)[i] == specs[i].name,
        specs.len() > 0 ==> (names_fit(inputs, specs) <==> matched_by_name(inputs, specs)),
{
    assert(Seq::new(inputs.len(), |i: int| inputs[i].name) =~= input_names(inputs));
    assert(Seq::new(specs.len(), |i: int| specs[i].name) =~= spec_names(specs));
}

/// Where the names of the inputs are those of the signature, each in any place, the
/// input that is run at place `k` carries the name that the signature has there.
/// Otherwise the inputs are run in the order of the request.
pub proof fn accepted_inputs_stand_where_the_model_takes_them(
    model_name: Seq<char>,
    specs: Seq<TensorSpecView>,
    name: Seq<char>,
    inputs: Seq<InferInputView>,
)
    ensures
        accepted_inputs(model_name, specs, name, inputs) matches Ok(v) ==> {
            &&& v.len() == specs.len()
            &&& names_fit(inputs, specs) ==> forall|k: int|
                0 <= k < specs.len() ==> (#[trigger] v[k]).name == specs[k].name
            &&& !names_fit(inputs, specs) ==> v == inputs
        },
{
    if let Ok(v) = accepted_inputs(model_name, specs, name, inputs) {
        fitting_names_are_matched(inputs, specs);
        arranging_keeps_every_input(inputs, specs);
        if names_fit(inputs, specs) {
            named_inputs_follow_the_signature(inputs, specs);
            fitting_names_are_matched(v, specs);
            assert forall|k: int| 0 <= k < specs.len() implies (#[trigger] v[k]).name
                == specs[k].name by {
                assert(input_names(v)[k] == v[k].name);
                assert(spec_names(specs)[k] == specs[k].name);
            }
        }
    }
}

/// The inputs that are run are those of the request, whole and each as often as
/// sent, and inputs of one name come in the order of the request.
pub proof fn accepted_inputs_are_those_of_the_request(
    model_name: Seq<char>,
    specs: Seq<TensorSpecView>,
    name: Seq<char>,
    inputs: Seq<InferInputView>,
    w: Seq<char>,
)
    ensures
        accepted_inputs(model_name, specs, name, inputs) matches Ok(v) ==> {
            &&& v.to_multiset() == inputs.to_multiset()
            &&& v.filter(|i: InferInputView| i.name == w) == inputs.filter(
                |i: InferInputView| i.name == w,
            )
        },
{
    arranging_keeps_every_input(inputs, specs);
    inputs_of_one_name_keep_their_order(inputs, specs, w);
    assert(named(w) =~= |i: InferInputView| i.name == w);
}

/// A request is accepted exactly if it asks for this model, has as many inputs as the
/// signature and at least one, and every input's shape fits its data.
pub proof fn requests_are_accepted_if_they_fit(
    model_name: Seq<char>,
    specs: Seq<TensorSpecView>,
    name: Seq<char>,
    inputs: Seq<InferInputView>,
)
    ensures
        accepted_inputs(model_name, specs, name, inputs) is Ok <==> name == model_name
            && inputs.len() > 0 && inputs.len() == specs.len() && forall|i: int|
            0 <= i < inputs.len() ==> shape_fault(
                0,
                (#[trigger] inputs[i]).shape,
                inputs[i].data.count(),
            ) is None,
{
    if name == model_name && inputs.len() > 0 && inputs.len() == specs.len() {
        let v = arranged(inputs, specs);
        arranging_keeps_every_input(inputs, specs);
        faultless(v, v.len());
        if first_shape_fault(v, v.len()) is None {
            assert forall|i: int| 0 <= i < inputs.len() implies shape_fault(
                0,
                (#[trigger] inputs[i]).shape,
                inputs[i].data.count(),
            ) is None by {
                let j = found(inputs, v, i);
                shapes_are_accepted_by_their_product(j as nat, v[j].shape, v[j].data.count());
                shapes_are_accepted_by_their_product(0, v[j].shape, v[j].data.count());
            }
        }
        if forall|i: int|
            0 <= i < inputs.len() ==> shape_fault(
                0,
                (#[trigger] inputs[i]).shape,
                inputs[i].data.count(),
            ) is None {
            assert forall|j: int| 0 <= j < v.len() implies shape_fault(
                j as nat,
                (#[trigger] v[j]).shape,
                v[j].data.count(),
            ) is None by {
                let i = found(v, inputs, j);
                assert(shape_fault(0, inputs[i].shape, inputs[i].data.count()) is None);
                shapes_are_accepted_by_their_product(j as nat, v[j].shape, v[j].data.count());
                shapes_are_accepted_by_their_product(0, v[j].shape, v[j].data.count());
            }
        }
    }
}

proof fn found(a: Seq<InferInputView>, b: Seq<InferInputView>, i: int) -> (j: int)
    requires
        a.to_multiset() == b.to_multiset(),
        0 <= i < a.len(),
    ensures
        0 <= j < b.len(),
        b[j] == a[i],
{
    assert(a.contains(a[i]));
    vstd::seq_lib::to_multiset_contains(a, a[i]);
    vstd::seq_lib::to_multiset_contains(b, a[i]);
    choose|j: int| 0 <= j < b.len() && b[j] == a[i]
}

proof fn faultless(v: Seq<InferInputView>, n: nat)
    requires
        n <= v.len(),
    ensures
        first_shape_fault(v, n) is None <==> forall|j: int|
            0 <= j < n ==> shape_fault(
                j as nat,
                (#[trigger] v[j]).shape,
                v[j].data.count(),
            ) is None,
    decreases n,
{
    if n > 0 {
        faultless(v, (n - 1) as nat);
        assert(v[n - 1] == v[n - 1]);
        if first_shape_fault(v, n) is None {
            assert forall|j: int| 0 <= j < n implies shape_fault(
                j as nat,
                (#[trigger] v[j]).shape,
                v[j].data.count(),
            ) is None by {
                if j < n - 1 {
                    assert(first_shape_fault(v, (n - 1) as nat) is None);
                }
            }
        }
    }
}

/// What a request that is not accepted is told: that the model is unknown, that it
/// has no inputs, that it has the wrong number of them, or what is wrong with the
/// first shape, in the order in which the inputs would be run, that does not fit.
pub proof fn refused_requests_are_told_why(
    model_name: Seq<char>,
    specs: Seq<TensorSpecView>,
    name: Seq<char>,
    inputs: Seq<InferInputView>,
)
    ensures
        ({
            let r = accepted_inputs(model_name, specs, name, inputs);
            let v = arranged(inputs, specs);
            &&& name != model_name ==> r == Err::<Seq<InferInputView>, ServeFault>(
                ServeFault::NotFound("model '"@ + name + "' not found"@),
            )
            &&& name == model_name && inputs.len() == 0 ==> r == Err::<
                Seq<InferInputView>,
                ServeFault,
            >(ServeFault::BadRequest("no input tensors"@))
            &&& name == model_name && inputs.len() > 0 && inputs.len() != specs.len() ==> r
                == Err::<Seq<InferInputView>, ServeFault>(
                ServeFault::BadRequest(
                    "expected "@ + decimal(specs.len() as int) + " input tensor(s), got "@
                        + decimal(inputs.len() as int),
                ),
            )
            &&& name == model_name && inputs.len() > 0 && inputs.len() == specs.len() && r is Err
                ==> exists|j: int|
                0 <= j < v.len() && r == Err::<Seq<InferInputView>, ServeFault>(
                    ServeFault::BadRequest(
                        #[trigger] shape_fault(j as nat, v[j].shape, v[j].data.count())->0,
                    ),
                ) && shape_fault(j as nat, v[j].shape, v[j].data.count()) is Some && forall|k: int|
                    0 <= k < j ==> shape_fault(
                        k as nat,
                        (#[trigger] v[k]).shape,
                        v[k].data.count(),
                    ) is None
        }),
{
    let v = arranged(inputs, specs);
    if first_shape_fault(v, v.len()) is Some {
        let j = faulty(v, v.len());
    }
}

proof fn faulty(v: Seq<InferInputView>, n: nat) -> (j: int)
    requires
        n <= v.len(),
        first_shape_fault(v, n) is Some,
    ensures
        0 <= j < n,
        first_shape_fault(v, n) == shape_fault(j as nat, v[j].shape, v[j].data.count()),
        forall|k: int|
            0 <= k < j ==> shape_fault(
                k as nat,
                (#[trigger] v[k]).shape,
                v[k].data.count(),
            ) is None,
    decreases n,
{
    if first_shape_fault(v, (n - 1) as nat) is Some {
        faulty(v, (n - 1) as nat)
    } else {
        faultless(v, (n - 1) as nat);
        n - 1
    }
}

/// The order in which inputs are run: by the names of the signature where the names
/// fit, and as they come otherwise.
pub proof fn inputs_are_run_in_this_order(inputs: Seq<InferInputView>, specs: Seq<TensorSpecView>)
    requires
        inputs.len() == specs.len(),
    ensures
        arranged(inputs, specs).len() == inputs.len(),
        arranged(inputs, specs).to_multiset() == inputs.to_multiset(),
        names_fit(inputs, specs) ==> forall|k: int|
            0 <= k < specs.len() ==> (#[trigger] arranged(inputs, specs)[k]).name == specs[k].name,
        !names_fit(inputs, specs) ==> arranged(inputs, specs) == inputs,
{
    arranging_keeps_every_input(inputs, specs);
    fitting_names_are_matched(inputs, specs);
    let v = arranged(inputs, specs);
    if names_fit(inputs, specs) && specs.len() > 0 {
        named_inputs_follow_the_signature(inputs, specs);
        fitting_names_are_matched(v, specs);
        assert forall|k: int| 0 <= k < specs.len() implies (#[trigger] v[k]).name
            == specs[k].name by {
            assert(input_names(v)[k] == v[k].name);
            assert(spec_names(specs)[k] == specs[k].name);
        }
    }
    if specs.len() == 0 {
        assert(v =~= inputs);
    }
}

/// A REST request decodes exactly if each of its inputs does. Input `i` then keeps its
/// name and its shape, and has the data that its own data field gives.
pub proof fn rest_requests_decode_input_by_input(inputs: Seq<RequestInputView>)
    ensures
        decoded_request(inputs) is Ok <==> forall|i: int|
            0 <= i < inputs.len() ==> decoded_json(
                (#[trigger] inputs[i]).data,
                inputs[i].datatype,
            ) is Ok,
        decoded_request(inputs) matches Ok(v) ==> v.len() == inputs.len() && forall|i: int|
            0 <= i < inputs.len() ==> (#[trigger] v[i]).name == inputs[i].name && v[i].shape
                == inputs[i].shape && decoded_json(inputs[i].data, inputs[i].datatype) == Ok::<
                crate::protocol::TensorView,
                Seq<char>,
            >(v[i].data),
    decreases inputs.len(),
{
    if inputs.len() > 0 {
        let rest = inputs.drop_last();
        let last = inputs.last();
        rest_requests_decode_input_by_input(rest);
        assert(inputs[inputs.len() - 1] == last);
        assert(forall|i: int| 0 <= i < rest.len() ==> rest[i] == inputs[i]);
        if decoded_request(rest) is Err {
            let i = choose|i: int|
                0 <= i < rest.len() && !(decoded_json(
                    (#[trigger] rest[i]).data,
                    rest[i].datatype,
                ) is Ok);
            assert(!(decoded_json(inputs[i].data, inputs[i].datatype) is Ok));
        } else if decoded_json(last.data, last.datatype) is Ok {
            assert forall|i: int| 0 <= i < inputs.len() implies decoded_json(
                (#[trigger] inputs[i]).data,
                inputs[i].datatype,
            ) is Ok by {
                if i < rest.len() {
                    assert(rest[i] == inputs[i]);
                }
            }
        }
    }
}

/// A REST request that does not decode is told what its first such input gives.
pub proof fn rest_complaints_are_those_of_the_first_input(
    inputs: Seq<RequestInputView>,
    k: int,
    m: Seq<char>,
)
    requires
        0 <= k < inputs.len(),
        forall|i: int|
            0 <= i < k ==> decoded_json((#[trigger] inputs[i]).data, inputs[i].datatype) is Ok,
        decoded_json(inputs[k].data, inputs[k].datatype) == Err::<
            crate::protocol::TensorView,
            Seq<char>,
        >(m),
    ensures
        decoded_request(inputs) == Err::<Seq<InferInputView>, Seq<char>>(m),
    decreases inputs.len(),
{
    let rest = inputs.drop_last();
    assert(forall|i: int| 0 <= i < rest.len() ==> rest[i] == inputs[i]);
    if k < rest.len() {
        rest_complaints_are_those_of_the_first_input(rest, k, m);
    } else {
        rest_requests_decode_input_by_input(rest);
        assert forall|i: int| 0 <= i < rest.len() implies decoded_json(
            (#[trigger] rest[i]).data,
            rest[i].datatype,
        ) is Ok by {
            assert(rest[i] == inputs[i]);
        }
    }
}

/// The raw bytes of input `i` of a gRPC request: its entry of the raw contents where
/// the request has any.
pub open spec fn raw_of(raw_contents: Seq<Seq<u8>>, i: int) -> Option<Seq<u8>> {
    if raw_contents.len() == 0 {
        None
    } else {
        Some(raw_contents[i])
    }
}

/// A gRPC request decodes exactly if its raw contents, where it has any, cover its
/// inputs and each of the inputs decodes. Input `i` then keeps its name and its shape,
/// has the declared data type, and the data of its own raw bytes or typed contents.
pub proof fn grpc_requests_decode_input_by_input(
    inputs: Seq<InferInputTensorView>,
    raw_contents: Seq<Seq<u8>>,
)
    ensures
        decoded_tensors(inputs, raw_contents) is Ok <==> (raw_contents.len() == 0
            || raw_contents.len() >= inputs.len()) && forall|i: int|
            0 <= i < inputs.len() ==> decoded_grpc(
                (#[trigger] inputs[i]).datatype,
                inputs[i].contents,
                raw_of(raw_contents, i),
            ) is Ok,
        decoded_tensors(inputs, raw_contents) matches Ok(v) ==> v.len() == inputs.len() && forall|
            i: int,
        |
            0 <= i < inputs.len() ==> (#[trigger] v[i]).name == inputs[i].name && v[i].shape
                == inputs[i].shape && v2_datatype(inputs[i].datatype) == Some(
                v[i].data.datatype(),
            ) && decoded_grpc(
                inputs[i].datatype,
                inputs[i].contents,
                raw_of(raw_contents, i),
            ) == Ok::<crate::protocol::TensorView, Seq<char>>(v[i].data),
    decreases inputs.len(),
{
    if inputs.len() > 0 {
        let rest = inputs.drop_last();
        let n = inputs.len() - 1;
        grpc_requests_decode_input_by_input(rest, raw_contents);
        assert(inputs[n] == inputs.last());
        assert(forall|i: int| 0 <= i < rest.len() ==> rest[i] == inputs[i]);
        if decoded_tensors(rest, raw_contents) is Err {
            if raw_contents.len() == 0 || raw_contents.len() >= rest.len() {
                let i = choose|i: int|
                    0 <= i < rest.len() && !(decoded_grpc(
                        (#[trigger] rest[i]).datatype,
                        rest[i].contents,
                        raw_of(raw_contents, i),
                    ) is Ok);
                assert(!(decoded_grpc(
                    inputs[i].datatype,
                    inputs[i].contents,
                    raw_of(raw_contents, i),
                ) is Ok));
            }
        } else if decoded_tensors(inputs, raw_contents) is Ok {
            assert forall|i: int| 0 <= i < inputs.len() implies decoded_grpc(
                (#[trigger] inputs[i]).datatype,
                inputs[i].contents,
                raw_of(raw_contents, i),
            ) is Ok by {
                if i < rest.len() {
                    assert(rest[i] == inputs[i]);
                }
            }
        }
    }
}

/// A gRPC request that does not decode is told of its first such input: that its raw
/// bytes are missing, or its place and what is wrong with it.
pub proof fn grpc_complaints_are_those_of_the_first_input(
    inputs: Seq<InferInputTensorView>,
    raw_contents: Seq<Seq<u8>>,
    k: int,
    m: Seq<char>,
)
    requires
        0 <= k < inputs.len(),
        raw_contents.len() == 0 || k <= raw_contents.len(),
        forall|i: int|
            0 <= i < k ==> decoded_grpc(
                (#[trigger] inputs[i]).datatype,
                inputs[i].contents,
                raw_of(raw_contents, i),
            ) is Ok,
    ensures
        raw_contents.len() > 0 && k == raw_contents.len() ==> decoded_tensors(inputs, raw_contents)
            == Err::<Seq<InferInputView>, Seq<char>>("raw_input_contents incomplete"@),
        (raw_contents.len() == 0 || k < raw_contents.len()) && decoded_grpc(
            inputs[k].datatype,
            inputs[k].contents,
            raw_of(raw_contents, k),
        ) == Err::<crate::protocol::TensorView, Seq<char>>(m) ==> decoded_tensors(
            inputs,
            raw_contents,
        ) == Err::<Seq<InferInputView>, Seq<char>>("input["@ + decimal(k) + "]: "@ + m),
    decreases inputs.len(),
{
    let rest = inputs.drop_last();
    assert(forall|i: int| 0 <= i < rest.len() ==> rest[i] == inputs[i]);
    if k < rest.len() {
        grpc_complaints_are_those_of_the_first_input(rest, raw_contents, k, m);
    } else {
        grpc_requests_decode_input_by_input(rest, raw_contents);
        assert forall|i: int| 0 <= i < rest.len() implies decoded_grpc(
            (#[trigger] rest[i]).datatype,
            rest[i].contents,
            raw_of(raw_contents, i),
        ) is Ok by {
            assert(rest[i] == inputs[i]);
        }
    }
}

/// A REST response tells of every output of the run, in order: with its name, its
/// shape, its data type and the JSON form of its elements. Where the shape of the
/// output multiplies to its elements, that of the response multiplies to its entries.
pub proof fn rest_responses_tell_of_every_output(
    model_name: Seq<char>,
    id: Seq<char>,
    outs: Seq<InferOutputView>,
    inference_time_ms: u64,
    k: int,
)
    ensures
        ({
            let r = rest_response(model_name, id, outs, inference_time_ms);
            &&& r.model_name == model_name
            &&& r.model_version == "1"@
            &&& r.id == id
            &&& r.parameters.inference_time_ms == inference_time_ms
            &&& r.outputs.len() == outs.len()
            &&& 0 <= k < outs.len() ==> {
                &&& r.outputs[k].name == outs[k].name
                &&& r.outputs[k].shape == outs[k].shape
                &&& r.outputs[k].datatype == outs[k].datatype
                &&& r.outputs[k].data == json_entries(outs[k].data)
                &&& r.outputs[k].data.len() == outs[k].data.count()
                &&& product(outs[k].shape) == outs[k].data.count() ==> product(
                    r.outputs[k].shape,
                ) == r.outputs[k].data.len()
            }
        }),
{
}

/// A gRPC response tells of every output of the run, in order: with its name, its
/// shape, its data type and its elements in typed contents.
pub proof fn grpc_responses_tell_of_every_output(
    model_name: Seq<char>,
    id: Seq<char>,
    outs: Seq<InferOutputView>,
    k: int,
)
    ensures
        ({
            let r = grpc_response(model_name, id, outs);
            &&& r.model_name == model_name
            &&& r.model_version == "1"@
            &&& r.id == id
            &&& r.outputs.len() == outs.len()
            &&& 0 <= k < outs.len() ==> {
                &&& r.outputs[k].name == outs[k].name
                &&& r.outputs[k].shape == outs[k].shape
                &&& r.outputs[k].datatype == outs[k].datatype
                &&& r.outputs[k].contents == contents_of(outs[k].data)
            }
        }),
{
}

/// Output `k` of a run keeps its shape and its elements, carries the v2 name of their
/// type, and is called as the signature calls it, or by its place beyond the
/// signature.
pub proof fn outputs_are_kept_and_named(
    outputs: Seq<TensorSpecView>,
    raw: Seq<RawOutput>,
    k: int,
)
    requires
        0 <= k < raw.len(),
    ensures
        named_outputs(outputs, raw).len() == raw.len(),
        ({
            let o = named_outputs(outputs, raw)[k];
            &&& o.shape == raw[k].shape@
            &&& o.data == raw[k].data@
            &&& o.datatype == v2_name(raw[k].data@.datatype())
            &&& k < outputs.len() ==> o.name == outputs[k].name
            &&& k >= outputs.len() ==> o.name == "output_"@ + decimal(k)
        }),
{
}

/// DLPack names a type by its kind, 0 for signed, 1 for unsigned and 2 for
/// floating-point numbers, and by its width in bits.
pub proof fn dlpack_types_have_a_kind_and_a_width(code: u8, bits: u8)
    ensures
        dlpack_datatype(code, bits) == Some(Datatype::Int8) <==> code == 0 && bits == 8,
        dlpack_datatype(code, bits) == Some(Datatype::Int16) <==> code == 0 && bits == 16,
        dlpack_datatype(code, bits) == Some(Datatype::Int32) <==> code == 0 && bits == 32,
        dlpack_datatype(code, bits) == Some(Datatype::Int64) <==> code == 0 && bits == 64,
        dlpack_datatype(code, bits) == Some(Datatype::Uint8) <==> code == 1 && bits == 8,
        dlpack_datatype(code, bits) == Some(Datatype::Uint16) <==> code == 1 && bits == 16,
        dlpack_datatype(code, bits) == Some(Datatype::Uint32) <==> code == 1 && bits == 32,
        dlpack_datatype(code, bits) == Some(Datatype::Uint64) <==> code == 1 && bits == 64,
        dlpack_datatype(code, bits) == Some(Datatype::Fp32) <==> code == 2 && bits == 32,
        dlpack_datatype(code, bits) == Some(Datatype::Fp64) <==> code == 2 && bits == 64,
{
}

/// The end of a run: its outputs where it gave any, and otherwise a fault of the
/// server that says what happened.
pub proof fn runs_end_in_outputs_or_a_server_fault(a: WorkerAnswer)
    ensures
        a matches WorkerAnswer::Done(v) ==> run_outcome(a) == Ok::<
            Seq<InferOutputView>,
            ServeFault,
        >(output_views(v@)),
        a matches WorkerAnswer::Failed(m) ==> run_outcome(a) == Err::<
            Seq<InferOutputView>,
            ServeFault,
        >(ServeFault::Internal(m@)),
        a is Unavailable ==> run_outcome(a) == Err::<Seq<InferOutputView>, ServeFault>(
            ServeFault::Internal("worker unavailable"@),
        ),
        a is Lost ==> run_outcome(a) == Err::<Seq<InferOutputView>, ServeFault>(
            ServeFault::Internal("worker terminated without reply"@),
        ),
{
}

/// The status of a fault: an unknown model is not found, a bad request is the
/// client's fault, and the rest is the server's. The text is that of the fault.
pub proof fn faults_have_these_statuses(m: Seq<char>, s: HttpStatus)
    ensures
        http_answer(ServeFault::NotFound(m)) == (HttpStatus::NotFound, m),
        http_answer(ServeFault::BadRequest(m)) == (HttpStatus::BadRequest, m),
        http_answer(ServeFault::Internal(m)) == (HttpStatus::InternalServerError, m),
        grpc_answer(ServeFault::NotFound(m)) == (GrpcCode::NotFound, m),
        grpc_answer(ServeFault::BadRequest(m)) == (GrpcCode::InvalidArgument, m),
        grpc_answer(ServeFault::Internal(m)) == (GrpcCode::Internal, m),
        s is Success <==> s.number() == 200,
        s is BadRequest <==> s.number() == 400,
        s is NotFound <==> s.number() == 404,
        s is InternalServerError <==> s.number() == 500,
{
}

/// A REST request: what cannot be decoded is a bad request, whatever model it asks
/// for; what can is answered as its decoded inputs are.
pub proof fn rest_requests_are_decoded_first(
    model_name: Seq<char>,
    specs: Seq<TensorSpecView>,
    name: Seq<char>,
    inputs: Seq<RequestInputView>,
)
    ensures
        ({
            let r = rest_accepted(model_name, specs, name, inputs);
            match decoded_request(inputs) {
                Err(m) => r == Err::<Seq<InferInputView>, (HttpStatus, Seq<char>)>(
                    (HttpStatus::BadRequest, m),
                ),
                Ok(v) => match accepted_inputs(model_name, specs, name, v) {
                    Ok(job) => r == Ok::<Seq<InferInputView>, (HttpStatus, Seq<char>)>(job),
                    Err(f) => r == Err::<Seq<InferInputView>, (HttpStatus, Seq<char>)>(
                        http_answer(f),
                    ),
                },
            }
        }),
{
}

/// A gRPC request: what cannot be decoded is an invalid argument, whatever model it
/// asks for; what can is answered as its decoded inputs are.
pub proof fn grpc_requests_are_decoded_first(
    model_name: Seq<char>,
    specs: Seq<TensorSpecView>,
    name: Seq<char>,
    inputs: Seq<InferInputTensorView>,
    raw_contents: Seq<Seq<u8>>,
)
    ensures
        ({
            let r = grpc_accepted(model_name, specs, name, inputs, raw_contents);
            match decoded_tensors(inputs, raw_contents) {
                Err(m) => r == Err::<Seq<InferInputView>, (GrpcCode, Seq<char>)>(
                    (GrpcCode::InvalidArgument, m),
                ),
                Ok(v) => match accepted_inputs(model_name, specs, name, v) {
                    Ok(job) => r == Ok::<Seq<InferInputView>, (GrpcCode, Seq<char>)>(job),
                    Err(f) => r == Err::<Seq<InferInputView>, (GrpcCode, Seq<char>)>(
                        grpc_answer(f),
                    ),
                },
            }
        }),
{
}

/// A request is answered with a response exactly if its run gave outputs, and the
/// response tells of them; otherwise it is answered with the fault.
pub proof fn finished_runs_are_answered_with_their_outputs(
    model_name: Seq<char>,
    id: Seq<char>,
    answer: WorkerAnswer,
    inference_time_ms: u64,
)
    ensures
        match run_outcome(answer) {
            Ok(outs) => rest_answered(model_name, id, answer, inference_time_ms) == Ok::<
                crate::protocol::InferResponseView,
                (HttpStatus, Seq<char>),
            >(rest_response(model_name, id, outs, inference_time_ms)) && grpc_answered(
                model_name,
                id,
                answer,
            ) == Ok::<crate::grpc::ModelInferResponseView, (GrpcCode, Seq<char>)>(
                grpc_response(model_name, id, outs),
            ),
            Err(f) => rest_answered(model_name, id, answer, inference_time_ms) == Err::<
                crate::protocol::InferResponseView,
                (HttpStatus, Seq<char>),
            >(http_answer(f)) && grpc_answered(model_name, id, answer) == Err::<
                crate::grpc::ModelInferResponseView,
                (GrpcCode, Seq<char>),
            >(grpc_answer(f)),
        },
{
}

/// The contents of the inputs and outputs of a run are their fields.
pub proof fn run_contents_are_the_fields(
    i: InferInput,
    inputs: Seq<InferInput>,
    o: InferOutput,
    outputs: Seq<InferOutput>,
    e: ServeErr,
)
    ensures
        i@.name == i.name@,
        i@.shape == i.shape@,
        i@.data == i.data@,
        input_views(inputs).len() == inputs.len(),
        forall|k: int| 0 <= k < inputs.len() ==> #[trigger] input_views(inputs)[k] == inputs[k]@,
        o@.name == o.name@,
        o@.shape == o.shape@,
        o@.datatype == o.datatype@,
        o@.data == o.data@,
        output_views(outputs).len() == outputs.len(),
        forall|k: int| 0 <= k < outputs.len() ==> #[trigger] output_views(outputs)[k] == outputs[k]@,
        e matches ServeErr::NotFound(m) ==> e@ == ServeFault::NotFound(m@),
        e matches ServeErr::BadRequest(m) ==> e@ == ServeFault::BadRequest(m@),
        e matches ServeErr::Internal(m) ==> e@ == ServeFault::Internal(m@),
{
}

/// The contents of the REST messages are their fields.
pub proof fn rest_contents_are_the_fields(
    i: RequestInput,
    inputs: Seq<RequestInput>,
    o: ResponseOutput,
    r: InferResponse,
)
    ensures
        i@.name == i.name@,
        i@.shape == i.shape@,
        i@.datatype == i.datatype@,
        i@.data == json_view(i.data),
        request_views(inputs).len() == inputs.len(),
        forall|k: int| 0 <= k < inputs.len() ==> #[trigger] request_views(inputs)[k] == inputs[k]@,
        o@.name == o.name@,
        o@.shape == o.shape@,
        o@.datatype == o.datatype@,
        o@.data == o.data@,
        r@.model_name == r.model_name@,
        r@.model_version == r.model_version@,
        r@.id == r.id@,
        r@.parameters == r.parameters,
        r@.outputs.len() == r.outputs@.len(),
        forall|k: int|
            0 <= k < r.outputs@.len() ==> #[trigger] r@.outputs[k] == r.outputs@[k]@,
{
}

/// The contents of the gRPC messages are their fields.
pub proof fn grpc_contents_are_the_fields(
    i: InferInputTensor,
    inputs: Seq<InferInputTensor>,
    raw: Seq<Vec<u8>>,
    o: InferOutputTensor,
    r: ModelInferResponse,
)
    ensures
        i@.name == i.name@,
        i@.datatype == i.datatype@,
        i@.shape == i.shape@,
        i.contents is None <==> i@.contents is None,
        i.contents matches Some(c) ==> i@.contents == Some(c@),
        tensor_views(inputs).len() == inputs.len(),
        forall|k: int| 0 <= k < inputs.len() ==> #[trigger] tensor_views(inputs)[k] == inputs[k]@,
        raw_views(raw).len() == raw.len(),
        forall|k: int| 0 <= k < raw.len() ==> #[trigger] raw_views(raw)[k] == raw[k]@,
        o@.name == o.name@,
        o@.datatype == o.datatype@,
        o@.shape == o.shape@,
        o@.contents == o.contents@,
        r@.model_name == r.model_name@,
        r@.model_version == r.model_version@,
        r@.id == r.id@,
        r@.outputs.len() == r.outputs@.len(),
        forall|k: int|
            0 <= k < r.outputs@.len() ==> #[trigger] r@.outputs[k] == r.outputs@[k]@,
{
}

} // verus!
