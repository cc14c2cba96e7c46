//! Laws of the settings, of the names of files and threads, and of the fixed answers.
use crate::grpc::model_metadata as grpc_model_metadata;
use crate::grpc::model_ready as grpc_model_ready;
use crate::grpc::{model_message, GrpcCode};
use crate::laws::text::{is_number, place_value, settings_are_decimal_numbers};
use crate::protocol::{server_metadata, Datatype, ModelMetadata, ServerMetadata};
use crate::relax::{default_dtype, Error};
use crate::rest::model_metadata as rest_model_metadata;
use crate::rest::model_ready as rest_model_ready;
use crate::rest::{env_u16, env_usize, published_model, HttpStatus};
use crate::startup::{
    library_path, metadata_path, worker_name, Warmup, };
use crate::text::decimal;
use crate::worker::{dlpack_datatype, output_datatype, Handle};
use vstd::prelude::*;

verus! {

/// A port: the number that is set, if it is a plain decimal one of 16 bits, and the
/// default otherwise.
pub proof fn ports_are_set_or_default(s: &str, default: u16, set: u16, unset: u16)
    requires
        call_ensures(env_u16, (Some(s), default), set),
        call_ensures(env_u16, (None, default), unset),
    ensures
        unset == default,
        is_number(s@) && place_value(s@) <= u16::MAX ==> set == place_value(s@),
        is_number(s@) && place_value(s@) > u16::MAX ==> set == default,
        !is_number(s@) && !(s@.len() > 0 && s@[0] == '+' && is_number(s@.skip(1))) ==> set
            == default,
{
    settings_are_decimal_numbers(s@, u16::MAX as nat);
}

/// A number of workers: the number that is set, if it is a plain decimal one and not
/// zero, and the default otherwise.
pub proof fn workers_are_set_or_default(s: &str, default: usize, set: usize, unset: usize)
    requires
        call_ensures(env_usize, (Some(s), default), set),
        call_ensures(env_usize, (None, default), unset),
    ensures
        unset == default,
        is_number(s@) && 1 <= place_value(s@) <= usize::MAX ==> set == place_value(s@),
        is_number(s@) && (place_value(s@) == 0 || place_value(s@) > usize::MAX) ==> set == default,
        !is_number(s@) && !(s@.len() > 0 && s@[0] == '+' && is_number(s@.skip(1))) ==> set
            == default,
        default >= 1 ==> set >= 1,
{
    settings_are_decimal_numbers(s@, usize::MAX as nat);
}

/// The files of a model stand in its directory, and a worker's thread is numbered.
pub proof fn files_and_threads_are_named(
    dir: &str,
    metadata: String,
    library: String,
    index: usize,
    thread: String,
)
    requires
        call_ensures(metadata_path, (dir,), metadata),
        call_ensures(library_path, (dir,), library),
        call_ensures(worker_name, (index,), thread),
    ensures
        metadata@ == dir@ + "/metadata.json"@,
        library@ == dir@ + "/model.so"@,
        thread@ == "tvm-infer-"@ + decimal(index as int),
{
}

/// The fixed texts: the data type of a tensor that declares none, the description of
/// the server, and the front of a runtime error.
pub proof fn fixed_texts(dtype: String, server: ServerMetadata, e: &Error, text: String)
    requires
        call_ensures(default_dtype, (), dtype),
        call_ensures(server_metadata, (), server),
        call_ensures(Error::message, (e,), text),
    ensures
        dtype@ == "float32"@,
        server.name@ == "tvm-serve"@,
        server.version@ == "2"@,
        server.extensions@.len() == 0,
        e matches Error::Tvm(m) && text@ == "tvm-ffi: "@ + m@,
{
    assert(server@.extensions.len() == server.extensions@.len());
}

/// The model is ready, and described, under its own name and no other.
pub proof fn the_model_answers_to_its_name(
    handle: &Handle,
    name: &str,
    rest_ready: HttpStatus,
    grpc_ready: bool,
    rest: Result<ModelMetadata, HttpStatus>,
    grpc: Result<ModelMetadata, (GrpcCode, String)>,
)
    requires
        call_ensures(rest_model_ready, (handle, name), rest_ready),
        call_ensures(grpc_model_ready, (handle, name), grpc_ready),
        call_ensures(rest_model_metadata, (handle, name), rest),
        call_ensures(grpc_model_metadata, (handle, name), grpc),
    ensures
        name@ == handle.model_name@ ==> {
            &&& rest_ready == HttpStatus::Success
            &&& grpc_ready
            &&& rest matches Ok(m) && m@ == published_model(handle.model_name@, handle.metadata@)
            &&& grpc matches Ok(m) && m@ == model_message(handle.model_name@, handle.metadata@)
        },
        name@ != handle.model_name@ ==> {
            &&& rest_ready == HttpStatus::NotFound
            &&& !grpc_ready
            &&& rest matches Err(s) && s == HttpStatus::NotFound
            &&& grpc matches Err(e) && e.0 == GrpcCode::NotFound && e.1@ == "model '"@ + name@
                + "' not found"@
        },
{
}

/// An output of a type that cannot be served is refused by its kind and width.
pub proof fn other_output_types_are_refused(code: u8, bits: u8, r: Result<Datatype, String>)
    requires
        call_ensures(output_datatype, (code, bits), r),
    ensures
        dlpack_datatype(code, bits) matches Some(d) ==> r == Ok::<Datatype, String>(d),
        dlpack_datatype(code, bits) is None ==> (r matches Err(m) && m@
            == "unsupported output dtype (code="@ + decimal(code as int) + " bits="@ + decimal(
            bits as int,
        ) + "); FP16/others deferred"@),
{
}

/// A pool starts with as many workers as asked for, but with one at least, and with
/// none of them loaded.
pub proof fn pools_start_with_a_worker(workers: usize, pool: Warmup, n: usize)
    requires
        call_ensures(Warmup::new, (workers,), pool),
        call_ensures(Warmup::pool_size, (&pool,), n),
    ensures
        workers > 0 ==> n == workers,
        workers == 0 ==> n == 1,
        pool.workers() == n,
        pool.loaded() == 0,
{
}

} // verus!
