//! Open Inference v2 serving logic for compiled TVM models.
pub mod float_bits;
pub mod grpc;
pub mod json;
pub mod laws;
pub mod protocol;
pub mod relax;
pub mod rest;
pub mod startup;
pub mod text;
pub mod worker;
