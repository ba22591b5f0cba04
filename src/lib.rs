//! The core of a gateway that carries client sessions to a trusted
//! application: the wire format of its messages, the framing of a byte
//! stream, and the dispatcher's session table.
use vstd::prelude::*;

pub mod codec;
pub mod framing;
pub mod protocol;
pub mod session;

pub use codec::{
    decode_register, decode_request, decode_response, encode_register, encode_request,
    encode_response, DecodeError,
};
pub use framing::{frame_message, FrameReader};
pub use protocol::{
    CARequest, CAResponse, ParamType, Parameter, Parameters, TARequest, TEEParam, Value,
};
pub use session::{invoke_response, status_of, SessionTable, Step};

verus! {

} // verus!
