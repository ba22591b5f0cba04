use vstd::prelude::*;

verus! {

/// A pair of 32-bit words carried by a value parameter.
#[derive(Clone, Copy, Debug, PartialEq, Eq, Structural)]
pub struct Value {
    pub a: u32,
    pub b: u32,
}

/// The kind of a parameter slot, following the four-argument calling
/// convention of a trusted execution environment.
#[derive(Clone, Copy, Debug, PartialEq, Eq, Structural)]
pub enum ParamType {
    Empty,
    ValueInput,
    ValueOutput,
    ValueInout,
    MemrefInput,
    MemrefOutput,
    MemrefInout,
}

/// The numeric tag of each parameter kind on the wire.
pub open spec fn param_type_code(t: ParamType) -> u32 {
    match t {
        ParamType::Empty => 0,
        ParamType::ValueInput => 1,
        ParamType::ValueOutput => 2,
        ParamType::ValueInout => 3,
        ParamType::MemrefInput => 5,
        ParamType::MemrefOutput => 6,
        ParamType::MemrefInout => 7,
    }
}

/// The parameter kind that a numeric tag stands for; an unknown tag is read
/// as `Empty`.
pub open spec fn param_type_of(code: u32) -> ParamType {
    if code == 1 {
        ParamType::ValueInput
    } else if code == 2 {
        ParamType::ValueOutput
    } else if code == 3 {
        ParamType::ValueInout
    } else if code == 5 {
        ParamType::MemrefInput
    } else if code == 6 {
        ParamType::MemrefOutput
    } else if code == 7 {
        ParamType::MemrefInout
    } else {
        ParamType::Empty
    }
}

impl ParamType {
    /// The numeric tag of this kind.
    pub fn code(&self) -> (r: u32)
        ensures
            r == param_type_code(*self),
    {
        match self {
            ParamType::Empty => 0,
            ParamType::ValueInput => 1,
            ParamType::ValueOutput => 2,
            ParamType::ValueInout => 3,
            ParamType::MemrefInput => 5,
            ParamType::MemrefOutput => 6,
            ParamType::MemrefInout => 7,
        }
    }
}

impl From<u32> for ParamType {
    fn from(value: u32) -> (r: ParamType) {
        match value {
            0 => ParamType::Empty,
            1 => ParamType::ValueInput,
            2 => ParamType::ValueOutput,
            3 => ParamType::ValueInout,
            5 => ParamType::MemrefInput,
            6 => ParamType::MemrefOutput,
            7 => ParamType::MemrefInout,
            _ => ParamType::Empty,
        }
    }
}

impl vstd::std_specs::convert::FromSpecImpl<u32> for ParamType {
    open spec fn obeys_from_spec() -> bool {
        true
    }

    open spec fn from_spec(v: u32) -> ParamType {
        param_type_of(v)
    }
}

/// The raw payload of a slot: a byte buffer for memory references and a
/// pair of words for values.
#[derive(Clone, Debug, PartialEq, Eq)]
pub struct TEEParam {
    pub data: Vec<u8>,
    pub value: Value,
}

/// One parameter slot.
#[derive(Clone, Debug, PartialEq, Eq)]
pub struct Parameter {
    pub raw: TEEParam,
    pub param_type: ParamType,
}

/// The contents of a parameter slot as plain values.
pub struct ParamModel {
    pub param_type: ParamType,
    pub value: Value,
    pub data: Seq<u8>,
}

/// The empty slot: kind `Empty`, no bytes, both words zero.
pub open spec fn empty_param() -> ParamModel {
    ParamModel { param_type: ParamType::Empty, value: Value { a: 0, b: 0 }, data: Seq::empty() }
}

impl View for Parameter {
    type V = ParamModel;

    open spec fn view(&self) -> ParamModel {
        ParamModel { param_type: self.param_type, value: self.raw.value, data: self.raw.data@ }
    }
}

impl Parameter {
    /// An empty slot.
    pub fn default() -> (r: Parameter)
        ensures
            r@ == empty_param(),
    {
        let r = Parameter {
            raw: TEEParam { data: Vec::new(), value: Value { a: 0, b: 0 } },
            param_type: ParamType::Empty,
        };
        assert(r@.data =~= Seq::<u8>::empty());
        r
    }
}

/// The four ordered parameter slots of a call.
#[derive(Clone, Debug, PartialEq, Eq)]
pub struct Parameters(pub Parameter, pub Parameter, pub Parameter, pub Parameter);

impl View for Parameters {
    type V = Seq<ParamModel>;

    open spec fn view(&self) -> Seq<ParamModel> {
        seq![self.0@, self.1@, self.2@, self.3@]
    }
}

impl Parameters {
    /// Four empty slots.
    pub fn default() -> (r: Parameters)
        ensures
            r@ == seq![empty_param(), empty_param(), empty_param(), empty_param()],
    {
        Parameters(Parameter::default(), Parameter::default(), Parameter::default(), Parameter::default())
    }
}

/// The message a service sends once to the directory to announce itself.
#[derive(Clone, Debug, PartialEq, Eq)]
pub enum TARequest {
    Register { uuid: String },
}

/// A registration message as plain values.
pub enum TARequestModel {
    Register { uuid: Seq<char> },
}

impl View for TARequest {
    type V = TARequestModel;

    open spec fn view(&self) -> TARequestModel {
        match self {
            TARequest::Register { uuid } => TARequestModel::Register { uuid: uuid@ },
        }
    }
}

/// A request from a client application.
#[derive(Clone, Debug, PartialEq, Eq)]
pub enum CARequest {
    OpenSession { params: Parameters },
    CloseSession { session_id: u32 },
    Destroy,
    InvokeCommand { session_id: u32, cmd_id: u32, params: Parameters },
    RequestCancellation { session_id: u32 },
}

/// A client request as plain values.
pub enum CARequestModel {
    OpenSession { params: Seq<ParamModel> },
    CloseSession { session_id: u32 },
    Destroy,
    InvokeCommand { session_id: u32, cmd_id: u32, params: Seq<ParamModel> },
    RequestCancellation { session_id: u32 },
}

impl View for CARequest {
    type V = CARequestModel;

    open spec fn view(&self) -> CARequestModel {
        match self {
            CARequest::OpenSession { params } => CARequestModel::OpenSession { params: params@ },
            CARequest::CloseSession { session_id } => CARequestModel::CloseSession {
                session_id: *session_id,
            },
            CARequest::Destroy => CARequestModel::Destroy,
            CARequest::InvokeCommand { session_id, cmd_id, params } =>
                CARequestModel::InvokeCommand {
                    session_id: *session_id,
                    cmd_id: *cmd_id,
                    params: params@,
                },
            CARequest::RequestCancellation { session_id } =>
                CARequestModel::RequestCancellation { session_id: *session_id },
        }
    }
}

/// A response to a client application.
#[derive(Clone, Debug, PartialEq, Eq)]
pub enum CAResponse {
    OpenSession { status: u32, session_id: u32 },
    CloseSession { status: u32, session_id: u32 },
    Destroy { status: u32 },
    InvokeCommand { status: u32, session_id: u32, cmd_id: u32, params: Parameters },
    RequestCancellation { status: u32, session_id: u32 },
}

/// A response to a client as plain values.
pub enum CAResponseModel {
    OpenSession { status: u32, session_id: u32 },
    CloseSession { status: u32, session_id: u32 },
    Destroy { status: u32 },
    InvokeCommand { status: u32, session_id: u32, cmd_id: u32, params: Seq<ParamModel> },
    RequestCancellation { status: u32, session_id: u32 },
}

impl View for CAResponse {
    type V = CAResponseModel;

    open spec fn view(&self) -> CAResponseModel {
        match self {
            CAResponse::OpenSession { status, session_id } => CAResponseModel::OpenSession {
                status: *status,
                session_id: *session_id,
            },
            CAResponse::CloseSession { status, session_id } => CAResponseModel::CloseSession {
                status: *status,
                session_id: *session_id,
            },
            CAResponse::Destroy { status } => CAResponseModel::Destroy { status: *status },
            CAResponse::InvokeCommand { status, session_id, cmd_id, params } =>
                CAResponseModel::InvokeCommand {
                    status: *status,
                    session_id: *session_id,
                    cmd_id: *cmd_id,
                    params: params@,
                },
            CAResponse::RequestCancellation { status, session_id } =>
                CAResponseModel::RequestCancellation { status: *status, session_id: *session_id },
        }
    }
}

} // verus!
