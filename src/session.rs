//! The dispatcher's decisions: which session a request goes to, which
//! requests are answered at once, and how the session table changes.
//!
//! The table maps each open session id to the handle of the worker that
//! owns the session. The caller runs the side that waits: it asks the
//! service to open a session, forwards commands to a worker's handle and
//! waits for the reply, and then reports back to the table.
use std::collections::HashMap;
use vstd::prelude::*;

use crate::protocol::{CARequest, CARequestModel, CAResponse, CAResponseModel, ParamModel, Parameters};

verus! {

broadcast use vstd::std_specs::hash::group_hash_axioms;

/// Status of a request that names a session which is not open.
pub open spec fn status_item_not_found() -> u32 {
    0xFFFF0008
}

/// Status of a request that the gateway does not carry out.
pub open spec fn status_not_supported() -> u32 {
    0xFFFF000A
}

/// Status of an open request once every session id has been handed out.
pub open spec fn status_overflow() -> u32 {
    0xFFFF300F
}

/// Relies on optee_utee's `ErrorKind::ItemNotFound`: its raw code.
#[verifier::external_body]
fn item_not_found_code() -> (r: u32)
    ensures
        r == status_item_not_found(),
{
    optee_utee::ErrorKind::ItemNotFound as u32
}

/// Relies on optee_utee's `ErrorKind::NotSupported`: its raw code.
#[verifier::external_body]
fn not_supported_code() -> (r: u32)
    ensures
        r == status_not_supported(),
{
    optee_utee::ErrorKind::NotSupported as u32
}

/// Relies on optee_utee's `ErrorKind::Overflow`: its raw code.
#[verifier::external_body]
fn overflow_code() -> (r: u32)
    ensures
        r == status_overflow(),
{
    optee_utee::ErrorKind::Overflow as u32
}

/// What the dispatcher does with one request.
pub enum Step {
    /// Answer at once with this response.
    Reply(CAResponse),
    /// Ask the service to open a session; it gets this id if it opens.
    Open { session_id: u32, params: Parameters },
    /// Forward the command to the worker of this open session.
    Invoke { session_id: u32, cmd_id: u32, params: Parameters },
    /// Ask the worker of this open session to close it.
    Close { session_id: u32 },
    /// Tear the service down and stop serving.
    Destroy,
}

/// A dispatcher step as plain values.
pub enum StepModel {
    Reply(CAResponseModel),
    Open { session_id: u32, params: Seq<ParamModel> },
    Invoke { session_id: u32, cmd_id: u32, params: Seq<ParamModel> },
    Close { session_id: u32 },
    Destroy,
}

impl View for Step {
    type V = StepModel;

    open spec fn view(&self) -> StepModel {
        match self {
            Step::Reply(resp) => StepModel::Reply(resp@),
            Step::Open { session_id, params } => StepModel::Open {
                session_id: *session_id,
                params: params@,
            },
            Step::Invoke { session_id, cmd_id, params } => StepModel::Invoke {
                session_id: *session_id,
                cmd_id: *cmd_id,
                params: params@,
            },
            Step::Close { session_id } => StepModel::Close { session_id: *session_id },
            Step::Destroy => StepModel::Destroy,
        }
    }
}

/// The session table as plain values: the open sessions with their worker
/// handles, and the id the next open request will get.
pub struct TableModel<H> {
    pub sessions: Map<u32, H>,
    pub next_id: nat,
}

impl<H> TableModel<H> {
    /// Ids run from 1 up to the largest 32-bit value, and every open session
    /// has an id that was already handed out.
    pub open spec fn wf(self) -> bool {
        &&& 1 <= self.next_id <= u32::MAX as nat + 1
        &&& forall|id: u32| #[trigger] self.sessions.contains_key(id) ==> 1 <= id < self.next_id
    }

    /// `id` was handed out to an open request whose outcome is not yet in.
    pub open spec fn is_pending(self, id: u32) -> bool {
        1 <= id < self.next_id && !self.sessions.contains_key(id)
    }
}

/// How the dispatcher handles a request: the new table and the step to take.
///
/// Every open request takes the next id, whether the service then opens the
/// session or not. Once every 32-bit id has been handed out, open requests
/// are refused with the overflow status, so an id is never handed out twice.
/// Cancellation is not carried out: it is answered with "not supported".
pub open spec fn dispatch_spec<H>(t: TableModel<H>, req: CARequestModel) -> (
    TableModel<H>,
    StepModel,
) {
    match req {
        CARequestModel::OpenSession { params } => if t.next_id <= u32::MAX {
            (
                TableModel { sessions: t.sessions, next_id: t.next_id + 1 },
                StepModel::Open { session_id: t.next_id as u32, params },
            )
        } else {
            (
                t,
                StepModel::Reply(
                    CAResponseModel::OpenSession { status: status_overflow(), session_id: 0 },
                ),
            )
        },
        CARequestModel::CloseSession { session_id } => if t.sessions.contains_key(session_id) {
            (t, StepModel::Close { session_id })
        } else {
            (
                t,
                StepModel::Reply(
                    CAResponseModel::CloseSession { status: status_item_not_found(), session_id },
                ),
            )
        },
        CARequestModel::Destroy => (t, StepModel::Destroy),
        CARequestModel::InvokeCommand { session_id, cmd_id, params } => if t.sessions.contains_key(
            session_id,
        ) {
            (t, StepModel::Invoke { session_id, cmd_id, params })
        } else {
            (
                t,
                StepModel::Reply(
                    CAResponseModel::InvokeCommand {
                        status: status_item_not_found(),
                        session_id,
                        cmd_id,
                        params,
                    },
                ),
            )
        },
        CARequestModel::RequestCancellation { session_id } => (
            t,
            StepModel::Reply(
                CAResponseModel::RequestCancellation { status: status_not_supported(), session_id },
            ),
        ),
    }
}

/// The outcome of an open request: on success the session joins the table
/// under its id and the client gets status 0 and the id; on failure the
/// client gets the service's status and id 0, and the table is unchanged.
pub open spec fn finish_open_spec<H>(t: TableModel<H>, session_id: u32, outcome: Result<H, u32>) -> (
    TableModel<H>,
    CAResponseModel,
) {
    match outcome {
        Ok(h) => (
            TableModel { sessions: t.sessions.insert(session_id, h), next_id: t.next_id },
            CAResponseModel::OpenSession { status: 0, session_id },
        ),
        Err(status) => (t, CAResponseModel::OpenSession { status, session_id: 0 }),
    }
}

/// The outcome of a close request: the session leaves the table and the
/// worker's status goes back to the client.
pub open spec fn finish_close_spec<H>(
    t: TableModel<H>,
    session_id: u32,
    outcome: Result<(), u32>,
) -> (TableModel<H>, CAResponseModel) {
    (
        TableModel { sessions: t.sessions.remove(session_id), next_id: t.next_id },
        CAResponseModel::CloseSession { status: status_spec(outcome), session_id },
    )
}

/// The open sessions of a gateway, each with the handle of its worker.
pub struct SessionTable<H> {
    sessions: HashMap<u32, H>,
    next_id: u64,
}

impl<H> View for SessionTable<H> {
    type V = TableModel<H>;

    closed spec fn view(&self) -> TableModel<H> {
        TableModel { sessions: self.sessions@, next_id: self.next_id as nat }
    }
}

impl<H> SessionTable<H> {
    /// An empty table whose first session will get id 1.
    pub fn new() -> (r: SessionTable<H>)
        ensures
            r@.sessions == Map::<u32, H>::empty(),
            r@.next_id == 1,
            r@.wf(),
    {
        SessionTable { sessions: HashMap::new(), next_id: 1 }
    }

    /// Decides what to do with a request.
    pub fn dispatch(&mut self, req: CARequest) -> (r: Step)
        requires
            old(self)@.wf(),
        ensures
            (final(self)@, r@) == dispatch_spec(old(self)@, req@),
            final(self)@.wf(),
    {
        match req {
            CARequest::OpenSession { params } => {
                if self.next_id <= 0xffff_ffffu64 {
                    let session_id = self.next_id as u32;
                    self.next_id = self.next_id + 1;
                    Step::Open { session_id, params }
                } else {
                    Step::Reply(CAResponse::OpenSession { status: overflow_code(), session_id: 0 })
                }
            },
            CARequest::CloseSession { session_id } => {
                if self.sessions.contains_key(&session_id) {
                    Step::Close { session_id }
                } else {
                    Step::Reply(
                        CAResponse::CloseSession { status: item_not_found_code(), session_id },
                    )
                }
            },
            CARequest::Destroy => Step::Destroy,
            CARequest::InvokeCommand { session_id, cmd_id, params } => {
                if self.sessions.contains_key(&session_id) {
                    Step::Invoke { session_id, cmd_id, params }
                } else {
                    Step::Reply(
                        CAResponse::InvokeCommand {
                            status: item_not_found_code(),
                            session_id,
                            cmd_id,
                            params,
                        },
                    )
                }
            },
            CARequest::RequestCancellation { session_id } => Step::Reply(
                CAResponse::RequestCancellation { status: not_supported_code(), session_id },
            ),
        }
    }

    /// Whether `session_id` was handed out to an open request whose outcome
    /// is not yet in.
    pub fn is_pending(&self, session_id: u32) -> (r: bool)
        requires
            self@.wf(),
        ensures
            r == self@.is_pending(session_id),
    {
        1 <= session_id && (session_id as u64) < self.next_id && !self.sessions.contains_key(
            &session_id,
        )
    }

    /// Records the outcome of an open request: the worker handle of the new
    /// session, or the service's failure status.
    pub fn finish_open(&mut self, session_id: u32, outcome: Result<H, u32>) -> (r: CAResponse)
        requires
            old(self)@.wf(),
            old(self)@.is_pending(session_id),
        ensures
            (final(self)@, r@) == finish_open_spec(old(self)@, session_id, outcome),
            final(self)@.wf(),
    {
        match outcome {
            Ok(h) => {
                self.sessions.insert(session_id, h);
                CAResponse::OpenSession { status: 0, session_id }
            },
            Err(status) => CAResponse::OpenSession { status, session_id: 0 },
        }
    }

    /// The worker handle of an open session.
    pub fn handle(&self, session_id: u32) -> (r: Option<&H>)
        ensures
            match r {
                Some(h) => self@.sessions.contains_key(session_id) && *h
                    == self@.sessions[session_id],
                None => !self@.sessions.contains_key(session_id),
            },
    {
        self.sessions.get(&session_id)
    }

    /// Records that a session's worker has closed it, with the outcome of
    /// the service's close.
    pub fn finish_close(&mut self, session_id: u32, outcome: Result<(), u32>) -> (r: CAResponse)
        requires
            old(self)@.wf(),
        ensures
            (final(self)@, r@) == finish_close_spec(old(self)@, session_id, outcome),
            final(self)@.wf(),
    {
        self.sessions.remove(&session_id);
        assert(self@.sessions == old(self)@.sessions.remove(session_id));
        assert forall|id: u32| #[trigger] self@.sessions.contains_key(id) implies 1 <= id
            < self@.next_id by {
            assert(old(self)@.sessions.contains_key(id));
        }
        CAResponse::CloseSession { status: status_of(outcome), session_id }
    }

    /// The number of open sessions.
    pub fn len(&self) -> (r: usize)
        ensures
            r == self@.sessions.len(),
    {
        self.sessions.len()
    }
}

/// The status that reports a service operation's outcome: 0 on success,
/// else the service's own code.
pub open spec fn status_spec(outcome: Result<(), u32>) -> u32 {
    match outcome {
        Ok(_) => 0,
        Err(code) => code,
    }
}

/// The status that reports a service operation's outcome.
pub fn status_of(outcome: Result<(), u32>) -> (r: u32)
    ensures
        r == status_spec(outcome),
{
    match outcome {
        Ok(_) => 0,
        Err(code) => code,
    }
}

/// The reply of a session's worker to a command: the service's status and
/// the parameter block as the service left it, under the session and
/// command ids.
pub fn invoke_response(
    session_id: u32,
    cmd_id: u32,
    params: Parameters,
    outcome: Result<(), u32>,
) -> (r: CAResponse)
    ensures
        r@ == (CAResponseModel::InvokeCommand {
            status: status_spec(outcome),
            session_id,
            cmd_id,
            params: params@,
        }),
{
    CAResponse::InvokeCommand { status: status_of(outcome), session_id, cmd_id, params }
}

/// Once a session has opened with a worker handle, a command for its id is
/// forwarded to that same handle under that same id, with the caller's
/// command and parameters; and the session keeps its entry through every
/// other request and every outcome that concerns another id, until a close
/// of its own id.
pub proof fn lemma_open_session_routes_to_its_worker<H>(
    t: TableModel<H>,
    open_params: Seq<ParamModel>,
    h: H,
    cmd_id: u32,
    params: Seq<ParamModel>,
)
    requires
        t.wf(),
        t.next_id <= u32::MAX,
    ensures
        ({
            let (t1, step) = dispatch_spec(t, CARequestModel::OpenSession { params: open_params });
            let id = t.next_id as u32;
            let (t2, resp) = finish_open_spec(t1, id, Ok(h));
            &&& step == StepModel::Open { session_id: id, params: open_params }
            &&& t1.wf() && t1.is_pending(id)
            &&& resp == CAResponseModel::OpenSession { status: 0, session_id: id }
            &&& t2.sessions.contains_key(id) && t2.sessions[id] == h
            &&& dispatch_spec(t2, CARequestModel::InvokeCommand { session_id: id, cmd_id, params })
                == (t2, StepModel::Invoke { session_id: id, cmd_id, params })
        }),
{
}

/// A session's entry survives every request, the outcome of every other
/// open, and the close of every other session.
pub proof fn lemma_session_entry_kept<H>(
    t: TableModel<H>,
    id: u32,
    req: CARequestModel,
    other: u32,
    outcome: Result<H, u32>,
    closed: Result<(), u32>,
)
    requires
        t.wf(),
        t.sessions.contains_key(id),
        other != id,
    ensures
        dispatch_spec(t, req).0.sessions.contains_key(id),
        dispatch_spec(t, req).0.sessions[id] == t.sessions[id],
        finish_open_spec(t, other, outcome).0.sessions[id] == t.sessions[id],
        finish_open_spec(t, other, outcome).0.sessions.contains_key(id),
        finish_close_spec(t, other, closed).0.sessions.contains_key(id),
        finish_close_spec(t, other, closed).0.sessions[id] == t.sessions[id],
{
}

/// Closing an id that is not open, because it never was or because it was
/// closed already, answers "not found" under that id and changes nothing,
/// so asking again gets the same answer.
pub proof fn lemma_close_unknown_is_idempotent<H>(
    t: TableModel<H>,
    session_id: u32,
    outcome: Result<(), u32>,
)
    requires
        t.wf(),
    ensures
        !t.sessions.contains_key(session_id) ==> {
            let req = CARequestModel::CloseSession { session_id };
            let answer = StepModel::Reply(
                CAResponseModel::CloseSession { status: status_item_not_found(), session_id },
            );
            &&& dispatch_spec(t, req) == (t, answer)
            &&& dispatch_spec(dispatch_spec(t, req).0, req) == (t, answer)
        },
        ({
            let closed = finish_close_spec(t, session_id, outcome).0;
            let req = CARequestModel::CloseSession { session_id };
            let answer = StepModel::Reply(
                CAResponseModel::CloseSession { status: status_item_not_found(), session_id },
            );
            &&& dispatch_spec(closed, req) == (closed, answer)
            &&& dispatch_spec(dispatch_spec(closed, req).0, req) == (closed, answer)
        }),
{
}

/// A command for an id that is not open comes back with "not found" and
/// the caller's parameter block exactly as it was sent; the table does not
/// change.
pub proof fn lemma_invoke_unknown_returns_params<H>(
    t: TableModel<H>,
    session_id: u32,
    cmd_id: u32,
    params: Seq<ParamModel>,
)
    requires
        t.wf(),
        !t.sessions.contains_key(session_id),
    ensures
        dispatch_spec(t, CARequestModel::InvokeCommand { session_id, cmd_id, params }) == (
            t,
            StepModel::Reply(
                CAResponseModel::InvokeCommand {
                    status: status_item_not_found(),
                    session_id,
                    cmd_id,
                    params,
                },
            ),
        ),
{
}

} // verus!
