use ta_manager::{
    decode_request, decode_response, encode_request, encode_response, invoke_response, status_of,
    CARequest, CAResponse, ParamType, Parameter, Parameters, SessionTable, Step, TEEParam, Value,
};

const ITEM_NOT_FOUND: u32 = 0xFFFF0008;
const NOT_SUPPORTED: u32 = 0xFFFF000A;

fn value_slot(param_type: ParamType, a: u32, b: u32) -> Parameter {
    Parameter { raw: TEEParam { data: vec![], value: Value { a, b } }, param_type }
}

fn open(table: &mut SessionTable<&'static str>, handle: &'static str) -> CAResponse {
    match table.dispatch(CARequest::OpenSession { params: Parameters::default() }) {
        Step::Open { session_id, .. } => {
            assert!(table.is_pending(session_id));
            table.finish_open(session_id, Ok(handle))
        },
        _ => panic!("open was not forwarded to the service"),
    }
}

#[test]
fn first_open_gets_id_one() {
    let mut table: SessionTable<&'static str> = SessionTable::new();
    assert_eq!(open(&mut table, "w1"), CAResponse::OpenSession { status: 0, session_id: 1 });
    assert_eq!(open(&mut table, "w2"), CAResponse::OpenSession { status: 0, session_id: 2 });
    assert_eq!(table.handle(1), Some(&"w1"));
    assert_eq!(table.handle(2), Some(&"w2"));
    assert_eq!(table.len(), 2);
}

#[test]
fn failed_open_reports_service_status_and_consumes_id() {
    let mut table: SessionTable<&'static str> = SessionTable::new();
    let id = match table.dispatch(CARequest::OpenSession { params: Parameters::default() }) {
        Step::Open { session_id, .. } => session_id,
        _ => panic!("open was not forwarded"),
    };
    assert_eq!(id, 1);
    assert_eq!(table.finish_open(id, Err(0xFFFF0006)), CAResponse::OpenSession {
        status: 0xFFFF0006,
        session_id: 0,
    });
    assert_eq!(table.handle(1), None);
    assert_eq!(open(&mut table, "w"), CAResponse::OpenSession { status: 0, session_id: 2 });
}

#[test]
fn open_invoke_close_scenario() {
    let mut table: SessionTable<&'static str> = SessionTable::new();
    assert_eq!(open(&mut table, "worker"), CAResponse::OpenSession { status: 0, session_id: 1 });

    let params = Parameters(
        value_slot(ParamType::ValueInput, 3, 4),
        value_slot(ParamType::ValueOutput, 0, 0),
        Parameter::default(),
        Parameter::default(),
    );
    let step = table.dispatch(CARequest::InvokeCommand { session_id: 1, cmd_id: 7, params });
    let reply = match step {
        Step::Invoke { session_id, cmd_id, mut params } => {
            assert_eq!(table.handle(session_id), Some(&"worker"));
            assert_eq!(cmd_id, 7);
            params.1.raw.value.a = params.0.raw.value.a + params.0.raw.value.b;
            invoke_response(session_id, cmd_id, params, Ok(()))
        },
        _ => panic!("command was not forwarded"),
    };
    match reply {
        CAResponse::InvokeCommand { status, session_id, cmd_id, params } => {
            assert_eq!((status, session_id, cmd_id), (0, 1, 7));
            assert_eq!(params.1.raw.value, Value { a: 7, b: 0 });
            assert_eq!(params.0.raw.value, Value { a: 3, b: 4 });
        },
        other => panic!("unexpected reply {:?}", other),
    }

    match table.dispatch(CARequest::CloseSession { session_id: 1 }) {
        Step::Close { session_id } => {
            assert_eq!(session_id, 1);
            assert_eq!(table.finish_close(1, Ok(())), CAResponse::CloseSession {
                status: 0,
                session_id: 1,
            });
        },
        _ => panic!("close was not forwarded"),
    }

    let again = Parameters(
        value_slot(ParamType::ValueInput, 3, 4),
        Parameter::default(),
        Parameter::default(),
        Parameter::default(),
    );
    let step = table.dispatch(CARequest::InvokeCommand {
        session_id: 1,
        cmd_id: 7,
        params: again.clone(),
    });
    match step {
        Step::Reply(resp) => assert_eq!(resp, CAResponse::InvokeCommand {
            status: ITEM_NOT_FOUND,
            session_id: 1,
            cmd_id: 7,
            params: again,
        }),
        _ => panic!("command for a closed session was forwarded"),
    }
}

#[test]
fn service_failure_status_is_relayed() {
    let resp = invoke_response(4, 9, Parameters::default(), Err(0xFFFF0006));
    assert_eq!(resp, CAResponse::InvokeCommand {
        status: 0xFFFF0006,
        session_id: 4,
        cmd_id: 9,
        params: Parameters::default(),
    });
    assert_eq!(status_of(Ok(())), 0);
    assert_eq!(status_of(Err(0xFFFF000C)), 0xFFFF000C);
}

#[test]
fn close_unknown_session_is_not_found_every_time() {
    let mut table: SessionTable<&'static str> = SessionTable::new();
    open(&mut table, "w");
    for _ in 0..3 {
        match table.dispatch(CARequest::CloseSession { session_id: 42 }) {
            Step::Reply(resp) => assert_eq!(resp, CAResponse::CloseSession {
                status: ITEM_NOT_FOUND,
                session_id: 42,
            }),
            _ => panic!("close of an unknown session was forwarded"),
        }
        assert_eq!(table.len(), 1);
    }
}

#[test]
fn close_twice_is_not_found_the_second_time() {
    let mut table: SessionTable<&'static str> = SessionTable::new();
    open(&mut table, "w");
    assert!(matches!(table.dispatch(CARequest::CloseSession { session_id: 1 }), Step::Close {
        session_id: 1,
    }));
    table.finish_close(1, Err(0xFFFF0000));
    assert_eq!(table.len(), 0);
    match table.dispatch(CARequest::CloseSession { session_id: 1 }) {
        Step::Reply(resp) => assert_eq!(resp, CAResponse::CloseSession {
            status: ITEM_NOT_FOUND,
            session_id: 1,
        }),
        _ => panic!("second close was forwarded"),
    }
}

#[test]
fn close_reports_service_failure() {
    let mut table: SessionTable<&'static str> = SessionTable::new();
    open(&mut table, "w");
    assert_eq!(table.finish_close(1, Err(0xFFFF0000)), CAResponse::CloseSession {
        status: 0xFFFF0000,
        session_id: 1,
    });
}

#[test]
fn invoke_unknown_session_returns_params_unchanged() {
    let mut table: SessionTable<&'static str> = SessionTable::new();
    let params = Parameters(
        value_slot(ParamType::ValueInout, 9, 10),
        Parameter {
            raw: TEEParam { data: vec![1, 2, 3], value: Value { a: 0, b: 0 } },
            param_type: ParamType::MemrefInout,
        },
        Parameter::default(),
        Parameter::default(),
    );
    match table.dispatch(CARequest::InvokeCommand {
        session_id: 5,
        cmd_id: 1,
        params: params.clone(),
    }) {
        Step::Reply(resp) => assert_eq!(resp, CAResponse::InvokeCommand {
            status: ITEM_NOT_FOUND,
            session_id: 5,
            cmd_id: 1,
            params,
        }),
        _ => panic!("command for an unknown session was forwarded"),
    }
}

#[test]
fn cancellation_is_refused_as_not_supported() {
    let mut table: SessionTable<&'static str> = SessionTable::new();
    open(&mut table, "w");
    match table.dispatch(CARequest::RequestCancellation { session_id: 1 }) {
        Step::Reply(resp) => assert_eq!(resp, CAResponse::RequestCancellation {
            status: NOT_SUPPORTED,
            session_id: 1,
        }),
        _ => panic!("cancellation was not answered at once"),
    }
    assert_eq!(table.handle(1), Some(&"w"));
}

#[test]
fn destroy_stops_the_dispatcher() {
    let mut table: SessionTable<&'static str> = SessionTable::new();
    assert!(matches!(table.dispatch(CARequest::Destroy), Step::Destroy));
}

#[test]
fn invoke_over_the_wire_reaches_its_session() {
    let mut table: SessionTable<&'static str> = SessionTable::new();
    open(&mut table, "first");
    open(&mut table, "second");

    let params = Parameters(
        value_slot(ParamType::ValueInput, 3, 4),
        Parameter::default(),
        Parameter::default(),
        Parameter::default(),
    );
    let wire = encode_request(&CARequest::InvokeCommand { session_id: 2, cmd_id: 7, params });
    let (req, _) = decode_request(&wire).unwrap();
    let resp = match table.dispatch(req) {
        Step::Invoke { session_id, cmd_id, params } => {
            assert_eq!(table.handle(session_id), Some(&"second"));
            invoke_response(session_id, cmd_id, params, Ok(()))
        },
        _ => panic!("command was not forwarded"),
    };
    let (back, _) = decode_response(&encode_response(&resp)).unwrap();
    match back {
        CAResponse::InvokeCommand { status, session_id, cmd_id, params } => {
            assert_eq!((status, session_id, cmd_id), (0, 2, 7));
            assert_eq!(params.0.raw.value, Value { a: 3, b: 4 });
            assert_eq!(params.0.param_type, ParamType::ValueInput);
        },
        other => panic!("unexpected reply {:?}", other),
    }
}
