use bincode::config::standard;
use ta_manager::codec::write_varint;
use ta_manager::{
    decode_register, decode_request, decode_response, encode_register, encode_request,
    encode_response, CARequest, CAResponse, DecodeError, ParamType, Parameter, Parameters,
    TARequest, TEEParam, Value,
};

fn varint(n: u64) -> Vec<u8> {
    let mut out = Vec::new();
    write_varint(&mut out, n);
    out
}

fn slot(param_type: ParamType, data: Vec<u8>, a: u32, b: u32) -> Parameter {
    Parameter { raw: TEEParam { data, value: Value { a, b } }, param_type }
}

fn mixed_params() -> Parameters {
    Parameters(
        slot(ParamType::ValueInput, vec![], 3, 4),
        slot(ParamType::MemrefInout, vec![1, 2, 3, 255], 0, 0),
        slot(ParamType::ValueOutput, vec![], u32::MAX, 251),
        slot(ParamType::MemrefOutput, vec![7; 70000], 65536, 250),
    )
}

#[test]
fn varint_matches_bincode_standard() {
    for n in [0u32, 1, 250, 251, 255, 65535, 65536, 0x1234_5678, u32::MAX] {
        assert_eq!(varint(n as u64), bincode::encode_to_vec(n, standard()).unwrap());
    }
    for n in [0u64, 250, 251, 0xffff_ffff, 0x1_0000_0000, u64::MAX] {
        assert_eq!(varint(n), bincode::encode_to_vec(n, standard()).unwrap());
    }
}

#[test]
fn varint_exact_bytes() {
    assert_eq!(varint(7), vec![7]);
    assert_eq!(varint(250), vec![250]);
    assert_eq!(varint(251), vec![251, 251, 0]);
    assert_eq!(varint(0x1234), vec![251, 0x34, 0x12]);
    assert_eq!(varint(0x12345678), vec![252, 0x78, 0x56, 0x34, 0x12]);
    assert_eq!(varint(0x1_0000_0000), vec![253, 0, 0, 0, 0, 1, 0, 0, 0]);
}

#[test]
fn close_request_matches_bincode_layout() {
    let bytes = encode_request(&CARequest::CloseSession { session_id: 300 });
    assert_eq!(bytes, bincode::encode_to_vec((1u32, 300u32), standard()).unwrap());
}

#[test]
fn open_response_matches_bincode_layout() {
    let bytes = encode_response(&CAResponse::OpenSession { status: 0xFFFF0008, session_id: 0 });
    assert_eq!(bytes, bincode::encode_to_vec((0u32, 0xFFFF0008u32, 0u32), standard()).unwrap());
}

#[test]
fn register_matches_bincode_layout() {
    let uuid = "8aaaf200-2450-11e4-abe2-0002a5d5c51b".to_string();
    let bytes = encode_register(&TARequest::Register { uuid: uuid.clone() });
    assert_eq!(bytes, bincode::encode_to_vec((0u32, uuid), standard()).unwrap());
}

#[test]
fn empty_params_exact_bytes() {
    let bytes = encode_request(&CARequest::OpenSession { params: Parameters::default() });
    let mut expected = vec![0u8];
    for _ in 0..4 {
        expected.extend_from_slice(&[0, 0, 0, 0]);
    }
    assert_eq!(bytes, expected);
}

#[test]
fn every_request_round_trips() {
    let requests = vec![
        CARequest::OpenSession { params: Parameters::default() },
        CARequest::OpenSession { params: mixed_params() },
        CARequest::CloseSession { session_id: 0 },
        CARequest::CloseSession { session_id: u32::MAX },
        CARequest::Destroy,
        CARequest::InvokeCommand { session_id: 1, cmd_id: 7, params: mixed_params() },
        CARequest::RequestCancellation { session_id: 65536 },
    ];
    for req in requests {
        let bytes = encode_request(&req);
        let (back, used) = decode_request(&bytes).unwrap();
        assert_eq!(back, req);
        assert_eq!(used, bytes.len());
    }
}

#[test]
fn every_response_round_trips() {
    let responses = vec![
        CAResponse::OpenSession { status: 0, session_id: 1 },
        CAResponse::CloseSession { status: 0xFFFF0008, session_id: 9 },
        CAResponse::Destroy { status: 0 },
        CAResponse::InvokeCommand { status: 3, session_id: 2, cmd_id: 7, params: mixed_params() },
        CAResponse::InvokeCommand {
            status: 0,
            session_id: 2,
            cmd_id: 0,
            params: Parameters::default(),
        },
        CAResponse::RequestCancellation { status: 0xFFFF000A, session_id: 4 },
    ];
    for resp in responses {
        let bytes = encode_response(&resp);
        let (back, used) = decode_response(&bytes).unwrap();
        assert_eq!(back, resp);
        assert_eq!(used, bytes.len());
    }
}

#[test]
fn register_round_trips() {
    for uuid in ["", "abc", "d\u{e9}j\u{e0} \u{1F600}"] {
        let msg = TARequest::Register { uuid: uuid.to_string() };
        let bytes = encode_register(&msg);
        let (back, used) = decode_register(&bytes).unwrap();
        assert_eq!(back, msg);
        assert_eq!(used, bytes.len());
    }
}

#[test]
fn decode_leaves_trailing_bytes() {
    let mut bytes = encode_request(&CARequest::CloseSession { session_id: 5 });
    let len = bytes.len();
    bytes.extend_from_slice(&[9, 9, 9]);
    let (back, used) = decode_request(&bytes).unwrap();
    assert_eq!(back, CARequest::CloseSession { session_id: 5 });
    assert_eq!(used, len);
}

#[test]
fn decode_rejects_empty_input() {
    assert_eq!(decode_request(&[]), Err(DecodeError));
    assert_eq!(decode_response(&[]), Err(DecodeError));
    assert_eq!(decode_register(&[]), Err(DecodeError));
}

#[test]
fn decode_rejects_truncated_input() {
    let bytes = encode_request(&CARequest::InvokeCommand {
        session_id: 1,
        cmd_id: 7,
        params: mixed_params(),
    });
    for cut in [1, 2, 5, bytes.len() - 1] {
        assert_eq!(decode_request(&bytes[..cut]), Err(DecodeError));
    }
}

#[test]
fn decode_rejects_unknown_variant() {
    assert_eq!(decode_request(&[5]), Err(DecodeError));
    assert_eq!(decode_response(&[5, 0, 0]), Err(DecodeError));
    assert_eq!(decode_register(&[1, 0]), Err(DecodeError));
}

#[test]
fn decode_rejects_wide_integer_for_u32() {
    let mut bytes = vec![1u8];
    bytes.extend_from_slice(&varint(0x1_0000_0000));
    assert_eq!(decode_request(&bytes), Err(DecodeError));
    assert_eq!(decode_request(&[1, 255]), Err(DecodeError));
}

#[test]
fn decode_rejects_invalid_utf8_identifier() {
    assert_eq!(decode_register(&[0, 2, 0xff, 0xfe]), Err(DecodeError));
}

#[test]
fn unknown_param_tag_decodes_to_empty() {
    let mut bytes = vec![0u8];
    bytes.extend_from_slice(&[0, 1, 2, 4]);
    for _ in 0..3 {
        bytes.extend_from_slice(&[0, 0, 0, 0]);
    }
    let (req, _) = decode_request(&bytes).unwrap();
    match req {
        CARequest::OpenSession { params } => {
            assert_eq!(params.0.param_type, ParamType::Empty);
            assert_eq!(params.0.raw.value, Value { a: 1, b: 2 });
        },
        other => panic!("unexpected request {:?}", other),
    }
}
