use landlord::proto::decode_i32;
use landlord::proto::dispatch;
use landlord::proto::exit_code;
use landlord::proto::input_handler;
use landlord::proto::read_bytes;
use landlord::proto::read_frame;
use landlord::proto::read_handler;
use landlord::proto::read_payload;
use landlord::proto::read_pid_handler;
use landlord::proto::read_step;
use landlord::proto::signal_frame;
use landlord::proto::Input;
use landlord::proto::Output;
use landlord::proto::ProtoError;
use landlord::proto::ReadStep;
use landlord::proto::Sink;
use landlord::proto::Step;
use landlord::proto::TAG_EXIT;
use landlord::proto::TAG_SIGNAL;
use landlord::proto::TAG_STDERR;
use landlord::proto::TAG_STDOUT;

fn framed(tag: u8, payload: &[u8]) -> Vec<u8> {
    let mut bytes = vec![tag];
    bytes.extend_from_slice(&(payload.len() as i32).to_be_bytes());
    bytes.extend_from_slice(payload);
    bytes
}

#[test]
fn tags_are_the_letters() {
    assert_eq!(TAG_STDERR, b'e');
    assert_eq!(TAG_STDOUT, b'o');
    assert_eq!(TAG_EXIT, b'x');
    assert_eq!(TAG_SIGNAL, b'k');
}

#[test]
fn numbers_are_big_endian() {
    assert_eq!(decode_i32(&vec![0, 0, 0, 42]), Ok(42));
    assert_eq!(decode_i32(&vec![0x00, 0x00, 0x01, 0x0b]), Ok(267));
    assert_eq!(decode_i32(&vec![0xff, 0xff, 0x7a, 0x33]), Ok(-34253));
    assert_eq!(decode_i32(&vec![0x7f, 0xff, 0xff, 0xff]), Ok(i32::MAX));
    assert_eq!(decode_i32(&vec![0x80, 0, 0, 0]), Ok(i32::MIN));
    assert_eq!(decode_i32(&vec![0xff, 0xff, 0xff, 0xff]), Ok(-1));
    assert_eq!(decode_i32(&vec![1, 2, 3, 4, 5]), Ok(0x01020304));
}

#[test]
fn short_numbers_are_truncated() {
    assert_eq!(
        decode_i32(&vec![]),
        Err(ProtoError::UnexpectedEof { missing: 4 })
    );
    assert_eq!(
        decode_i32(&vec![1, 2, 3]),
        Err(ProtoError::UnexpectedEof { missing: 1 })
    );
}

#[test]
fn read_bytes_takes_exactly_what_is_asked() {
    let stream = [1u8, 2, 3, 4, 5];
    assert_eq!(read_bytes(&stream, 0, 5), Ok(vec![1, 2, 3, 4, 5]));
    assert_eq!(read_bytes(&stream, 1, 2), Ok(vec![2, 3]));
    assert_eq!(read_bytes(&stream, 5, 0), Ok(vec![]));
    assert_eq!(read_bytes(&stream, 0, 0), Ok(vec![]));
    assert_eq!(
        read_bytes(&stream, 3, 4),
        Err(ProtoError::UnexpectedEof { missing: 2 })
    );
    assert_eq!(
        read_bytes(&stream, 5, 1),
        Err(ProtoError::UnexpectedEof { missing: 1 })
    );
    assert_eq!(read_bytes(&stream, 9, 0), Ok(vec![]));
    assert_eq!(
        read_bytes(&stream, 9, 2),
        Err(ProtoError::UnexpectedEof { missing: 2 })
    );
    assert_eq!(
        read_frame(&stream, 6),
        Err(ProtoError::UnexpectedEof { missing: 1 })
    );
    assert_eq!(
        read_bytes(&stream, 0, usize::MAX),
        Err(ProtoError::UnexpectedEof {
            missing: usize::MAX - 5
        })
    );
}

#[test]
fn payload_round_trip() {
    for payload in [
        vec![],
        vec![0u8],
        vec![1u8, 2, 3],
        b"hello world".to_vec(),
        vec![0xffu8; 300],
    ] {
        let mut bytes = (payload.len() as i32).to_be_bytes().to_vec();
        bytes.extend_from_slice(&payload);
        assert_eq!(read_payload(&bytes, 0), Ok(payload.clone()));
        bytes.extend_from_slice(&[9, 9, 9]);
        assert_eq!(read_payload(&bytes, 0), Ok(payload.clone()));
        let mut shifted = vec![7u8, 7];
        shifted.extend_from_slice(&bytes);
        assert_eq!(read_payload(&shifted, 2), Ok(payload));
    }
}

#[test]
fn payload_errors() {
    assert_eq!(
        read_payload(&[0, 0], 0),
        Err(ProtoError::UnexpectedEof { missing: 2 })
    );
    assert_eq!(
        read_payload(&[0, 0, 0, 3, 1], 0),
        Err(ProtoError::UnexpectedEof { missing: 2 })
    );
    assert_eq!(
        read_payload(&[0xff, 0xff, 0xff, 0xff, 1, 2], 0),
        Err(ProtoError::InvalidLength(-1))
    );
    assert_eq!(
        read_payload(&[0x80, 0, 0, 0], 0),
        Err(ProtoError::InvalidLength(i32::MIN))
    );
    assert_eq!(
        read_payload(&[0x7f, 0xff, 0xff, 0xff], 0),
        Err(ProtoError::UnexpectedEof {
            missing: i32::MAX as usize
        })
    );
}

#[test]
fn frames_of_each_kind() {
    assert_eq!(
        read_frame(&framed(b'o', b"out"), 0),
        Ok((Input::StdOut(b"out".to_vec()), 8))
    );
    assert_eq!(
        read_frame(&framed(b'e', b""), 0),
        Ok((Input::StdErr(vec![]), 5))
    );
    assert_eq!(
        read_frame(&[b'x', 0, 0, 0, 42, 1, 2], 0),
        Ok((Input::Exit(42), 5))
    );
    assert_eq!(
        read_frame(&[0, b'x', 0xff, 0xff, 0xff, 0xfe], 1),
        Ok((Input::Exit(-2), 6))
    );
}

#[test]
fn frame_tells_how_much_is_missing() {
    assert_eq!(
        read_frame(&[], 0),
        Err(ProtoError::UnexpectedEof { missing: 1 })
    );
    assert_eq!(
        read_frame(&[b'o'], 0),
        Err(ProtoError::UnexpectedEof { missing: 4 })
    );
    assert_eq!(
        read_frame(&[b'o', 0, 0, 0, 2], 0),
        Err(ProtoError::UnexpectedEof { missing: 2 })
    );
    assert_eq!(
        read_frame(&[b'o', 0, 0, 0, 2, 1], 0),
        Err(ProtoError::UnexpectedEof { missing: 1 })
    );
    assert_eq!(
        read_frame(&[b'x', 0, 0], 0),
        Err(ProtoError::UnexpectedEof { missing: 2 })
    );
    assert_eq!(
        read_frame(&[b'e', 0xff, 0, 0, 0], 0),
        Err(ProtoError::InvalidLength(-16777216))
    );
}

#[test]
fn unknown_tags_are_refused() {
    for tag in 0..=255u8 {
        let known = tag == 101 || tag == 111 || tag == 120;
        let stream = [tag, 0, 0, 0, 0];
        let (events, outcome) = read_handler(&stream);
        if known {
            assert_eq!(events.len(), if tag == 120 { 1 } else { 1 });
            assert_ne!(outcome, Err(ProtoError::UnknownCode(tag)));
        } else {
            assert_eq!(events, vec![]);
            assert_eq!(outcome, Err(ProtoError::UnknownCode(tag)));
            assert_eq!(read_frame(&stream, 0), Err(ProtoError::UnknownCode(tag)));
        }
    }
    assert_eq!(
        read_handler(&[b'k', 0, 0, 0, 1, 0, 0, 0, 2]),
        (vec![], Err(ProtoError::UnknownCode(b'k')))
    );
}

#[test]
fn read_handler_stops_at_exit() {
    let mut stream = framed(b'o', b"a");
    stream.extend_from_slice(&framed(b'e', b"bc"));
    stream.extend_from_slice(&[b'x', 0, 0, 0, 3]);
    stream.extend_from_slice(&framed(b'o', b"never"));
    assert_eq!(
        read_handler(&stream),
        (
            vec![
                Input::StdOut(b"a".to_vec()),
                Input::StdErr(b"bc".to_vec()),
                Input::Exit(3)
            ],
            Ok(())
        )
    );
}

#[test]
fn read_handler_fails_without_exit() {
    assert_eq!(
        read_handler(&[]),
        (vec![], Err(ProtoError::UnexpectedEof { missing: 1 }))
    );
    let stream = framed(b'o', b"a");
    assert_eq!(
        read_handler(&stream),
        (
            vec![Input::StdOut(b"a".to_vec())],
            Err(ProtoError::UnexpectedEof { missing: 1 })
        )
    );
    let mut broken = framed(b'o', b"a");
    broken.extend_from_slice(&[7, 1, 2]);
    assert_eq!(
        read_handler(&broken),
        (
            vec![Input::StdOut(b"a".to_vec())],
            Err(ProtoError::UnknownCode(7))
        )
    );
}

#[test]
fn pid_is_read_from_four_bytes() {
    assert_eq!(read_pid_handler(&[0, 0, 0x30, 0x39]), Some(12345));
    assert_eq!(read_pid_handler(&[0xff, 0xff, 0xff, 0xff, 3]), Some(-1));
    assert_eq!(read_pid_handler(&[0, 0, 1]), None);
    assert_eq!(read_pid_handler(&[]), None);
}

#[test]
fn signal_frame_layout() {
    assert_eq!(
        signal_frame(12345, 15),
        vec![b'k', 0, 0, 0x30, 0x39, 0, 0, 0, 15]
    );
    assert_eq!(
        signal_frame(-1, i32::MIN),
        vec![b'k', 0xff, 0xff, 0xff, 0xff, 0x80, 0, 0, 0]
    );
    assert_eq!(signal_frame(0x01020304, 0x0a0b0c0d).len(), 9);
    assert_eq!(
        signal_frame(0x01020304, 0x0a0b0c0d),
        vec![107, 1, 2, 3, 4, 10, 11, 12, 13]
    );
}

#[test]
fn dispatch_routes_each_event() {
    assert_eq!(dispatch(1, Input::Exit(9)), Step::Exit(9));
    assert_eq!(
        dispatch(1, Input::StdIn(vec![1, 2])),
        Step::Deliver(Output {
            sink: Sink::Daemon,
            bytes: vec![1, 2]
        })
    );
    assert_eq!(
        dispatch(1, Input::StdOut(vec![3])),
        Step::Deliver(Output {
            sink: Sink::StdOut,
            bytes: vec![3]
        })
    );
    assert_eq!(
        dispatch(1, Input::StdErr(vec![])),
        Step::Deliver(Output {
            sink: Sink::StdErr,
            bytes: vec![]
        })
    );
    assert_eq!(
        dispatch(258, Input::Signal(2)),
        Step::Deliver(Output {
            sink: Sink::FreshConnection,
            bytes: vec![b'k', 0, 0, 1, 2, 0, 0, 0, 2]
        })
    );
}

#[test]
fn every_signal_gets_its_own_connection() {
    let pid = 77;
    let mut events = vec![];
    for n in 0..20 {
        events.push(Input::Signal(n));
        events.push(Input::StdIn(vec![n as u8; 9]));
        events.push(Input::StdOut(vec![b'k']));
    }
    let (outputs, code) = input_handler(pid, &events);
    assert_eq!(code, None);
    assert_eq!(outputs.len(), 60);
    let fresh: Vec<&Output> = outputs
        .iter()
        .filter(|o| o.sink == Sink::FreshConnection)
        .collect();
    assert_eq!(fresh.len(), 20);
    for (n, output) in fresh.iter().enumerate() {
        assert_eq!(output.bytes.len(), 9);
        assert_eq!(output.bytes, signal_frame(pid, n as i32));
        assert_eq!(output.bytes[0], b'k');
        assert_eq!(output.bytes[1..5], [0, 0, 0, 77]);
        assert_eq!(output.bytes[5..9], (n as i32).to_be_bytes());
    }
}

#[test]
fn session_stops_at_the_first_exit() {
    let events = vec![
        Input::StdOut(b"a".to_vec()),
        Input::Signal(15),
        Input::Exit(5),
        Input::Signal(2),
        Input::Exit(6),
    ];
    let (outputs, code) = input_handler(3, &events);
    assert_eq!(code, Some(5));
    assert_eq!(
        outputs,
        vec![
            Output {
                sink: Sink::StdOut,
                bytes: b"a".to_vec()
            },
            Output {
                sink: Sink::FreshConnection,
                bytes: signal_frame(3, 15)
            },
        ]
    );
    assert_eq!(input_handler(3, &[]), (vec![], None));
}

#[test]
fn exit_frame_becomes_the_exit_code() {
    let (events, outcome) = read_handler(&[b'x', 0, 0, 0, 42]);
    assert_eq!(outcome, Ok(()));
    assert_eq!(events, vec![Input::Exit(42)]);
    let (outputs, code) = input_handler(1, &events);
    assert_eq!(outputs, vec![]);
    assert_eq!(code, Some(42));
    assert_eq!(exit_code(code), 42);
}

#[test]
fn failed_session_exits_with_one() {
    assert_eq!(exit_code(None), 1);
    assert_eq!(exit_code(Some(0)), 0);
    assert_eq!(exit_code(Some(-7)), -7);
}

#[test]
fn reader_asks_for_each_part_of_a_frame() {
    assert_eq!(read_step(&[]), ReadStep::Need(1));
    assert_eq!(read_step(&[b'o']), ReadStep::Need(4));
    assert_eq!(read_step(&[b'o', 0, 0, 0, 3]), ReadStep::Need(3));
    assert_eq!(read_step(&[b'o', 0, 0, 0, 3, 1]), ReadStep::Need(2));
    assert_eq!(
        read_step(&[b'o', 0, 0, 0, 3, 1, 2, 3]),
        ReadStep::Forward {
            event: Input::StdOut(vec![1, 2, 3]),
            consumed: 8
        }
    );
    assert_eq!(
        read_step(&[b'e', 0, 0, 0, 0, b'x']),
        ReadStep::Forward {
            event: Input::StdErr(vec![]),
            consumed: 5
        }
    );
    assert_eq!(read_step(&[b'x']), ReadStep::Need(4));
    assert_eq!(read_step(&[b'x', 0, 0, 1, 0]), ReadStep::Last(Input::Exit(256)));
}

#[test]
fn reader_fails_on_what_is_no_frame() {
    assert_eq!(
        read_step(&[b'k']),
        ReadStep::Fail(ProtoError::UnknownCode(b'k'))
    );
    assert_eq!(
        read_step(&[b'o', 0xff, 0xff, 0xff, 0xfb]),
        ReadStep::Fail(ProtoError::InvalidLength(-5))
    );
}

#[test]
fn reader_fed_exactly_decodes_a_stream() {
    let mut stream = framed(b'o', b"hello");
    stream.extend_from_slice(&framed(b'e', b""));
    stream.extend_from_slice(&framed(b'o', &[0u8; 1000]));
    stream.extend_from_slice(&[b'x', 0, 0, 0, 7]);
    let mut at = 0;
    let mut received: Vec<u8> = vec![];
    let mut events = vec![];
    loop {
        match read_step(&received) {
            ReadStep::Forward { event, consumed } => {
                assert_eq!(consumed, received.len());
                events.push(event);
                received.clear();
            }
            ReadStep::Last(event) => {
                events.push(event);
                break;
            }
            ReadStep::Need(missing) => {
                received.extend_from_slice(&stream[at..at + missing]);
                at += missing;
            }
            ReadStep::Fail(e) => panic!("{:?}", e),
        }
    }
    assert_eq!(at, stream.len());
    assert_eq!(read_handler(&stream), (events, Ok(())));
}
