//! The wire protocol: every frame there and back, and the ways a stream breaks.
use asd::proto::code::VERSION_MISMATCH;
use asd::proto::codec::{
    decode_frame, encode_frame, FrameReader, FrameWriter, IoFailure, Next, ProtoError,
};
use asd::proto::wire::CodecError;
use asd::proto::{
    AgentState, ClientKind, Frame, HostSample, Scrollback, SessionExit, SessionInfo,
    TerminalAppearance, TerminalColor, MAX_FRAME_LEN, PROTO_VERSION,
};

/// Covers every frame kind in the current protocol. Add new frames here in
/// lockstep with the protocol version bump and explicit assertion below.
fn all_frames() -> Vec<Frame> {
    vec![
        Frame::Hello {
            proto_version: 0,
            kind: ClientKind::Tui,
        },
        Frame::HelloAck {
            proto_version: 0,
            daemon_version: "0.1.0".into(),
        },
        Frame::ListSessions,
        Frame::SessionList {
            sessions: vec![
                SessionInfo {
                    name: "s0".into(),
                    command: "/bin/bash".into(),
                    title: "user@host: ~".into(),
                    created_ms: 1_752_450_000_000,
                    idle_ms: 1500,
                    running: true,
                    state: AgentState::Blocked,
                    attached_clients: 2,
                    pid: 4242,
                    cols: 120,
                    rows: 40,
                },
                SessionInfo {
                    name: "work".into(),
                    command: "htop".into(),
                    title: String::new(),
                    created_ms: 0,
                    idle_ms: 0,
                    running: false,
                    state: AgentState::Idle,
                    attached_clients: 0,
                    pid: 4242,
                    cols: 80,
                    rows: 24,
                },
            ],
        },
        Frame::Create {
            name: Some("work".into()),
            cmd: Some("htop".into()),
            cwd: Some("/srv/app".into()),
        },
        Frame::Create {
            name: None,
            cmd: None,
            cwd: None,
        },
        Frame::Created { name: "s0".into() },
        Frame::Kill { name: "s0".into() },
        Frame::Rename {
            name: "s0".into(),
            new_name: "build".into(),
        },
        Frame::Attach {
            name: "s0".into(),
            cols: 120,
            rows: 40,
            view_id: 7,
            appearance: TerminalAppearance {
                foreground: Some(TerminalColor {
                    r: 0xe7,
                    g: 0xe2,
                    b: 0xd6,
                }),
                background: Some(TerminalColor {
                    r: 0x0b,
                    g: 0x0d,
                    b: 0x11,
                }),
            },
            read_only: false,
        },
        Frame::Attach {
            name: "unknown-theme".into(),
            cols: 80,
            rows: 24,
            view_id: 0,
            appearance: TerminalAppearance::default(),
            read_only: false,
        },
        Frame::Attach {
            name: "watched".into(),
            cols: 80,
            rows: 24,
            view_id: 0,
            appearance: TerminalAppearance::default(),
            read_only: true,
        },
        Frame::Snapshot {
            vt: b"\x1b[2J\x1b[Hhello".to_vec(),
        },
        Frame::Output {
            bytes: vec![0u8, 255, 27, 91],
        },
        Frame::Input {
            bytes: b"ls -la\r".to_vec(),
        },
        Frame::Resize { cols: 80, rows: 24 },
        Frame::Detach,
        Frame::FetchHistory {
            start: 100,
            count: 40,
        },
        Frame::History {
            total_rows: 512,
            start: 100,
            rows: vec![b"line one".to_vec(), b"line two".to_vec(), Vec::new()],
        },
        Frame::Refresh,
        Frame::SendInput {
            name: "build".into(),
            bytes: b"make test".to_vec(),
            enter: true,
        },
        Frame::Ack,
        Frame::Peek {
            name: "build".into(),
            scrollback: Scrollback::All,
        },
        Frame::Peek {
            name: "build".into(),
            scrollback: Scrollback::ScreenOnly,
        },
        Frame::Peek {
            name: "build".into(),
            scrollback: Scrollback::Lines(500),
        },
        Frame::PeekReply {
            cols: 80,
            rows: 24,
            cursor_col: 5,
            cursor_row: 12,
            title: "user@host: ~".into(),
            screen: b"line one\nline two".to_vec(),
        },
        Frame::Inspect {
            name: "work".into(),
        },
        Frame::InspectReply {
            info: SessionInfo {
                name: "work".into(),
                command: "vim file".into(),
                title: "vim".into(),
                created_ms: 1_752_450_000_000,
                idle_ms: 42,
                running: true,
                state: AgentState::Working,
                attached_clients: 1,
                pid: 4242,
                cols: 100,
                rows: 30,
            },
            child_pid: 4242,
            alt_screen: true,
            scrollback_rows: 512,
            mouse_tracking: true,
            mouse_modes: vec![1002, 1006],
            cursor_col: 7,
            cursor_row: 3,
            cursor_visible: true,
        },
        Frame::Follow { name: "s0".into() },
        Frame::Unfollow { name: "s0".into() },
        Frame::FollowStatus {
            running: true,
            state: AgentState::Working,
            idle_ms: 12,
            exit: None,
        },
        Frame::FollowStatus {
            running: false,
            state: AgentState::Idle,
            idle_ms: 2500,
            exit: None,
        },
        // The last status a session sends: how its child ended, both ways.
        Frame::FollowStatus {
            running: false,
            state: AgentState::Unknown,
            idle_ms: 40,
            exit: Some(SessionExit {
                code: 3,
                signal: None,
            }),
        },
        Frame::FollowStatus {
            running: false,
            state: AgentState::Unknown,
            idle_ms: 40,
            exit: Some(SessionExit {
                code: 1,
                signal: Some("SIGHUP".into()),
            }),
        },
        Frame::ViewRevoked {
            name: "build".into(),
            view_id: 7,
        },
        Frame::ViewRenamed {
            old_name: "build".into(),
            new_name: "review".into(),
            view_id: 7,
        },
        Frame::Error {
            code: VERSION_MISMATCH,
            msg: "proto version mismatch".into(),
        },
        Frame::HostMetrics,
        Frame::HostMetricsReply {
            sample: Some(HostSample {
                cpu_pct: 12,
                mem_used_bytes: 6_500_000_000,
                mem_total_bytes: 33_000_000_000,
                net_rx_bps: 1_258_291,
                net_tx_bps: 348_160,
                sampled_age_ms: 740,
            }),
        },
        Frame::HostMetricsReply { sample: None },
    ]
}

/// Read one frame from bytes in memory, or `None` where they end cleanly.
fn read_frame(reader: &mut FrameReader<&[u8]>) -> Result<Option<Frame>, ProtoError> {
    loop {
        match reader.advance()? {
            Next::Done(frame) => return Ok(Some(frame)),
            Next::Read(n) => {
                let source = reader.inner_mut();
                let taken = n.min(source.len());
                if taken == 0 {
                    reader.closed()?;
                    return Ok(None);
                }
                let chunk = source[..taken].to_vec();
                *source = &source[taken..];
                reader.filled(&chunk);
            }
        }
    }
}

#[test]
fn protocol_version_covers_host_metrics() {
    assert_eq!(PROTO_VERSION, 17);
}

#[test]
fn every_frame_roundtrips_through_encode_decode() {
    for frame in all_frames() {
        let buf = encode_frame(&frame).unwrap();
        let (len_prefix, payload) = buf.split_at(4);
        assert_eq!(
            u32::from_le_bytes(len_prefix.try_into().unwrap()) as usize,
            payload.len(),
            "length prefix must match payload length for {frame:?}"
        );
        let decoded = decode_frame(payload).unwrap();
        assert_eq!(decoded, frame);
    }
}

#[test]
fn every_frame_roundtrips_through_reader_writer() {
    let mut writer = FrameWriter::new(Vec::new());
    for frame in all_frames() {
        writer.inner_mut().extend_from_slice(&encode_frame(&frame).unwrap());
    }
    let wire: Vec<u8> = writer.into_inner();
    let mut reader = FrameReader::new(wire.as_slice());
    for expected in all_frames() {
        let got = read_frame(&mut reader).unwrap().unwrap();
        assert_eq!(got, expected);
    }
    // After all frames are read, the end lands cleanly on a frame boundary.
    assert!(read_frame(&mut reader).unwrap().is_none());
}

#[test]
fn eof_at_frame_boundary_is_clean_close() {
    let mut reader = FrameReader::new(&[][..]);
    assert!(read_frame(&mut reader).unwrap().is_none());
}

#[test]
fn truncated_length_prefix_is_error() {
    // Cut after only two length bytes: inside a frame, not a clean close.
    let mut reader = FrameReader::new(&[0x05, 0x00][..]);
    match read_frame(&mut reader) {
        Err(ProtoError::Io(e)) => assert!(matches!(e, IoFailure::UnexpectedEof)),
        other => panic!("expected UnexpectedEof, got {other:?}"),
    }
}

#[test]
fn truncated_payload_is_error() {
    let mut wire = encode_frame(&Frame::Created { name: "s0".into() }).unwrap();
    wire.truncate(wire.len() - 1);
    let mut reader = FrameReader::new(wire.as_slice());
    match read_frame(&mut reader) {
        Err(ProtoError::Io(e)) => assert!(matches!(e, IoFailure::UnexpectedEof)),
        other => panic!("expected UnexpectedEof, got {other:?}"),
    }
}

#[test]
fn oversized_length_prefix_is_protocol_error() {
    let len = (MAX_FRAME_LEN as u32) + 1;
    let mut wire = len.to_le_bytes().to_vec();
    wire.extend_from_slice(&[0u8; 16]);
    let mut reader = FrameReader::new(wire.as_slice());
    match read_frame(&mut reader) {
        Err(ProtoError::FrameTooLarge(n)) => assert_eq!(n, len as usize),
        other => panic!("expected FrameTooLarge, got {other:?}"),
    }
}

#[test]
fn oversized_frame_is_rejected_on_encode() {
    let frame = Frame::Output {
        bytes: vec![0u8; MAX_FRAME_LEN + 1],
    };
    match encode_frame(&frame) {
        Err(ProtoError::FrameTooLarge(_)) => {}
        other => panic!("expected FrameTooLarge, got {other:?}"),
    }
}

#[test]
fn garbage_payload_is_codec_error() {
    // The length is fine, but no frame has the number the payload starts with.
    let mut wire = 4u32.to_le_bytes().to_vec();
    wire.extend_from_slice(&[255, 255, 255, 255]);
    let mut reader = FrameReader::new(wire.as_slice());
    match read_frame(&mut reader) {
        Err(ProtoError::Codec(_)) => {}
        other => panic!("expected Codec error, got {other:?}"),
    }
}

#[test]
fn a_cancelled_read_resumes_the_same_frame() {
    let frame = Frame::Output {
        bytes: vec![7u8; 64],
    };
    let wire = encode_frame(&frame).unwrap();
    let mut reader: FrameReader<()> = FrameReader::new(());

    // Enough for the length and a slice of the payload, not for the frame.
    assert!(matches!(reader.advance(), Ok(Next::Read(4))));
    reader.filled(&wire[..4]);
    assert!(matches!(reader.advance(), Ok(Next::Read(n)) if n == wire.len() - 4));
    reader.filled(&wire[4..6]);

    // The read is given up here; the next one goes on where it stopped.
    assert!(matches!(reader.advance(), Ok(Next::Read(n)) if n == wire.len() - 6));
    reader.filled(&wire[6..]);
    match reader.advance() {
        Ok(Next::Done(f)) => assert_eq!(f, frame),
        other => panic!("expected the frame, got {other:?}"),
    }
    assert!(reader.closed().is_ok());
}

/// The payload of a frame, without its length.
fn payload(frame: &Frame) -> Vec<u8> {
    encode_frame(frame).unwrap()[4..].to_vec()
}

#[test]
fn payloads_are_what_postcard_writes() {
    let attach = Frame::Attach {
        name: "s0".into(),
        cols: 120,
        rows: 40,
        view_id: 1 << 40,
        appearance: TerminalAppearance {
            foreground: Some(TerminalColor { r: 1, g: 200, b: 255 }),
            background: None,
        },
        read_only: true,
    };
    let fields = (
        8u32,
        "s0",
        120u16,
        40u16,
        1u64 << 40,
        Some((1u8, 200u8, 255u8)),
        None::<(u8, u8, u8)>,
        true,
    );
    assert_eq!(payload(&attach), postcard::to_stdvec(&fields).unwrap());

    let error = Frame::Error {
        code: 70_000,
        msg: "höchstens ⏵ so lang".into(),
    };
    let fields = (28u32, 70_000u32, "höchstens ⏵ so lang");
    assert_eq!(payload(&error), postcard::to_stdvec(&fields).unwrap());

    let history = Frame::History {
        total_rows: 512,
        start: 100,
        rows: vec![b"line one".to_vec(), vec![9u8; 200], Vec::new()],
    };
    let fields = (
        15u32,
        512u32,
        100u32,
        vec![b"line one".to_vec(), vec![9u8; 200], Vec::new()],
    );
    assert_eq!(payload(&history), postcard::to_stdvec(&fields).unwrap());
}

#[test]
fn what_postcard_refuses_is_refused() {
    // A name cut short.
    assert!(matches!(
        decode_frame(&[6, 5, b's', b'0']),
        Err(ProtoError::Codec(CodecError::UnexpectedEnd))
    ));
    // A name that is not text.
    assert!(matches!(
        decode_frame(&[6, 2, 0xff, 0xfe]),
        Err(ProtoError::Codec(CodecError::BadUtf8))
    ));
    // A number that does not fit its width.
    assert!(matches!(
        decode_frame(&[12, 0xff, 0xff, 0xff, 0xff, 0x7f]),
        Err(ProtoError::Codec(CodecError::BadVarint))
    ));
    // A mark that is neither no nor yes.
    assert!(matches!(
        decode_frame(&[4, 2]),
        Err(ProtoError::Codec(CodecError::BadOption))
    ));
    assert!(matches!(
        decode_frame(&[17, 0, 0, 7]),
        Err(ProtoError::Codec(_))
    ));
}

#[test]
fn errors_say_what_happened() {
    assert_eq!(
        ProtoError::FrameTooLarge(5_000_000).message(),
        "frame length 5000000 exceeds 4194304 byte cap"
    );
    assert_eq!(
        ProtoError::Io(IoFailure::Other("broken pipe".into())).message(),
        "io error: broken pipe"
    );
}

#[test]
fn a_state_goes_by_its_name() {
    for state in [
        AgentState::Working,
        AgentState::Blocked,
        AgentState::Idle,
        AgentState::Unknown,
    ] {
        assert_eq!(AgentState::from_name(state.as_str()), Ok(state));
    }
    assert_eq!(AgentState::from_name("  WORKING\n"), Ok(AgentState::Working));
    assert_eq!(
        AgentState::from_name(" Done "),
        Err("unknown state \"done\" (want working, blocked, idle, or unknown)".to_string())
    );
    assert_eq!(AgentState::default(), AgentState::Unknown);
}

#[test]
fn no_two_frames_have_the_same_payload() {
    let frames = all_frames();
    for (i, a) in frames.iter().enumerate() {
        for b in &frames[..i] {
            assert_ne!(payload(a), payload(b), "{a:?} and {b:?}");
        }
    }
}

#[test]
fn frames_cut_anywhere_come_through_in_order() {
    let frames: Vec<Frame> = all_frames().into_iter().take(12).collect();
    let wire: Vec<u8> = frames
        .iter()
        .flat_map(|f| encode_frame(f).unwrap())
        .collect();
    for size in [1, 2, 3, 5, 7, 64, wire.len()] {
        let mut reader = FrameReader::new(());
        let mut left = wire.as_slice();
        let mut given = Vec::new();
        loop {
            match reader.advance().unwrap() {
                Next::Done(frame) => given.push(frame),
                Next::Read(_) if left.is_empty() => break,
                Next::Read(n) => {
                    let taken = n.min(size).min(left.len());
                    reader.filled(&left[..taken]);
                    left = &left[taken..];
                }
            }
            assert_eq!(given, frames[..given.len()], "chunks of {size}");
        }
        assert_eq!(given, frames, "chunks of {size}");
        assert!(reader.closed().is_ok());
    }
}
