use nanonis_tcp::codec::packet::{newline_replace, Footer, Header};
use nanonis_tcp::codec::{CodecRead, CodecWrite};
use nanonis_tcp::commands::scan::{
    Action, ActionArgs, BufferGet, FrameDataGrab, FrameDataGrabResponse, StatusGet,
    WaitEndOfLineArgs,
};
use nanonis_tcp::commands::signals::NamesGet;
use nanonis_tcp::commands::{zctrl, Command, ScanFrameDataGrab, ScanPropsGetResponse};
use nanonis_tcp::codec::api::{ActionType, ScanDir};
use nanonis_tcp::error::{CodecError, IoError, NanonisTcpError};
use nanonis_tcp::fsm::NanonisTcpFsm;

fn header_bytes(name: &str, body_len: i32) -> Vec<u8> {
    let mut out = Vec::new();
    let mut field = [0u8; 32];
    field[..name.len()].copy_from_slice(name.as_bytes());
    out.extend_from_slice(&field);
    out.extend_from_slice(&body_len.to_be_bytes());
    out.extend_from_slice(&[0, 1, 0, 0]);
    out
}

fn ok_footer() -> Vec<u8> {
    vec![0, 0, 0, 0, 0, 0, 0, 0]
}

/// Runs one exchange of `C` against a canned reply.
fn exchange<C: Command>(args: &C::Args, reply: &[u8]) -> (Vec<u8>, Result<C::Response, NanonisTcpError>) {
    let mut buf = Vec::new();
    let fsm = NanonisTcpFsm::<C>::new(&mut buf, args).unwrap();
    let request = fsm.bytes_to_write().to_vec();
    let mut fsm = fsm.prepare_for_header().unwrap();
    let room = fsm.bytes_to_read_mut();
    assert_eq!(room.len(), 40);
    room.copy_from_slice(&reply[..40]);
    let mut fsm = match fsm.prepare_for_body() {
        Ok(f) => f,
        Err(e) => return (request, Err(e)),
    };
    let room = fsm.bytes_to_read_mut();
    room.copy_from_slice(&reply[40..]);
    (request, fsm.parse_response())
}

#[test]
fn header_for_command() {
    let h = Header::new_for_command::<Action>(8);
    let mut out = Vec::new();
    h.codec_write(&mut out);
    assert_eq!(out, header_bytes("Scan.Action", 8));
    assert_eq!(h.codec_len(), 40);
    assert_eq!(h.body_len, 8);
    assert_eq!(h.response, 1);
    let h2 = Header::new("Bias.Set", 4);
    let mut out2 = Vec::new();
    h2.codec_write(&mut out2);
    assert_eq!(out2, header_bytes("Bias.Set", 4));
    let (back, end) = Header::codec_read(&out, 0).unwrap();
    assert!(back.name.text_eq("Scan.Action"));
    assert_eq!(back.body_len, 8);
    assert_eq!(end, 40);
}

#[test]
fn footer_reading() {
    let (f, end) = Footer::codec_read(&ok_footer(), 0).unwrap();
    assert_eq!(f.description, None);
    assert_eq!(end, 8);
    assert!(f.into_result().is_ok());
    let bytes = [0, 0, 0, 5, 0, 0, 0, 4, b'a', b'\n', b'\r', b'b'];
    let (f, end) = Footer::codec_read(&bytes, 0).unwrap();
    assert_eq!(f.description.as_deref(), Some("a  b"));
    assert_eq!(end, 12);
    assert_eq!(f.into_result(), Err(NanonisTcpError::Api(String::from("a  b"))));
    assert_eq!(Footer::codec_read(&[0, 0, 0, 0, 0], 0).err(), Some(IoError::UnexpectedEof));
}

#[test]
fn newlines_become_spaces() {
    let mut s = String::from("line1\nline2\r\nend é");
    newline_replace(&mut s);
    assert_eq!(s, "line1 line2  end é");
}

#[test]
fn request_layout() {
    let args = ActionArgs { action: ActionType::Stop, dir: ScanDir::Up };
    let mut buf = vec![7u8; 3];
    let fsm = NanonisTcpFsm::<Action>::new(&mut buf, &args).unwrap();
    let mut expected = header_bytes("Scan.Action", 6);
    expected.extend_from_slice(&[0, 1, 0, 0, 0, 1]);
    assert_eq!(fsm.bytes_to_write(), &expected[..]);
}

#[test]
fn timeout_request() {
    let mut buf = Vec::new();
    let fsm = NanonisTcpFsm::<nanonis_tcp::commands::scan::WaitEndOfLine>::new(
        &mut buf,
        &WaitEndOfLineArgs { timeout: None },
    )
    .unwrap();
    assert_eq!(&fsm.bytes_to_write()[40..], &[0xff, 0xff, 0xff, 0xff]);
}

#[test]
fn full_exchange_returns_response() {
    let mut reply = header_bytes("Scan.StatusGet", 12);
    reply.extend_from_slice(&[0, 0, 0, 1]);
    reply.extend_from_slice(&ok_footer());
    let (request, resp) = exchange::<StatusGet>(&(), &reply);
    assert_eq!(request, header_bytes("Scan.StatusGet", 0));
    assert!(resp.unwrap().running);
}

#[test]
fn exchange_with_array_response() {
    let mut body = vec![0, 0, 0, 2, 0, 0, 0, 3, 0, 0, 0, 9, 0, 0, 0, 0x40, 0, 0, 0, 0x20];
    body.extend_from_slice(&ok_footer());
    let mut reply = header_bytes("Scan.BufferGet", body.len() as i32);
    reply.extend_from_slice(&body);
    let (_, resp) = exchange::<BufferGet>(&(), &reply);
    let resp = resp.unwrap();
    assert_eq!(resp.channel_indexes, vec![3, 9]);
    assert_eq!(resp.px_per_line, 64);
    assert_eq!(resp.num_lines, 32);
}

#[test]
fn reply_for_another_command_is_refused() {
    let mut reply = header_bytes("Scan.FrameGet", 8);
    reply.extend_from_slice(&ok_footer());
    let (_, resp) = exchange::<StatusGet>(&(), &reply);
    match resp {
        Err(NanonisTcpError::Codec(CodecError::NameMismatch { expected, received })) => {
            assert_eq!(expected, "Scan.StatusGet");
            assert_eq!(received, "Scan.FrameGet");
        }
        other => panic!("unexpected {:?}", other),
    }
}

#[test]
fn trailing_bytes_are_refused() {
    let mut reply = header_bytes("Scan.StatusGet", 14);
    reply.extend_from_slice(&[0, 0, 0, 1]);
    reply.extend_from_slice(&ok_footer());
    reply.extend_from_slice(&[1, 2]);
    let (_, resp) = exchange::<StatusGet>(&(), &reply);
    assert_eq!(
        resp.err(),
        Some(NanonisTcpError::Codec(CodecError::ReadLenMismatch { expected: 14, parsed: 12 }))
    );
}

#[test]
fn reported_error_wins() {
    let mut body = vec![0, 0, 0, 1];
    body.extend_from_slice(&[0, 0, 0, 3, 0, 0, 0, 4, b'b', b'a', b'd', b'\n']);
    let mut reply = header_bytes("Scan.StatusGet", body.len() as i32);
    reply.extend_from_slice(&body);
    let (_, resp) = exchange::<StatusGet>(&(), &reply);
    assert_eq!(resp.err(), Some(NanonisTcpError::Api(String::from("bad "))));
}

#[test]
fn truncated_body_is_an_io_error() {
    let mut reply = header_bytes("Scan.StatusGet", 6);
    reply.extend_from_slice(&[0, 0, 0, 1, 0, 0]);
    let (_, resp) = exchange::<StatusGet>(&(), &reply);
    assert_eq!(resp.err(), Some(NanonisTcpError::Io(IoError::UnexpectedEof)));
}

#[test]
fn names_get_exchange() {
    let mut body = vec![0, 0, 0, 10, 0, 0, 0, 1, 0, 0, 0, 2, b'I', b'n'];
    body.extend_from_slice(&ok_footer());
    let mut reply = header_bytes("Signals.NamesGet", body.len() as i32);
    reply.extend_from_slice(&body);
    let (_, resp) = exchange::<NamesGet>(&(), &reply);
    assert_eq!(resp.unwrap().names, vec![String::from("In")]);
}

#[test]
fn frame_data_skipped_for_empty_channel() {
    let bytes = [0, 0, 0, 0, 0, 0, 0, 1];
    let (r, end) = FrameDataGrabResponse::codec_read(&bytes, 0).unwrap();
    assert_eq!(r.channel_name, "");
    assert_eq!(r.scan_data.size, [0, 0]);
    assert_eq!(r.scan_dir, ScanDir::Up);
    assert_eq!(end, 8);
}

#[test]
fn frame_data_read_for_named_channel() {
    let mut bytes = vec![0, 0, 0, 1, b'Z', 0, 0, 0, 1, 0, 0, 0, 2];
    bytes.extend_from_slice(&1.0f32.to_be_bytes());
    bytes.extend_from_slice(&2.0f32.to_be_bytes());
    bytes.extend_from_slice(&[0, 0, 0, 0]);
    let (r, end) = FrameDataGrabResponse::codec_read(&bytes, 0).unwrap();
    assert_eq!(r.channel_name, "Z");
    assert_eq!(r.scan_data.size, [1, 2]);
    assert_eq!(r.scan_data.data, vec![1.0f32.to_bits(), 2.0f32.to_bits()]);
    assert_eq!(r.scan_dir, ScanDir::Down);
    assert_eq!(end, bytes.len());
    let (plain, _) = <ScanFrameDataGrab as Command>::Response::codec_read(&bytes, 0).unwrap();
    assert_eq!(plain.scan_dir, 0);
    let _ = FrameDataGrab;
}

#[test]
fn withdraw_arguments() {
    let args = zctrl::WithdrawArgs { wait_finished: true, timeout: Some(250) };
    let mut out = Vec::new();
    args.codec_write(&mut out);
    assert_eq!(out, vec![0, 0, 0, 1, 0, 0, 0, 250]);
    assert_eq!(args.codec_len(), 8);
}

#[test]
fn scan_props_with_parameter_table() {
    let mut bytes = vec![0, 0, 0, 1, 0, 0, 0, 0, 0, 0, 0, 2];
    bytes.extend_from_slice(&[0, 0, 0, 1, b's', 0, 0, 0, 0]);
    bytes.extend_from_slice(&[0, 0, 0, 5, 0, 0, 0, 1, 0, 0, 0, 1, b'm']);
    bytes.extend_from_slice(&[0, 0, 0, 1, 0, 0, 0, 1]);
    bytes.extend_from_slice(&[0, 0, 0, 1, 0, 0, 0, 2, 0, 0, 0, 1, b'a', 0, 0, 0, 1, b'b']);
    let (r, end) = ScanPropsGetResponse::codec_read(&bytes, 0).unwrap();
    assert_eq!(end, bytes.len());
    assert_eq!(r.continuous_scan, 1);
    assert_eq!(r.autosave, 2);
    assert_eq!(r.series_name, "s");
    assert_eq!(r.comment, "");
    assert_eq!(r.modules_names, vec![String::from("m")]);
    assert_eq!(r.params_per_mod, vec![1]);
    assert_eq!(r.parameters.size, [1, 2]);
    assert_eq!(r.parameters.data, vec![String::from("a"), String::from("b")]);
}

#[test]
fn negative_body_length_is_flagged_only_for_own_name() {
    let mut buf = Vec::new();
    let fsm = NanonisTcpFsm::<StatusGet>::new(&mut buf, &()).unwrap();
    let mut fsm = fsm.prepare_for_header().unwrap();
    fsm.bytes_to_read_mut().copy_from_slice(&header_bytes("Scan.StatusGet", -1));
    assert!(!fsm.reply_header_acceptable());
    fsm.bytes_to_read_mut().copy_from_slice(&header_bytes("Scan.FrameGet", -1));
    assert!(fsm.reply_header_acceptable());
    fsm.bytes_to_read_mut().copy_from_slice(&header_bytes("Scan.StatusGet", 12));
    assert!(fsm.reply_header_acceptable());
}
