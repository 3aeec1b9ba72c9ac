use flate2::write::ZlibEncoder;
use flate2::Compression;
use mc_console_client::frame::{resolve_inflated, unwrap_frame, FrameError};
use mc_console_client::protocol::client::{Client, Notice, Status};
use mc_console_client::protocol::text::strip_text;
use mc_console_client::reassembly::Reassembler;
use mc_console_client::util::transfer_var::uint2var_int;
use std::io::Write;

fn frame_of(payload: &[u8]) -> Vec<u8> {
    let mut f = uint2var_int(vec![payload.len() as i32]);
    f.extend_from_slice(payload);
    f
}

fn zlib(data: &[u8]) -> Vec<u8> {
    let mut e = ZlibEncoder::new(Vec::new(), Compression::default());
    e.write_all(data).unwrap();
    e.finish().unwrap()
}

fn sample_frames() -> Vec<Vec<u8>> {
    vec![
        frame_of(&[0x23, 1, 2, 3, 4, 5, 6, 7, 8]),
        frame_of(&[0x00]),
        frame_of(&[0x07, 0x00]),
        frame_of(&vec![0x45; 300]),
        frame_of(&[]),
        frame_of(&vec![0x11; 130]),
        frame_of(&[0x01, 0x02, 0x03, 0x04]),
    ]
}

fn feed(chunks: Vec<Vec<u8>>) -> (Vec<Vec<u8>>, Reassembler) {
    let mut r = Reassembler::new();
    let mut out = Vec::new();
    for c in chunks {
        out.extend(r.consume(c));
    }
    (out, r)
}

#[test]
fn reassembly_recovers_frames_for_any_chunking() {
    let frames = sample_frames();
    let stream: Vec<u8> = frames.concat();
    for size in [1usize, 2, 3, 4, 5, 7, 64, 129, 1000] {
        let chunks: Vec<Vec<u8>> = stream.chunks(size).map(|c| c.to_vec()).collect();
        let (out, r) = feed(chunks);
        assert_eq!(out, frames, "chunk size {}", size);
        assert!(r.pending().is_empty());
        assert_eq!(r.still_needed(), 0);
    }
    let (out, _) = feed(vec![stream.clone()]);
    assert_eq!(out, frames);
}

#[test]
fn reassembly_holds_a_short_tail() {
    let (out, r) = feed(vec![vec![0x02, 0x07, 0x00]]);
    assert!(out.is_empty());
    assert_eq!(r.pending(), &vec![0x02, 0x07, 0x00]);
    let (out, _) = feed(vec![vec![0x02, 0x07, 0x00], vec![0x01, 0x09]]);
    assert_eq!(out, vec![vec![0x02, 0x07, 0x00]]);
}

#[test]
fn partial_length_prefix_is_completed() {
    let body = vec![0x45u8; 300];
    let frame = frame_of(&body);
    assert_eq!(&frame[0..2], &[0xAC, 0x02]);
    let mut r = Reassembler::new();
    let mut first = vec![0x03, 0x12, 0x01, 0x02];
    first.push(frame[0]);
    let out = r.consume(first);
    assert_eq!(out, vec![vec![0x03, 0x12, 0x01, 0x02]]);
    assert_eq!(r.pending(), &vec![0xAC]);
    let out = r.consume(frame[1..100].to_vec());
    assert!(out.is_empty());
    assert_eq!(r.still_needed(), 302 - 100);
    let out = r.consume(frame[100..].to_vec());
    assert_eq!(out, vec![frame]);
    assert_eq!(r.still_needed(), 0);
}

#[test]
fn unwrap_without_compression() {
    let h = unwrap_frame(&vec![0x03, 0x23, 0xAA, 0xBB], None).unwrap();
    assert_eq!(h.packet_id, 0x23);
    assert_eq!(h.body, vec![0xAA, 0xBB]);
    let h = unwrap_frame(&vec![0x03, 0x23, 0xAA, 0xBB], Some(-1)).unwrap();
    assert_eq!(h.packet_id, 0x23);
    assert!(matches!(
        unwrap_frame(&vec![0x04, 0x23, 0xAA, 0xBB], None),
        Err(FrameError::FrameLengthMismatch)
    ));
}

#[test]
fn compression_contract() {
    let mut data = vec![0x23u8];
    data.extend(vec![0x5Au8; 299]);
    assert_eq!(data.len(), 300);
    let mut payload = uint2var_int(vec![300]);
    payload.extend(zlib(&data));
    let frame = frame_of(&payload);
    let h = unwrap_frame(&frame, Some(256)).unwrap();
    assert_eq!(h.packet_id, 0x23);
    assert_eq!(h.body, vec![0x5Au8; 299]);

    let mut payload = vec![0x00, 0x17];
    payload.extend(vec![0x61u8; 49]);
    let frame = frame_of(&payload);
    let h = unwrap_frame(&frame, Some(256)).unwrap();
    assert_eq!(h.packet_id, 0x17);
    assert_eq!(h.body, vec![0x61u8; 49]);
}

#[test]
fn compression_errors() {
    let mut data = vec![0x23u8];
    data.extend(vec![0x5Au8; 299]);
    let mut payload = uint2var_int(vec![301]);
    payload.extend(zlib(&data));
    assert!(matches!(
        unwrap_frame(&frame_of(&payload), Some(256)),
        Err(FrameError::DecompressedLengthMismatch)
    ));
    let payload = vec![0x05, 0x01, 0x02, 0x03];
    assert!(matches!(
        unwrap_frame(&frame_of(&payload), Some(0)),
        Err(FrameError::DecompressionFailure)
    ));
    assert!(matches!(
        unwrap_frame(&vec![0x80, 0x80, 0x80, 0x80, 0x80, 0x01], None),
        Err(FrameError::VarIntOverflow)
    ));
    assert!(matches!(
        unwrap_frame(&vec![0x03, 0x80, 0x02, 0x00], None),
        Err(FrameError::PacketIdOutOfRange)
    ));
    assert!(matches!(unwrap_frame(&vec![0x80], None), Err(FrameError::FrameLengthMismatch)));
}

#[test]
fn resolve_inflated_checks_the_declared_length() {
    let h = resolve_inflated(3, Some(vec![0x12, 0x01, 0x02])).unwrap();
    assert_eq!(h.packet_id, 0x12);
    assert_eq!(h.body, vec![0x01, 0x02]);
    assert!(matches!(resolve_inflated(4, Some(vec![0x12, 0x01, 0x02])), Err(FrameError::DecompressedLengthMismatch)));
    assert!(matches!(resolve_inflated(4, None), Err(FrameError::DecompressionFailure)));
}

fn login_success_body(name: &str) -> Vec<u8> {
    let mut body: Vec<u8> = (0u8..16).collect();
    body.push(name.len() as u8);
    body.extend(name.as_bytes());
    body
}

#[test]
fn end_to_end_session() {
    let mut client = Client::new("Karenina".to_string(), 763, "en_US".to_string());
    assert_eq!(client.status(), Status::Handshake);

    let outcomes = client.receive(frame_of(&[0x03, 0x80, 0x02]));
    assert_eq!(outcomes.len(), 1);
    assert!(outcomes[0].replies.is_empty());
    assert_eq!(client.status(), Status::Login);
    assert!(client.is_compressed());
    assert_eq!(client.threshold(), Some(256));

    let mut payload = vec![0x00, 0x02];
    payload.extend(login_success_body("Karenina"));
    let outcomes = client.receive(frame_of(&payload));
    assert_eq!(outcomes.len(), 1);
    assert!(matches!(&outcomes[0].notice, Notice::LoggedIn { as_requested: true, .. }));
    assert_eq!(client.status(), Status::Play);
    assert_eq!(client.uuid(), Some(&(0u8..16).collect::<Vec<u8>>()));
    assert_eq!(client.confirmed_name(), Some(&"Karenina".to_string()));

    let id = 0x00000000071B44F3u64.to_be_bytes();
    let mut payload = vec![0x00, 0x23];
    payload.extend(id);
    let outcomes = client.receive(frame_of(&payload));
    assert_eq!(outcomes.len(), 1);
    assert_eq!(
        outcomes[0].replies,
        vec![vec![0x0A, 0x00, 0x12, 0x00, 0x00, 0x00, 0x00, 0x07, 0x1B, 0x44, 0xF3]]
    );
}

#[test]
fn play_ids_are_ignored_during_login() {
    let mut client = Client::new("a".to_string(), 763, "en_US".to_string());
    client.receive(frame_of(&[0x03, 0x80, 0x02]));
    assert_eq!(client.status(), Status::Login);
    let outcomes = client.receive(frame_of(&[0x00, 0x23, 1, 2, 3, 4, 5, 6, 7, 8]));
    assert_eq!(outcomes.len(), 1);
    assert!(outcomes[0].replies.is_empty());
    assert!(matches!(outcomes[0].notice, Notice::Ignored(0x23)));
    assert_eq!(client.status(), Status::Login);
}

#[test]
fn handshake_ignores_everything_but_set_compression() {
    let mut client = Client::new("a".to_string(), 763, "en_US".to_string());
    let mut payload = vec![0x02];
    payload.extend(login_success_body("a"));
    let outcomes = client.receive(frame_of(&payload));
    assert!(matches!(outcomes[0].notice, Notice::Ignored(0x02)));
    assert_eq!(client.status(), Status::Handshake);
    assert!(!client.is_compressed());
}

#[test]
fn negative_threshold_keeps_compression_off() {
    let mut client = Client::new("a".to_string(), 763, "en_US".to_string());
    client.receive(frame_of(&[0x03, 0xFF, 0xFF, 0xFF, 0xFF, 0x0F]));
    assert_eq!(client.status(), Status::Login);
    assert!(!client.is_compressed());
    let outcomes = client.receive(frame_of(&[0x04, 0x09, 0x01, 0x61, 0x01]));
    assert_eq!(outcomes[0].replies, vec![vec![0x03, 0x02, 0x09, 0x00]]);
}

fn in_play() -> Client {
    let mut client = Client::new("Karenina".to_string(), 763, "en_US".to_string());
    client.receive(frame_of(&[0x03, 0x80, 0x02]));
    let mut payload = vec![0x00, 0x02];
    payload.extend(login_success_body("Other"));
    let outcomes = client.receive(frame_of(&payload));
    assert!(matches!(&outcomes[0].notice, Notice::LoggedIn { as_requested: false, .. }));
    client
}

#[test]
fn play_handlers_store_and_answer() {
    let mut client = in_play();
    let mut payload = vec![0x00, 0x3C];
    payload.extend(3.5f64.to_be_bytes());
    payload.extend(64.0f64.to_be_bytes());
    payload.extend((-3.5f64).to_be_bytes());
    payload.extend([0u8; 8]);
    payload.push(0x00);
    payload.push(0x0e);
    let outcomes = client.receive(frame_of(&payload));
    assert_eq!(outcomes[0].replies, vec![vec![0x03, 0x00, 0x00, 0x0e]]);
    let p = client.get_position().unwrap();
    assert_eq!(f64::from_bits(p.x), 3.5);
    assert_eq!(f64::from_bits(p.y), 64.0);

    let mut payload = vec![0x00, 0x5E];
    payload.extend(48000i64.to_be_bytes());
    payload.extend(6000i64.to_be_bytes());
    let outcomes = client.receive(frame_of(&payload));
    assert!(matches!(outcomes[0].notice, Notice::TimeUpdated { tick_delta: None }));
    let mut payload = vec![0x00, 0x5E];
    payload.extend(48020i64.to_be_bytes());
    payload.extend(6020i64.to_be_bytes());
    let outcomes = client.receive(frame_of(&payload));
    assert!(matches!(outcomes[0].notice, Notice::TimeUpdated { tick_delta: Some(20) }));
    let t = client.get_time().unwrap();
    assert_eq!((t.world_age, t.time_of_day, t.day), (48020, 6020, 2));

    client.receive(frame_of(&[0x00, 0x57, 0x41, 0xa0, 0x00, 0x00, 0x14, 0x40, 0xa0, 0x00, 0x00]));
    let h = client.get_health().unwrap();
    assert_eq!((f32::from_bits(h.health), h.food, f32::from_bits(h.saturation)), (20.0, 20, 5.0));

    client.receive(frame_of(&[0x00, 0x56, 0x3e, 0x30, 0x8d, 0x2f, 0x0b, 0xc8, 0x01]));
    let e = client.get_exp().unwrap();
    assert_eq!((e.level, e.total), (11, 200));

    client.receive(frame_of(&[0x00, 0x0C, 0x02, 0x01]));
    assert_eq!(client.get_difficulty(), Some(&("normal".to_string(), true)));

    client.receive(frame_of(&[0x00, 0x45, 0x02, 0x68, 0x69, 0x00, 0x01]));
    let s = client.get_server_data().unwrap();
    assert_eq!(s.motd, "hi");
    assert!(s.enforce_chat);
}

#[test]
fn motd_is_stored_without_its_text_wrapper() {
    let mut client = in_play();
    let motd = b"{\"text\":\"A Minecraft Server\"}";
    let mut payload = vec![0x00, 0x45, motd.len() as u8];
    payload.extend(motd);
    payload.extend([0x00, 0x01]);
    let outcomes = client.receive(frame_of(&payload));
    assert!(matches!(outcomes[0].notice, Notice::ServerData));
    assert_eq!(client.get_server_data().unwrap().motd, "A Minecraft Server");
}

#[test]
fn strip_text_removes_every_wrapper() {
    let raw = b"{\"text\":\"a\"}{\"text\":\"b\"} c".to_vec();
    assert_eq!(strip_text(&raw), b"ab c".to_vec());
    assert_eq!(strip_text(&b"plain".to_vec()), b"plain".to_vec());
}

#[test]
fn brand_is_answered_once() {
    let mut client = in_play();
    let mut payload = vec![0x00, 0x17, 0x0f];
    payload.extend(b"minecraft:brand");
    payload.push(0x06);
    payload.extend(b"Spigot");
    let outcomes = client.receive(frame_of(&payload));
    assert_eq!(outcomes[0].replies.len(), 2);
    assert_eq!(outcomes[0].replies[0][0..4], [0x32, 0x00, 0x0d, 0x0f]);
    assert_eq!(outcomes[0].replies[1], vec![0x0f, 0x00, 0x08, 0x05, 0x65, 0x6e, 0x5f, 0x55, 0x53, 0x08, 0x00, 0x01, 0x41, 0x00, 0x00, 0x01]);
    let outcomes = client.receive(frame_of(&payload));
    assert!(outcomes[0].replies.is_empty());
}

#[test]
fn bad_frames_are_dropped_and_the_session_goes_on() {
    let mut client = in_play();
    let mut stream = frame_of(&[0x05, 0x01, 0x02, 0x03]);
    stream.extend(frame_of(&[0x00, 0x3C, 0x01]));
    stream.extend(frame_of(&[0x00, 0x23, 0x09, 0x09, 0x09, 0x09]));
    let outcomes = client.receive(stream);
    assert_eq!(outcomes.len(), 3);
    assert!(matches!(outcomes[0].notice, Notice::Dropped(FrameError::DecompressionFailure)));
    assert!(matches!(outcomes[1].notice, Notice::Malformed(0x3C)));
    assert_eq!(outcomes[2].replies, vec![vec![0x06, 0x00, 0x12, 0x09, 0x09, 0x09, 0x09]]);
}

#[test]
fn reset_starts_over() {
    let mut client = in_play();
    client.reset();
    assert_eq!(client.status(), Status::Handshake);
    assert!(!client.is_compressed());
    assert_eq!(client.uuid(), None);
    assert_eq!(client.username(), "Karenina");
}

#[test]
fn outbound_frames_follow_compression() {
    let client = in_play();
    assert_eq!(client.respawn(), vec![0x03, 0x00, 0x07, 0x00]);
    let opening = Client::new("ab".to_string(), 763, "en_US".to_string())
        .opening_frames("127.0.0.1".to_string(), 25565);
    assert_eq!(opening[0][0..4], [0x10, 0x00, 0xFB, 0x05]);
    assert_eq!(opening[1], vec![0x05, 0x00, 0x02, 0x61, 0x62, 0x00]);
    let chat = client.chat_command("list".to_string(), 0);
    assert_eq!(chat[0..8], [0x1c, 0x00, 0x04, 0x04, 0x6c, 0x69, 0x73, 0x74]);
}

#[test]
fn frame_split_inside_its_length_prefix_across_receives() {
    let mut client = in_play();
    let g = frame_of(&[0x00, 0x23, 1, 2, 3, 4]);
    let mut long = vec![0x00, 0x23];
    long.extend(vec![7u8; 400]);
    let f = frame_of(&long);
    assert_eq!(&f[0..2], &[0x92, 0x03]);
    let h = frame_of(&[0x00, 0x23, 5, 6, 7, 8]);
    let mut c1 = g.clone();
    c1.push(f[0]);
    let mut c2 = f[1..].to_vec();
    c2.extend(h.clone());
    let out1 = client.receive(c1);
    assert_eq!(out1.len(), 1);
    assert_eq!(out1[0].replies, vec![vec![0x06, 0x00, 0x12, 1, 2, 3, 4]]);
    let out2 = client.receive(c2);
    assert_eq!(out2.len(), 2);
    assert_eq!(out2[0].replies[0].len(), 2 + 402);
    assert_eq!(&out2[0].replies[0][0..4], &[0x92, 0x03, 0x00, 0x12]);
    assert_eq!(out2[1].replies, vec![vec![0x06, 0x00, 0x12, 5, 6, 7, 8]]);
}
