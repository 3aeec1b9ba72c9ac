use mc_console_client::client::msg::login::login_plugin_response as early_plugin_response;
use mc_console_client::client::msg::play::{confirm_tp, keep_live as early_keep_alive, respawn};
use mc_console_client::msg::handshake;
use mc_console_client::msg::login_mod_check::mc_login_mod_check;
use mc_console_client::msg::login_start::mc_login_start;
use mc_console_client::protocol::msg::login::{login_plugin_response, login_start};
use mc_console_client::protocol::msg::play::{
    chat_command, chat_message, client_information, keep_live, plugin_message,
};

#[test]
fn login_plugin_response_test_new() {
    let id: u8 = 0x01;
    let check: bool = false;
    let result = early_plugin_response::new(id, check);
    //0400020000
    let expected: Vec<u8> = vec![0x04, 0x00, 0x02, 0x01, 0x00];
    assert_eq!(result, expected);
}

#[test]
fn test_mc_confirmed_tp_compress() {
    let id = 0x0e;
    let confirmed_tp_pkt = confirm_tp::new(id, true);
    // 0300000e
    assert_eq!(confirmed_tp_pkt, vec![0x03, 0x00, 0x00, 0x0e]);
}

#[test]
fn test_mc_confirmed_tp_no_compress() {
    let id = 0x0e;
    let confirmed_tp_pkt = confirm_tp::new(id, false);
    // 0100000e
    assert_eq!(confirmed_tp_pkt, vec![0x02, 0x00, 0x0e]);
}

#[test]
fn test_mc_keep_alive() {
    let id: Vec<u8> = vec![0x00, 0x00, 0x00, 0x00, 0x07, 0x1B, 0x44, 0xF3];
    let result = early_keep_alive::new(id);
    //0a001200000000071b44f3
    let expected: Vec<u8> = vec![
        0x0A, 0x00, 0x12, 0x00, 0x00, 0x00, 0x00, 0x07, 0x1B, 0x44, 0xF3,
    ];
    assert_eq!(result, expected);
}

#[test]
fn test_mc_respawn_compress() {
    let respawn_pkt = respawn::new(true);
    assert_eq!(respawn_pkt, vec![0x03, 0x00, 0x07, 0x00]);
}

#[test]
fn test_mc_respawn_no_compress() {
    let respawn_pkt = respawn::new(false);
    assert_eq!(respawn_pkt, vec![0x02, 0x07, 0x00]);
}

#[test]
fn test_new_compress() {
    let id: u8 = 0x01;
    let check: bool = false;
    let result = login_plugin_response::new(id, check, true);
    //0400020000
    let expected: Vec<u8> = vec![0x04, 0x00, 0x02, 0x01, 0x00];
    assert_eq!(result, expected);
}

#[test]
fn test_new_no_compress() {
    let id: u8 = 0x01;
    let check: bool = false;
    let result = login_plugin_response::new(id, check, false);
    //03000200
    let expected: Vec<u8> = vec![0x03, 0x02, 0x01, 0x00];
    assert_eq!(result, expected);
}

#[test]
fn login_plugin_response_acknowledged() {
    assert_eq!(login_plugin_response::new(0x07, true, false), vec![0x03, 0x02, 0x07, 0x01]);
    assert_eq!(mc_login_mod_check(0x07, true), vec![0x04, 0x00, 0x02, 0x07, 0x01]);
}

#[test]
fn test_new_not_uuid() {
    let username = "test".to_string();
    let login_start_pkt = login_start::new(username, vec![]);
    // 0700047465737400
    assert_eq!(
        login_start_pkt,
        vec![0x07, 0x00, 0x04, 0x74, 0x65, 0x73, 0x74, 0x00]
    );
}

#[test]
fn test_new_uuid() {
    let username = "Karenina-na".to_string();
    let uuid = vec![
        0x65, 0x63, 0x2e, 0x9d, 0x20, 0xad, 0x47, 0x57, 0x95, 0x90, 0x3a, 0xd8, 0x1c, 0x2f,
        0x28, 0xe6,
    ];
    let login_start_pkt = login_start::new(username, uuid);
    assert_eq!(
        login_start_pkt,
        vec![
            0x1e, 0x00, 0x0b, 0x4b, 0x61, 0x72, 0x65, 0x6e, 0x69, 0x6e, 0x61, 0x2d, 0x6e, 0x61,
            0x01, 0x65, 0x63, 0x2e, 0x9d, 0x20, 0xad, 0x47, 0x57, 0x95, 0x90, 0x3a, 0xd8, 0x1c,
            0x2f, 0x28, 0xe6
        ]
    );
}

#[test]
fn early_login_start_carries_fixed_uuid() {
    let pkt = mc_login_start("ab");
    assert_eq!(
        pkt,
        vec![
            0x15, 0x00, 0x02, 0x61, 0x62, 0x01, 0x00, 0x00, 0x00, 0x00, 0x00, 0x00, 0x30, 0x08,
            0x99, 0x9a, 0x57, 0x49, 0x37, 0x46, 0x25, 0x3f
        ]
    );
}

#[test]
fn chat_command_test_mc_chat_message_compress() {
    let command = "ping".to_string();
    let pkt = chat_command::new(command, chrono::Utc::now().timestamp(), false);
    let front = pkt[0..7].to_vec();
    let back = pkt[15..pkt.len()].to_vec();
    assert_eq!(front, vec![0x1b, 0x04, 0x04, 0x70, 0x69, 0x6e, 0x67]);
    assert_eq!(
        back,
        vec![0x00, 0x00, 0x00, 0x00, 0x00, 0x00, 0x00, 0x00, 0x00, 0x00, 0x00, 0x00, 0x00]
    );
}

#[test]
fn chat_message_test_mc_chat_message_compress() {
    let msg = "nihao".to_string();
    let chat_message_pkt = chat_message::new(msg, chrono::Utc::now().timestamp(), true);
    let front = chat_message_pkt[0..9].to_vec();
    let back = chat_message_pkt[17..chat_message_pkt.len()].to_vec();
    assert_eq!(
        front,
        vec![0x1d, 0x00, 0x05, 0x05, 0x6e, 0x69, 0x68, 0x61, 0x6f]
    );
    assert_eq!(
        back,
        vec![0x00, 0x00, 0x00, 0x00, 0x00, 0x00, 0x00, 0x00, 0x00, 0x00, 0x00, 0x00, 0x00]
    );
}

#[test]
fn chat_timestamp_is_big_endian() {
    let pkt = chat_message::new("hi".to_string(), 0x0102030405060708, false);
    assert_eq!(&pkt[5..13], &[0x01, 0x02, 0x03, 0x04, 0x05, 0x06, 0x07, 0x08]);
    let pkt = chat_command::new("tp".to_string(), -2, true);
    assert_eq!(&pkt[6..14], &[0xFF, 0xFF, 0xFF, 0xFF, 0xFF, 0xFF, 0xFF, 0xFE]);
}

#[test]
fn long_text_gets_a_two_byte_length() {
    let text = "a".repeat(200);
    let pkt = chat_message::new(text, 0, false);
    assert_eq!(pkt.len(), 2 + 1 + 2 + 200 + 8 + 13);
    assert_eq!(&pkt[0..5], &[0xE0, 0x01, 0x05, 0xC8, 0x01]);
}

#[test]
fn test_client_information_compressed() {
    let locate = String::from("en_US");
    let view_distance = 8;
    let chat_mod = 0;
    let enable_chat_color = true;
    let compress = false;
    let pkt = client_information::new(locate, view_distance, chat_mod, enable_chat_color, compress);
    assert_eq!(
        pkt,
        vec![
            0x0e, 0x08, 0x05, 0x65, 0x6e, 0x5f, 0x55, 0x53, 0x08, 0x00, 0x01, 0x41, 0x00, 0x00,
            0x01
        ]
    );
}

#[test]
fn test_client_information_no_compress() {
    let locate = String::from("en_US");
    let view_distance = 8;
    let chat_mod = 0;
    let enable_chat_color = true;
    let compress = true;
    let pkt = client_information::new(locate, view_distance, chat_mod, enable_chat_color, compress);
    assert_eq!(
        pkt,
        vec![
            0x0f, 0x00, 0x08, 0x05, 0x65, 0x6e, 0x5f, 0x55, 0x53, 0x08, 0x00, 0x01, 0x41, 0x00,
            0x00, 0x01
        ]
    );
}

#[test]
fn test_mc_keep_alive_compress() {
    let id: Vec<u8> = vec![0x00, 0x00, 0x00, 0x00, 0x07, 0x1B, 0x44, 0xF3];
    let result = keep_live::new(id, true);
    //0a001200000000071b44f3
    let expected: Vec<u8> = vec![
        0x0A, 0x00, 0x12, 0x00, 0x00, 0x00, 0x00, 0x07, 0x1B, 0x44, 0xF3,
    ];
    assert_eq!(result, expected);
}

#[test]
fn test_mc_keep_alive_no_compress() {
    let id: Vec<u8> = vec![0x00, 0x00, 0x00, 0x00, 0x07, 0x1B, 0x44, 0xF3];
    let result = keep_live::new(id, false);
    //0a001200000000071b44f3
    let expected: Vec<u8> = vec![0x09, 0x12, 0x00, 0x00, 0x00, 0x00, 0x07, 0x1B, 0x44, 0xF3];
    assert_eq!(result, expected);
}

#[test]
fn plugin_message_test_new() {
    let channel = "minecraft:brand".to_string();
    let data = "Minecraft-Console-Client/1.20.2".to_string();
    let compress = true;
    let plugin_message = plugin_message::new(channel, data, compress);
    assert_eq!(
        plugin_message,
        vec![
            0x32, 0x00, 0x0d, 0x0f, 0x6d, 0x69, 0x6e, 0x65, 0x63, 0x72, 0x61, 0x66, 0x74, 0x3a,
            0x62, 0x72, 0x61, 0x6e, 0x64, 0x1f, 0x4d, 0x69, 0x6e, 0x65, 0x63, 0x72, 0x61, 0x66,
            0x74, 0x2d, 0x43, 0x6f, 0x6e, 0x73, 0x6f, 0x6c, 0x65, 0x2d, 0x43, 0x6c, 0x69, 0x65,
            0x6e, 0x74, 0x2f, 0x31, 0x2e, 0x32, 0x30, 0x2e, 0x32
        ]
    );
}

#[test]
fn test_mc_handshake() {
    let protocol_version: i32 = 763;
    let ip: &str = "127.0.0.1";
    let port: u16 = 25565;
    let login: bool = true;

    // 1000fb05093132372e302e302e3163dd02
    let expected: Vec<u8> = vec![
        0x10, 0x00, 0xFB, 0x05, 0x09, 0x31, 0x32, 0x37, 0x2E, 0x30, 0x2E, 0x30, 0x2E, 0x31,
        0x63, 0xDD, 0x02,
    ];
    assert_eq!(handshake::new(protocol_version, ip, port, login), expected);
}

#[test]
fn handshake_for_status() {
    assert_eq!(
        handshake::new(1, "a", 1, false),
        vec![0x07, 0x00, 0x01, 0x01, 0x61, 0x00, 0x01, 0x01]
    );
}
