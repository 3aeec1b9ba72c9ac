use mc_console_client::client::parser::login::login_plugin_request as framed_plugin_request;
use mc_console_client::client::parser::play::{
    change_difficulty, keep_live, server_data as framed_server_data, sync_player_position,
};
use mc_console_client::parse;
use mc_console_client::parser;
use mc_console_client::protocol::parser::login::{login_plugin_request, login_success, set_compression};
use mc_console_client::protocol::parser::play::{
    disguised_chat_message, plugin_message, server_data, set_experience, set_health, update_time,
};

#[test]
fn login_plugin_request_test_parse_data() {
    // 4a0004002b6661627269632d6e6574776f726b696e672d6170692d76313a6561726c795
    // f726567697374726174696f6e0119616476656e747572653a726567697374657265645f61726773
    let pkt = vec![
        0x4a, 0x00, 0x04, 0x00, 0x2b, 0x66, 0x61, 0x62, 0x72, 0x69, 0x63, 0x2d, 0x6e, 0x65,
        0x74, 0x77, 0x6f, 0x72, 0x6b, 0x69, 0x6e, 0x67, 0x2d, 0x61, 0x70, 0x69, 0x2d, 0x76,
        0x31, 0x3a, 0x65, 0x61, 0x72, 0x6c, 0x79, 0x5f, 0x72, 0x65, 0x67, 0x69, 0x73, 0x74,
        0x72, 0x61, 0x74, 0x69, 0x6f, 0x6e, 0x01, 0x19, 0x61, 0x64, 0x76, 0x65, 0x6e, 0x74,
        0x75, 0x72, 0x65, 0x3a, 0x72, 0x65, 0x67, 0x69, 0x73, 0x74, 0x65, 0x72, 0x65, 0x64,
        0x5f, 0x61, 0x72, 0x67, 0x73,
    ];
    let (id, channel, data) = framed_plugin_request::parse(pkt).unwrap();
    assert_eq!(id, vec![0x00]);
    assert_eq!(channel, "fabric-networking-api-v1:early_registration");
    assert_eq!(data, "adventure:registered_args");

    let pkt = vec![
        0x00, 0x2b, 0x66, 0x61, 0x62, 0x72, 0x69, 0x63, 0x2d, 0x6e, 0x65, 0x74, 0x77, 0x6f,
        0x72, 0x6b, 0x69, 0x6e, 0x67, 0x2d, 0x61, 0x70, 0x69, 0x2d, 0x76, 0x31, 0x3a, 0x65,
        0x61, 0x72, 0x6c, 0x79, 0x5f, 0x72, 0x65, 0x67, 0x69, 0x73, 0x74, 0x72, 0x61, 0x74,
        0x69, 0x6f, 0x6e, 0x01, 0x19, 0x61, 0x64, 0x76, 0x65, 0x6e, 0x74, 0x75, 0x72, 0x65,
        0x3a, 0x72, 0x65, 0x67, 0x69, 0x73, 0x74, 0x65, 0x72, 0x65, 0x64, 0x5f, 0x61, 0x72,
        0x67, 0x73,
    ];
    let (id, channel, data) = login_plugin_request::parse(pkt).unwrap();
    assert_eq!(id, 0x00);
    assert_eq!(channel, "fabric-networking-api-v1:early_registration");
    assert_eq!(data, "adventure:registered_args");
}

#[test]
fn login_plugin_request_test_parse_no_data() {
    // 220004011d6661627269633a637573746f6d5f696e6772656469656e745f73796e6301
    let pkt = vec![
        0x22, 0x00, 0x04, 0x01, 0x1d, 0x66, 0x61, 0x62, 0x72, 0x69, 0x63, 0x3a, 0x63, 0x75,
        0x73, 0x74, 0x6f, 0x6d, 0x5f, 0x69, 0x6e, 0x67, 0x72, 0x65, 0x64, 0x69, 0x65, 0x6e,
        0x74, 0x5f, 0x73, 0x79, 0x6e, 0x63, 0x01,
    ];
    let (id, channel, data) = framed_plugin_request::parse(pkt).unwrap();
    assert_eq!(id, vec![0x01]);
    assert_eq!(channel, "fabric:custom_ingredient_sync");
    assert_eq!(data, "");

    let pkt = vec![
        0x01, 0x1d, 0x66, 0x61, 0x62, 0x72, 0x69, 0x63, 0x3a, 0x63, 0x75, 0x73, 0x74, 0x6f,
        0x6d, 0x5f, 0x69, 0x6e, 0x67, 0x72, 0x65, 0x64, 0x69, 0x65, 0x6e, 0x74, 0x5f, 0x73,
        0x79, 0x6e, 0x63, 0x01,
    ];
    let (id, channel, data) = login_plugin_request::parse(pkt).unwrap();
    assert_eq!(id, 0x01);
    assert_eq!(channel, "fabric:custom_ingredient_sync");
    assert_eq!(data, "");
}

#[test]
fn login_plugin_request_refuses_bad_input() {
    assert_eq!(login_plugin_request::parse(vec![0x01, 0x02, 0x61, 0x62, 0x00]), None);
    assert_eq!(login_plugin_request::parse(vec![0x01, 0x05, 0x61]), None);
    assert_eq!(login_plugin_request::parse(vec![]), None);
    assert_eq!(framed_plugin_request::parse(vec![0x05, 0x00, 0x04, 0x01]), None);
    let (_, channel, _) = login_plugin_request::parse(vec![0x01, 0x01, 0xE9, 0x01]).unwrap();
    assert_eq!(channel, "\u{e9}");
}

#[test]
fn change_difficulty_test_parse() {
    // 050c000000
    let pkt = vec![0x01, 0x00];
    let (difficulty, lock) = change_difficulty::parse(pkt).unwrap();
    assert_eq!(difficulty, "easy");
    assert_eq!(lock, false);

    let pkt = vec![0x04, 0x00, 0x0c, 0x01, 0x00];
    let (difficulty, lock) = parser::play::change_difficulty::parse(pkt).unwrap();
    assert_eq!(difficulty, "easy");
    assert_eq!(lock, false);
}

#[test]
fn change_difficulty_names_and_unknown_level() {
    assert_eq!(change_difficulty::parse(vec![0x03, 0x01]), Some(("hard".to_string(), true)));
    assert_eq!(change_difficulty::parse(vec![0x00, 0x00]), Some(("peaceful".to_string(), false)));
    assert_eq!(change_difficulty::parse(vec![0x04, 0x00]), None);
    assert_eq!(parser::play::change_difficulty::parse(vec![0x04, 0x00, 0x0d, 0x01, 0x00]), None);
}

#[test]
fn keep_live_test_parse() {
    // 0a002300000000071b44f3
    let pkt = vec![0x00, 0x00, 0x00, 0x00, 0x07, 0x1B, 0x44, 0xF3];
    let data = keep_live::parse(pkt);
    assert_eq!(data, vec![0x00, 0x00, 0x00, 0x00, 0x07, 0x1B, 0x44, 0xF3]);

    let pkt = vec![
        0x0A, 0x00, 0x23, 0x00, 0x00, 0x00, 0x00, 0x07, 0x1B, 0x44, 0xF3,
    ];
    let data = parse::keep_live::parse(pkt).unwrap();
    assert_eq!(data, vec![0x00, 0x00, 0x00, 0x00, 0x07, 0x1B, 0x44, 0xF3]);
}

#[test]
fn framed_keep_alive_checks_length_and_id() {
    assert_eq!(parse::keep_live::parse(vec![0x0B, 0x00, 0x23, 0x00]), None);
    assert_eq!(parse::keep_live::parse(vec![0x02, 0x00, 0x24]), None);
    assert_eq!(parse::keep_live::parse(vec![]), None);
}

#[test]
fn server_data_test_parse() {
    let pkt = vec![
        0x22, 0x00, 0x45, 0x1d, 0x7b, 0x22, 0x74, 0x65, 0x78, 0x74, 0x22, 0x3a, 0x22, 0x41,
        0x20, 0x4d, 0x69, 0x6e, 0x65, 0x63, 0x72, 0x61, 0x66, 0x74, 0x20, 0x53, 0x65, 0x72,
        0x76, 0x65, 0x72, 0x22, 0x7d, 0x00, 0x01,
    ];
    let (moto, icon, enforce_chat) = framed_server_data::parse(pkt).unwrap();
    assert_eq!(moto, "{\"text\":\"A Minecraft Server\"}");
    assert_eq!(icon, "".as_bytes());
    assert_eq!(enforce_chat, true);

    let pkt = vec![
        0x1d, 0x7b, 0x22, 0x74, 0x65, 0x78, 0x74, 0x22, 0x3a, 0x22, 0x41, 0x20, 0x4d, 0x69,
        0x6e, 0x65, 0x63, 0x72, 0x61, 0x66, 0x74, 0x20, 0x53, 0x65, 0x72, 0x76, 0x65, 0x72,
        0x22, 0x7d, 0x00, 0x01,
    ];
    let (moto, icon, enforce_chat) = server_data::parse(pkt).unwrap();
    assert_eq!(moto, "{\"text\":\"A Minecraft Server\"}");
    assert_eq!(icon, "".as_bytes());
    assert_eq!(enforce_chat, true);
}

#[test]
fn server_data_refuses_invalid_text() {
    assert_eq!(server_data::parse(vec![0x01, 0xFF, 0x00, 0x01]), None);
    assert_eq!(server_data::parse(vec![0x01, 0x61, 0x00]), None);
}

#[test]
fn sync_player_position_test_parse() {
    //24003c400c0000000000004055866666680000c00c0000000000000000000000000000000e
    let pkt: Vec<u8> = vec![
        0x40, 0x0c, 0x00, 0x00, 0x00, 0x00, 0x00, 0x00, 0x40, 0x55, 0x86, 0x66, 0x66, 0x68,
        0x00, 0x00, 0xc0, 0x0c, 0x00, 0x00, 0x00, 0x00, 0x00, 0x00, 0x00, 0x00, 0x00, 0x00,
        0x00, 0x00, 0x00, 0x00, 0x00, 0x0e,
    ];
    let (x, y, z, yaw, pitch, is_abs, tp_id) = sync_player_position::parse(pkt).unwrap();
    let res = (
        f64::from_bits(x),
        f64::from_bits(y),
        f64::from_bits(z),
        f32::from_bits(yaw),
        f32::from_bits(pitch),
        is_abs,
        tp_id,
    );
    assert_eq!(
        res,
        (
            3.5,
            86.100000001490116119384765625f64,
            -3.5,
            0f32,
            0f32,
            true,
            14
        )
    );

    let pkt: Vec<u8> = vec![
        0x24, 0x00, 0x3c, 0x40, 0x0c, 0x00, 0x00, 0x00, 0x00, 0x00, 0x00, 0x40, 0x55, 0x86,
        0x66, 0x66, 0x68, 0x00, 0x00, 0xc0, 0x0c, 0x00, 0x00, 0x00, 0x00, 0x00, 0x00, 0x00,
        0x00, 0x00, 0x00, 0x00, 0x00, 0x00, 0x00, 0x00, 0x0e,
    ];
    let (x, y, z, yaw, pitch, is_abs, tp_id) =
        parser::play::sync_player_position::parse(pkt).unwrap();
    let res = (
        f64::from_bits(x),
        f64::from_bits(y),
        f64::from_bits(z),
        f32::from_bits(yaw),
        f32::from_bits(pitch),
        is_abs,
        tp_id,
    );
    assert_eq!(
        res,
        (
            3.5,
            86.100000001490116119384765625f64,
            -3.5,
            0f32,
            0f32,
            true,
            14
        )
    );
}

#[test]
fn sync_player_position_reads_yaw_little_endian() {
    let mut pkt = vec![0u8; 34];
    pkt[24] = 0x01;
    pkt[31] = 0x80;
    pkt[32] = 0x01;
    let (_, _, _, yaw, pitch, is_abs, tp_id) = sync_player_position::parse(pkt).unwrap();
    assert_eq!(yaw, 1);
    assert_eq!(pitch, 0x8000_0000);
    assert!(!is_abs);
    assert_eq!(tp_id, 0);
    assert_eq!(sync_player_position::parse(vec![0u8; 33]), None);
}

#[test]
fn login_success_test_parse() {
    // 1c0002037f5695cc3039649caf8c000e107c14084b6172656e696e6100
    let pkt = vec![
        0x03, 0x7F, 0x56, 0x95, 0xCC, 0x30, 0x39, 0x64, 0x9C, 0xAF, 0x8C, 0x00, 0x0E, 0x10,
        0x7C, 0x14, 0x08, 0x4B, 0x61, 0x72, 0x65, 0x6E, 0x69, 0x6E, 0x61, 0x00,
    ];
    let (uuid, username) = login_success::parse(pkt).unwrap();
    assert_eq!(
        uuid,
        //037f5695cc3039649caf8c000e107c14
        vec![
            0x03, 0x7F, 0x56, 0x95, 0xCC, 0x30, 0x39, 0x64, 0x9C, 0xAF, 0x8C, 0x00, 0x0E, 0x10,
            0x7C, 0x14
        ]
    );
    assert_eq!(username, "Karenina");

    let pkt = vec![
        0x1C, 0x00, 0x02, 0x03, 0x7F, 0x56, 0x95, 0xCC, 0x30, 0x39, 0x64, 0x9C, 0xAF, 0x8C,
        0x00, 0x0E, 0x10, 0x7C, 0x14, 0x08, 0x4B, 0x61, 0x72, 0x65, 0x6E, 0x69, 0x6E, 0x61,
        0x00,
    ];
    let (uuid, username) = parse::login_success::parse(pkt).unwrap();
    assert_eq!(
        uuid,
        //037f5695cc3039649caf8c000e107c14
        vec![0x03, 0x7F, 0x56, 0x95, 0xCC, 0x30, 0x39, 0x64, 0x9C, 0xAF, 0x8C, 0x00, 0x0E, 0x10, 0x7C, 0x14]
    );
    assert_eq!(username, "Karenina");
}

#[test]
fn login_success_cut_short() {
    assert_eq!(login_success::parse(vec![0u8; 16]), None);
    let mut pkt = vec![0u8; 16];
    pkt.push(3);
    pkt.push(0x61);
    assert_eq!(login_success::parse(pkt), None);
}

#[test]
fn set_compression_test_mc_set_compression() {
    let pkt: Vec<u8> = vec![0x80, 0x02];
    assert_eq!(set_compression::parse(pkt), Some(256));

    let pkt: Vec<u8> = vec![0x03, 0x03, 0x80, 0x02];
    assert_eq!(parse::set_compression::parse(pkt), Some(256));

    let pkt: Vec<u8> = vec![0x03, 0x03, 0x80, 0x02];
    assert_eq!(parser::login::set_compression::parse(pkt), Some(256));
}

#[test]
fn set_compression_negative_and_cut() {
    assert_eq!(set_compression::parse(vec![0xFF, 0xFF, 0xFF, 0xFF, 0x0F]), Some(-1));
    assert_eq!(set_compression::parse(vec![0x80]), None);
    assert_eq!(parse::set_compression::parse(vec![0x03, 0x04, 0x80, 0x02]), None);
}

#[test]
fn disguised_chat_message_test_parse() {
    let pkt = vec![
        0x13, 0x7b, 0x22, 0x74, 0x65, 0x78, 0x74, 0x22, 0x3a, 0x22, 0x66, 0x75, 0x63, 0x6b,
        0x20, 0x79, 0x6f, 0x75, 0x22, 0x7d, 0x02, 0x11, 0x7b, 0x22, 0x74, 0x65, 0x78, 0x74,
        0x22, 0x3a, 0x22, 0x53, 0x65, 0x72, 0x76, 0x65, 0x72, 0x22, 0x7d, 0x01, 0x04, 0x74,
        0x65, 0x78, 0x74,
    ];
    let (msg, chat_type, chat_type_name, has_target_name, target_name) =
        disguised_chat_message::parse(pkt).unwrap();
    assert_eq!(msg, "{\"text\":\"fuck you\"}");
    assert_eq!(chat_type, 0x02);
    assert_eq!(chat_type_name, "{\"text\":\"Server\"}");
    assert_eq!(has_target_name, true);
    assert_eq!(target_name, "text");
}

#[test]
fn disguised_chat_without_target() {
    let pkt = vec![0x02, 0x68, 0x69, 0x01, 0x01, 0x53, 0x00];
    let r = disguised_chat_message::parse(pkt).unwrap();
    assert_eq!(r, ("hi".to_string(), 1, "S".to_string(), false, String::new()));
    assert_eq!(disguised_chat_message::parse(vec![0x02, 0x68, 0x69, 0x01, 0x01, 0x53]), None);
}

#[test]
fn plugin_message_test_parse() {
    let pkt = vec![
        0x0f, 0x6d, 0x69, 0x6e, 0x65, 0x63, 0x72, 0x61, 0x66, 0x74, 0x3a, 0x62, 0x72, 0x61,
        0x6e, 0x64, 0x06, 0x53, 0x70, 0x69, 0x67, 0x6f, 0x74,
    ];
    let (channel, data) = plugin_message::parse(pkt).unwrap();
    assert_eq!(channel, "minecraft:brand");
    assert_eq!(data, "Spigot");
}

#[test]
fn plugin_message_other_channel_data_is_not_read() {
    let (channel, data) = plugin_message::parse(vec![0x03, 0x61, 0x3a, 0x62, 0x09]).unwrap();
    assert_eq!(channel, "a:b");
    assert_eq!(data, "");
}

#[test]
fn set_experience_test_parse() {
    let pkt = vec![0x3e, 0x30, 0x8d, 0x2f, 0x0b, 0xc8, 0x01];
    let (exp_bar, level, exp_level) = set_experience::parse(pkt).unwrap();
    assert_eq!(f32::from_bits(exp_bar), 0.17241357);
    assert_eq!(level, 11);
    assert_eq!(exp_level, 200);

    let pikt = vec![0x3f, 0x04, 0x69, 0xeb, 0x0b, 0xd2, 0x01];
    let (exp_bar, level, exp_level) = set_experience::parse(pikt).unwrap();
    assert_eq!(f32::from_bits(exp_bar), 0.5172412);
    assert_eq!(level, 11);
    assert_eq!(exp_level, 210);
}

#[test]
fn set_health_test_parse() {
    let pkt = vec![0x41, 0xa0, 0x00, 0x00, 0x14, 0x40, 0xa0, 0x00, 0x00];
    let (health, food, saturation) = set_health::parse(pkt).unwrap();
    assert_eq!(f32::from_bits(health), 20.0);
    assert_eq!(food, 20);
    assert_eq!(f32::from_bits(saturation), 5.0);
}

#[test]
fn set_health_cut_short() {
    assert_eq!(set_health::parse(vec![0x41, 0xa0, 0x00, 0x00, 0x14, 0x40, 0xa0, 0x00]), None);
}

#[test]
fn update_time_test_parse() {
    let pkt = vec![
        0x00, 0x00, 0x00, 0x00, 0x00, 0x1d, 0x39, 0x4c, 0x00, 0x00, 0x00, 0x00, 0x00, 0x00,
        0x32, 0xd1,
    ];
    let (word_age, time_of_day) = update_time::parse(pkt).unwrap();
    assert_eq!(word_age, 1915212);
    assert_eq!(time_of_day, 13009);
    let day = word_age / 24000;
    assert_eq!(day, 79);
}

#[test]
fn update_time_negative_time_of_day_keeps_its_sign() {
    let mut pkt = vec![0u8; 8];
    pkt.extend((-24001i64).to_be_bytes());
    assert_eq!(update_time::parse(pkt), Some((0, -1)));
    let mut pkt = vec![0u8; 8];
    pkt.extend(i64::MIN.to_be_bytes());
    assert_eq!(update_time::parse(pkt), Some((0, i64::MIN % 24000)));
}
