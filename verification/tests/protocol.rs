use nvcat::highlight::rgb_to_string;
use nvcat::msgpack::{attach_msg, command_msg, quit_msg, scroll_msg, set_lines_msg};

#[test]
fn rgb_to_string_gives_six_hex_digits() {
    assert_eq!(rgb_to_string(0xff0000), "#ff0000");
    assert_eq!(rgb_to_string(0x000001), "#000001");
    assert_eq!(rgb_to_string(0x123abc), "#123abc");
    // only the low 24 bits carry colour
    assert_eq!(rgb_to_string(0xff123abc), "#123abc");
}

#[test]
fn command_msg_frames_the_request() {
    let mut exp: Vec<u8> = Vec::new();
    rmp::encode::write_array_len(&mut exp, 4).unwrap();
    rmp::encode::write_uint(&mut exp, 0).unwrap();
    rmp::encode::write_uint(&mut exp, 300).unwrap();
    rmp::encode::write_str(&mut exp, "nvim_command").unwrap();
    rmp::encode::write_array_len(&mut exp, 1).unwrap();
    rmp::encode::write_str(&mut exp, "qa!").unwrap();
    assert_eq!(command_msg("qa!"), exp);
    assert_eq!(quit_msg(), exp);
}

#[test]
fn command_msg_exact_bytes() {
    // fixarray(4), 0, u16 300, str "nvim_command", fixarray(1), str "qa!"
    let mut exp: Vec<u8> = vec![0x94, 0x00, 0xcd, 0x01, 0x2c, 0xac];
    exp.extend_from_slice(b"nvim_command");
    exp.push(0x91);
    exp.push(0xa3);
    exp.extend_from_slice(b"qa!");
    assert_eq!(command_msg("qa!"), exp);
}

#[test]
fn scroll_msg_is_a_normal_mode_command() {
    let exp = command_msg("normal 98gjz\n");
    assert_eq!(scroll_msg(98), exp);
}

#[test]
fn attach_msg_frames_the_ui_options() {
    let mut exp: Vec<u8> = Vec::new();
    rmp::encode::write_array_len(&mut exp, 4).unwrap();
    rmp::encode::write_uint(&mut exp, 0).unwrap();
    rmp::encode::write_uint(&mut exp, 100).unwrap();
    rmp::encode::write_str(&mut exp, "nvim_ui_attach").unwrap();
    rmp::encode::write_array_len(&mut exp, 3).unwrap();
    rmp::encode::write_uint(&mut exp, 100).unwrap();
    rmp::encode::write_uint(&mut exp, 100).unwrap();
    rmp::encode::write_map_len(&mut exp, 1).unwrap();
    rmp::encode::write_str(&mut exp, "rgb").unwrap();
    rmp::encode::write_bool(&mut exp, true).unwrap();
    assert_eq!(attach_msg(100, 100), exp);
}

#[test]
fn set_lines_msg_frames_the_buffer_append() {
    let lines = vec!["a".to_string(), "b".to_string(), "c".to_string()];
    let mut exp: Vec<u8> = Vec::new();
    rmp::encode::write_array_len(&mut exp, 4).unwrap();
    rmp::encode::write_uint(&mut exp, 0).unwrap();
    rmp::encode::write_uint(&mut exp, 100).unwrap();
    rmp::encode::write_str(&mut exp, "nvim_buf_set_lines").unwrap();
    rmp::encode::write_array_len(&mut exp, 5).unwrap();
    rmp::encode::write_uint(&mut exp, 1).unwrap();
    rmp::encode::write_sint(&mut exp, -1).unwrap();
    rmp::encode::write_sint(&mut exp, -1).unwrap();
    rmp::encode::write_bool(&mut exp, false).unwrap();
    rmp::encode::write_array_len(&mut exp, 3).unwrap();
    rmp::encode::write_str(&mut exp, "a").unwrap();
    rmp::encode::write_str(&mut exp, "b").unwrap();
    rmp::encode::write_str(&mut exp, "c").unwrap();
    assert_eq!(set_lines_msg(&lines), exp);
}

#[test]
fn set_lines_msg_empty_run() {
    let lines: Vec<String> = Vec::new();
    let mut exp: Vec<u8> = Vec::new();
    rmp::encode::write_array_len(&mut exp, 4).unwrap();
    rmp::encode::write_uint(&mut exp, 0).unwrap();
    rmp::encode::write_uint(&mut exp, 100).unwrap();
    rmp::encode::write_str(&mut exp, "nvim_buf_set_lines").unwrap();
    rmp::encode::write_array_len(&mut exp, 5).unwrap();
    rmp::encode::write_uint(&mut exp, 1).unwrap();
    rmp::encode::write_sint(&mut exp, -1).unwrap();
    rmp::encode::write_sint(&mut exp, -1).unwrap();
    rmp::encode::write_bool(&mut exp, false).unwrap();
    rmp::encode::write_array_len(&mut exp, 0).unwrap();
    assert_eq!(set_lines_msg(&lines), exp);
}
