use bm_network::at_command::{cmd_arg_into_msg, fmt_resp_uint_as_str_slice, parse_u32, parse_u8,
    prepare_error_response, u32_to_dec_bytes,
    prepare_help_str, prepare_response, AtCommandSet, CommandParser};
use bm_network::at_cmd::AtCommand;
use bm_network::radio_control::{RadioRxBuffer, RadioState};

fn feed(parser: &mut CommandParser, line: &str) -> Option<(AtCommandSet, bool)> {
    let mut last = None;
    for &b in line.as_bytes() {
        last = parser.handle_rx_char(b);
    }
    last
}

#[test]
fn plain_command_is_accepted() {
    let mut p = CommandParser::new();
    assert_eq!(feed(&mut p, "AT\r"), Some((AtCommandSet::At, false)));
    assert_eq!(feed(&mut p, "AT+CSQ\r"), Some((AtCommandSet::AtCsq, false)));
    assert_eq!(feed(&mut p, "AT+RTABLE\r"), Some((AtCommandSet::RoutingTable, false)));
}

#[test]
fn empty_line_reads_as_newline() {
    let mut p = CommandParser::new();
    assert_eq!(p.handle_rx_char(0x0D), Some((AtCommandSet::NewLine, false)));
}

#[test]
fn line_without_at_prefix_is_discarded() {
    let mut p = CommandParser::new();
    assert_eq!(feed(&mut p, "XYZ\r"), None);
    // The buffer was cleared: the next line parses on its own.
    assert_eq!(feed(&mut p, "AT\r"), Some((AtCommandSet::At, false)));
}

#[test]
fn unknown_command_reads_as_unknown() {
    let mut p = CommandParser::new();
    assert_eq!(feed(&mut p, "AT+BOGUS\r"), Some((AtCommandSet::Unknown, false)));
}

#[test]
fn help_form_sets_help_flag() {
    let mut p = CommandParser::new();
    assert_eq!(feed(&mut p, "AT+CSQ?\r"), Some((AtCommandSet::AtCsq, true)));
    assert_eq!(feed(&mut p, "AT?\r"), Some((AtCommandSet::AtList, false)));
}

#[test]
fn write_form_stores_argument() {
    let mut p = CommandParser::new();
    let r = feed(&mut p, "AT+MSEND=2,true,3,Hello\r");
    assert_eq!(r, Some((AtCommandSet::AtMsgSend, false)));
    assert_eq!(p.get_cmd_arg(), b"2,true,3,Hello".to_vec());
}

#[test]
fn write_form_on_read_only_command_is_unknown() {
    let mut p = CommandParser::new();
    assert_eq!(feed(&mut p, "AT+CSQ=5\r"), Some((AtCommandSet::Unknown, false)));
}

#[test]
fn backspace_removes_last_character() {
    let mut p = CommandParser::new();
    feed(&mut p, "ATQ");
    p.handle_rx_char(0x7F);
    assert_eq!(p.handle_rx_char(0x0D), Some((AtCommandSet::At, false)));
}

#[test]
fn argument_reads_as_number() {
    let mut p = CommandParser::new();
    feed(&mut p, "AT+MSEND=123\r");
    assert_eq!(p.get_cmd_arg_as_u32(), Some(123));
    feed(&mut p, "AT+MSEND=abc\r");
    assert_eq!(p.get_cmd_arg_as_u32(), None);
}

#[test]
fn message_argument_parses_into_tuple() {
    let msg = cmd_arg_into_msg(b"2,true,3,Hello").unwrap();
    assert_eq!(msg.0, Some(2));
    assert!(msg.1);
    assert_eq!(msg.2, 3);
    assert_eq!(msg.3, b"Hello".to_vec());
}

#[test]
fn message_argument_ack_is_strict() {
    let msg = cmd_arg_into_msg(b"2,yes,3,Hello").unwrap();
    assert!(!msg.1);
}

#[test]
fn message_argument_needs_four_fields() {
    assert!(cmd_arg_into_msg(b"2,true,3").is_none());
    assert!(cmd_arg_into_msg(b"2,true,3,a,b").is_none());
    assert!(cmd_arg_into_msg(b"").is_none());
}

#[test]
fn message_argument_refuses_bad_numbers() {
    assert!(cmd_arg_into_msg(b"x,true,3,Hello").is_none());
    assert!(cmd_arg_into_msg(b"2,true,300,Hello").is_none());
    assert!(cmd_arg_into_msg(b"4294967296,true,3,Hello").is_none());
    let msg = cmd_arg_into_msg(b"4294967295,true,3,Hello").unwrap();
    assert_eq!(msg.0, Some(4294967295));
}

#[test]
fn decimal_parsing_bounds() {
    assert_eq!(parse_u32(b"0"), Some(0));
    assert_eq!(parse_u32(b"007"), Some(7));
    assert_eq!(parse_u32(b"4294967295"), Some(4294967295));
    assert_eq!(parse_u32(b"4294967296"), None);
    assert_eq!(parse_u32(b""), None);
    assert_eq!(parse_u32(b"1x"), None);
    assert_eq!(parse_u8(b"255"), Some(255));
    assert_eq!(parse_u8(b"256"), None);
}

#[test]
fn command_table_answers() {
    assert_eq!(AtCommandSet::match_command("AT+MCNT"), Some(AtCommandSet::AtMsgReceiveCnt));
    assert_eq!(AtCommandSet::match_command("AT+NOPE"), None);
    assert_eq!(AtCommandSet::get_command(AtCommandSet::RadioStatus), Some("AT+ST"));
    assert_eq!(AtCommandSet::get_command(AtCommandSet::Unknown), None);
    assert_eq!(AtCommandSet::get_response(AtCommandSet::AtCsq), Some("+CSQ:"));
    assert_eq!(
        AtCommandSet::get_help(AtCommandSet::AtId),
        Some("Enter Network ID as a 32bit value.")
    );
    assert!(AtCommandSet::allow_write(AtCommandSet::AtMsgSend));
    assert!(!AtCommandSet::allow_write(AtCommandSet::AtCsq));
    assert_eq!(AtCommandSet::get_available_cmds().len(), 11);
    assert_eq!(AtCommandSet::from(0), AtCommandSet::At);
    assert_eq!(AtCommandSet::At.to_u8(), 0);
}

#[test]
fn older_command_enum_answers_through_same_table() {
    assert_eq!(AtCommand::match_command("AT+TMSG"), Some(AtCommand::TestMessage));
    assert_eq!(AtCommand::match_command("nope"), None);
    assert_eq!(AtCommand::get_command(AtCommand::AtGmr), Some("AT+GMR"));
    assert_eq!(AtCommand::get_response(AtCommand::TestMessage), Some("+"));
    assert!(AtCommand::allow_write(AtCommand::AtMsgSend));
    assert!(!AtCommand::allow_write(AtCommand::RoutingTable));
    assert_eq!(AtCommand::from(3), AtCommand::AtId);
    assert_eq!(AtCommand::AtId.to_u8(), 3);
}

#[test]
fn radio_buffer_builders() {
    let buf = RadioRxBuffer::new().with_len(10).with_rssi(-55);
    assert_eq!(buf.length, 10);
    assert_eq!(buf.rssi, -55);
    assert_eq!(buf.buffer[0], 0);
    assert_eq!(RadioState::default(), RadioState::Idle);
}

#[test]
fn responses_are_framed() {
    assert_eq!(
        prepare_response(AtCommandSet::AtCsq, b"-60"),
        b"\r\n+CSQ:-60\r\nOK\r\n>".to_vec()
    );
    assert_eq!(prepare_response(AtCommandSet::At, b""), b"\r\n\r\nOK\r\n>".to_vec());
    assert_eq!(
        prepare_help_str(AtCommandSet::AtId),
        b"\r\nEnter Network ID as a 32bit value.\r\n>".to_vec()
    );
    assert_eq!(prepare_error_response(), b"\r\nCmd Error\r\n>".to_vec());
}

#[test]
fn numbers_format_in_decimal() {
    assert_eq!(u32_to_dec_bytes(0), b"0".to_vec());
    assert_eq!(u32_to_dec_bytes(7), b"7".to_vec());
    assert_eq!(u32_to_dec_bytes(120), b"120".to_vec());
    assert_eq!(u32_to_dec_bytes(4294967295), b"4294967295".to_vec());
    assert_eq!(
        fmt_resp_uint_as_str_slice(AtCommandSet::AtMsgReceiveCnt, 3),
        b"\r\n+COUNT: 3\r\nOK\r\n>".to_vec()
    );
}
