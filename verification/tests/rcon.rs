use palbox::rcon::{
    command_start, command_step, encode, packet_body, packet_length, RconStage, RconStep, AUTH_ID,
    CMD_ID, SERVERDATA_AUTH, SERVERDATA_EXECCOMMAND,
};

#[test]
fn packet_roundtrips_length_prefix() {
    let p = encode(CMD_ID, SERVERDATA_EXECCOMMAND, "ShowPlayers");
    let len = i32::from_le_bytes([p[0], p[1], p[2], p[3]]);
    assert_eq!(len as usize, p.len() - 4);
}

#[test]
fn encode_lays_out_every_field() {
    let p = encode(AUTH_ID, SERVERDATA_AUTH, "pw");
    assert_eq!(p, vec![12, 0, 0, 0, 1, 0, 0, 0, 3, 0, 0, 0, b'p', b'w', 0, 0]);
}

#[test]
fn encode_negative_id_and_utf8_body() {
    let p = encode(-1, 2, "é");
    assert_eq!(p, vec![12, 0, 0, 0, 0xff, 0xff, 0xff, 0xff, 2, 0, 0, 0, 0xc3, 0xa9, 0, 0]);
}

#[test]
fn encode_empty_body() {
    let p = encode(7, 0, "");
    assert_eq!(p, vec![10, 0, 0, 0, 7, 0, 0, 0, 0, 0, 0, 0, 0, 0]);
}

#[test]
fn packet_length_accepts_the_range() {
    assert_eq!(packet_length(&[10, 0, 0, 0]), Ok(10));
    assert_eq!(packet_length(&[0, 16, 0, 0]), Ok(4096));
}

#[test]
fn packet_length_refuses_bogus_lengths() {
    assert_eq!(
        packet_length(&[9, 0, 0, 0]),
        Err("bogus RCON packet length: 9".to_string())
    );
    assert_eq!(
        packet_length(&[1, 16, 0, 0]),
        Err("bogus RCON packet length: 4097".to_string())
    );
    assert_eq!(
        packet_length(&[0xff, 0xff, 0xff, 0xff]),
        Err("bogus RCON packet length: -1".to_string())
    );
    assert_eq!(
        packet_length(&[0, 0, 0, 0x80]),
        Err("bogus RCON packet length: -2147483648".to_string())
    );
}

#[test]
fn encoded_packet_reads_back() {
    let p = encode(42, SERVERDATA_EXECCOMMAND, "Broadcast hi_there");
    let n = packet_length(&p[0..4]).unwrap();
    assert_eq!(n, p.len() - 4);
    let (id, body) = packet_body(&p[4..]);
    assert_eq!(id, 42);
    assert_eq!(body, "Broadcast hi_there");
}

#[test]
fn packet_body_replaces_invalid_utf8() {
    let buf = [5, 0, 0, 0, 0, 0, 0, 0, b'o', 0xff, b'k', 0, 0];
    let (id, body) = packet_body(&buf);
    assert_eq!(id, 5);
    assert_eq!(body, "o\u{fffd}k");
}

#[test]
fn packet_body_of_minimal_packet_is_empty() {
    let buf = [0xff, 0xff, 0xff, 0xff, 2, 0, 0, 0, 0, 0];
    let (id, body) = packet_body(&buf);
    assert_eq!(id, -1);
    assert_eq!(body, "");
}

#[test]
fn exchange_authenticates_first() {
    let (stage, pkt) = command_start("secret");
    assert_eq!(stage, RconStage::Authenticating);
    assert_eq!(pkt, encode(AUTH_ID, SERVERDATA_AUTH, "secret"));
}

#[test]
fn refused_password_ends_the_exchange() {
    match command_step(RconStage::Authenticating, -1, String::new(), "Save") {
        RconStep::Finish(Err(e)) => {
            assert_eq!(e, "RCON authentication failed (wrong admin password?)")
        }
        _ => panic!("expected an authentication error"),
    }
}

#[test]
fn accepted_password_sends_the_command() {
    match command_step(RconStage::Authenticating, AUTH_ID, String::new(), "Save") {
        RconStep::Send(stage, pkt) => {
            assert_eq!(stage, RconStage::Commanding);
            assert_eq!(pkt, encode(CMD_ID, SERVERDATA_EXECCOMMAND, "Save"));
        }
        _ => panic!("expected the command packet"),
    }
}

#[test]
fn command_reply_is_the_result() {
    match command_step(RconStage::Commanding, CMD_ID, "Complete Save".to_string(), "Save") {
        RconStep::Finish(Ok(body)) => assert_eq!(body, "Complete Save"),
        _ => panic!("expected the reply body"),
    }
}
