use bridge::backoff::next_backoff;
use bridge::config::shared_secret_hex;
use bridge::config::BridgeConfig;
use bridge::dedup::DedupSet;
use bridge::dedup::PairDedupSet;
use bridge::payload::clean_message;
use bridge::payload::extract_payloads;
use bridge::payload::unpad_message;
use bridge::payload::wrap_payload;
use bridge::protocol::join_line;
use bridge::protocol::nick_line;
use bridge::protocol::parse_irc_message;
use bridge::protocol::privmsg_line;
use bridge::protocol::sanitize_message;
use bridge::protocol::user_line;
use bridge::protocol::user_line_full;
use bridge::relay::format_incoming;
use bridge::relay::poll_step;
use bridge::relay::relay_step;
use bridge::relay::RelayDecision;
use bridge::roomid::generate_random_room_id;
use bridge::roomid::room_id_from_bytes;
use bridge::sasl::auth_credentials_line;
use bridge::sasl::handshake_start;
use bridge::sasl::handshake_step;
use bridge::sasl::HandshakeState;

#[test]
fn parse_direct_message() {
    let r = parse_irc_message(":alice!u@host PRIVMSG #room :hello there\r\n");
    let (target, msg, nick) = r.expect("direct message");
    assert_eq!(target, "#room");
    assert_eq!(msg, "hello there");
    assert_eq!(nick, "alice");
}

#[test]
fn parse_without_bang_prefix() {
    let r = parse_irc_message(":server PRIVMSG #room :hi");
    let (target, msg, nick) = r.expect("direct message");
    assert_eq!(target, "#room");
    assert_eq!(msg, "hi");
    assert_eq!(nick, "server");
}

#[test]
fn parse_rejects_non_message_lines() {
    assert!(parse_irc_message(":server 001 nick :welcome").is_none());
    assert!(parse_irc_message("PING :token").is_none());
    assert!(parse_irc_message("PRIVMSG #room").is_none());
}

#[test]
fn parse_strips_one_leading_colon_of_message() {
    let r = parse_irc_message(":a!u PRIVMSG #c ::colon text");
    let (_, msg, _) = r.expect("direct message");
    assert_eq!(msg, ":colon text");
    let r = parse_irc_message(":a!u PRIVMSG #c :plain");
    let (_, msg, _) = r.expect("direct message");
    assert_eq!(msg, "plain");
}

#[test]
fn parse_trims_unicode_whitespace() {
    let r = parse_irc_message("\u{2002}:ann!u PRIVMSG #c :hi\u{3000}\u{a0}");
    let (target, msg, nick) = r.expect("direct message");
    assert_eq!(target, "#c");
    assert_eq!(msg, "hi");
    assert_eq!(nick, "ann");
}

#[test]
fn sanitize_replaces_line_breaks() {
    assert_eq!(sanitize_message("a\r\nb\nc"), "a  b c");
}

#[test]
fn sanitize_truncates_to_400() {
    let long: String = std::iter::repeat('x').take(450).collect();
    let clean = sanitize_message(&long);
    assert_eq!(clean.len(), 400);
    let with_breaks = format!("{}\r\n{}", &long[..399], &long);
    let clean2 = sanitize_message(&with_breaks);
    assert_eq!(clean2.len(), 400);
    assert!(!clean2.contains('\r') && !clean2.contains('\n'));
}

#[test]
fn privmsg_line_frames_and_sanitizes() {
    assert_eq!(privmsg_line("#room", "hi\r\nthere"), "PRIVMSG #room :hi  there\r\n");
}

#[test]
fn registration_lines() {
    assert_eq!(nick_line("bot"), "NICK bot\r\n");
    assert_eq!(user_line("bot"), "USER bot 0 * :bot\r\n");
    assert_eq!(join_line("#room"), "JOIN #room\r\n");
}

#[test]
fn handshake_succeeds_on_scripted_replies() {
    let (st, lines) = handshake_start(true, "bot");
    assert_eq!(st, HandshakeState::AwaitCapAck);
    assert_eq!(lines, vec!["CAP REQ :sasl\r\n".to_string()]);

    let (st, lines) = handshake_step(st, ":srv CAP * ACK :sasl", "bot", "#room", "user", "pass");
    assert_eq!(st, HandshakeState::AwaitPlus);
    assert_eq!(lines, vec!["AUTHENTICATE PLAIN\r\n".to_string()]);

    let (st, lines) = handshake_step(st, "AUTHENTICATE +\r\n", "bot", "#room", "user", "pass");
    assert_eq!(st, HandshakeState::AwaitSaslResult);
    assert_eq!(lines, vec!["AUTHENTICATE AHVzZXIAcGFzcw==\r\n".to_string()]);

    let (st, lines) = handshake_step(st, ":srv 903 bot :SASL successful", "bot", "#room", "user", "pass");
    assert_eq!(st, HandshakeState::AwaitMotd);
    assert_eq!(
        lines,
        vec![
            "CAP END\r\n".to_string(),
            "NICK bot\r\n".to_string(),
            "USER bot 0 * :bot\r\n".to_string(),
        ]
    );

    let (st, lines) = handshake_step(st, ":srv 376 bot :end of MOTD", "bot", "#room", "user", "pass");
    assert_eq!(st, HandshakeState::Joined);
    assert_eq!(lines, vec!["JOIN #room\r\n".to_string()]);
}

#[test]
fn handshake_rejected_on_failure_code() {
    let (st, _) = handshake_start(true, "bot");
    let (st, _) = handshake_step(st, ":srv CAP * ACK :sasl", "bot", "#room", "user", "pass");
    let (st, _) = handshake_step(st, "AUTHENTICATE +", "bot", "#room", "user", "pass");
    let (st, lines) = handshake_step(st, ":srv 904 bot :SASL failed", "bot", "#room", "user", "pass");
    assert_eq!(st, HandshakeState::Rejected);
    assert!(lines.is_empty());
    let (st, lines) = handshake_step(st, ":srv 376 bot :end of MOTD", "bot", "#room", "user", "pass");
    assert_eq!(st, HandshakeState::Rejected);
    assert!(lines.is_empty());
}

#[test]
fn handshake_ignores_unrelated_lines() {
    let (st, _) = handshake_start(true, "bot");
    let (st, lines) = handshake_step(st, ":srv NOTICE * :looking up host", "bot", "#room", "user", "pass");
    assert_eq!(st, HandshakeState::AwaitCapAck);
    assert!(lines.is_empty());
}

#[test]
fn handshake_without_credentials_registers_at_once() {
    let (st, lines) = handshake_start(false, "bot");
    assert_eq!(st, HandshakeState::AwaitMotd);
    assert_eq!(lines, vec!["NICK bot\r\n".to_string(), "USER bot 0 * :bot\r\n".to_string()]);
    let (st, lines) = handshake_step(st, ":srv 422 bot :no MOTD", "bot", "#room", "", "");
    assert_eq!(st, HandshakeState::Joined);
    assert_eq!(lines, vec!["JOIN #room\r\n".to_string()]);
}

#[test]
fn credentials_line_encodes_payload() {
    assert_eq!(auth_credentials_line("user", "pass"), "AUTHENTICATE AHVzZXIAcGFzcw==\r\n");
}

#[test]
fn backoff_doubles_and_caps() {
    let mut d: u64 = 5;
    let mut waits = vec![d];
    for _ in 0..6 {
        d = next_backoff(d);
        waits.push(d);
    }
    assert_eq!(waits, vec![5, 10, 20, 40, 60, 60, 60]);
}

#[test]
fn dedup_observes_once() {
    let mut seen = DedupSet::new();
    assert!(seen.observe("alice:hi"));
    assert!(!seen.observe("alice:hi"));
    assert!(seen.observe("alice:hi there"));
}

#[test]
fn pair_dedup_keeps_senders_apart() {
    let mut seen = PairDedupSet::new();
    assert!(seen.observe("alice", "hi"));
    assert!(!seen.observe("alice", "hi"));
    assert!(seen.observe("alice:hi", ""));
    assert!(seen.observe("alice:", "hi"));
    assert!(seen.observe("", "alice:hi"));
}

#[test]
fn relay_does_not_conflate_sender_and_text() {
    let mut seen = PairDedupSet::new();
    let first = relay_step(&mut seen, ":who:x!u PRIVMSG #c :body");
    assert!(matches!(first, RelayDecision::Forward { .. }));
    let second = relay_step(&mut seen, ":who!u PRIVMSG #c :x:body");
    assert!(matches!(second, RelayDecision::Forward { .. }));
}

#[test]
fn user_line_full_frames_all_fields() {
    assert_eq!(user_line_full("u", "0", "*", "real name"), "USER u 0 * :real name\r\n");
}

#[test]
fn room_id_from_bytes_picks_alphabet_entries() {
    let zeros = vec![0u8; 64];
    assert_eq!(room_id_from_bytes(&zeros), "AAAAAAAAAAAAAAAA");
    let mut ones = vec![0u8; 64];
    for i in 0..16 {
        ones[4 * i] = 1;
    }
    assert_eq!(room_id_from_bytes(&ones), "BBBBBBBBBBBBBBBB");
    let mut mixed = vec![0u8; 64];
    mixed[0] = 61; // '9' is the last entry
    mixed[4] = 62; // wraps to 'A'
    mixed[8] = 0;
    mixed[9] = 1; // word 256; 256 % 62 == 8 -> 'I'
    assert_eq!(&room_id_from_bytes(&mixed)[..3], "9AI");
}

#[test]
fn poll_forwards_new_messages_only() {
    let mut seen = DedupSet::new();
    let batch = vec![
        "one".to_string(),
        "two".to_string(),
        "one".to_string(),
        "three".to_string(),
    ];
    let out = poll_step(&mut seen, &batch, "#room");
    assert_eq!(out.len(), 3);
    let again = poll_step(&mut seen, &batch, "#room");
    assert_eq!(again.len(), 0);
}

#[test]
fn poll_blocks_protocol_origin_messages() {
    let mut seen = DedupSet::new();
    let batch = vec!["[IRC]<strong>bob</strong>: hi".to_string(), "[AMZ][IRC]echoed".to_string()];
    let out = poll_step(&mut seen, &batch, "#room");
    assert_eq!(out.len(), 0);
}

#[test]
fn poll_formats_sender_messages() {
    let mut seen = DedupSet::new();
    let batch = vec!["[AMZ]carol: hello".to_string(), "plain text".to_string()];
    let out = poll_step(&mut seen, &batch, "#room");
    assert_eq!(out.len(), 2);
    assert_eq!(out[0].0, "#room");
    assert_eq!(out[0].1, "\u{2}\u{3}11carol >\u{2}\u{3} hello");
    assert_eq!(out[1].1, "plain text");
}

#[test]
fn format_incoming_shapes_name_body() {
    assert_eq!(format_incoming("no separator here"), "no separator here");
    assert_eq!(format_incoming("dave: hi all"), "\u{2}\u{3}11dave >\u{2}\u{3} hi all");
    assert_eq!(format_incoming(" dave :  hi all "), "\u{2}\u{3}11dave >\u{2}\u{3} hi all");
}

#[test]
fn relay_answers_ping() {
    let mut seen = PairDedupSet::new();
    match relay_step(&mut seen, "PING :token") {
        RelayDecision::Pong { line } => assert_eq!(line, "PONG :token"),
        _ => panic!("expected a pong"),
    }
}

#[test]
fn relay_forwards_marked_and_attributed() {
    let mut seen = PairDedupSet::new();
    match relay_step(&mut seen, ":bob!u@h PRIVMSG #room :good morning") {
        RelayDecision::Forward { plain } => {
            assert_eq!(plain, "[IRC]<strong>bob</strong>: good morning");
        },
        _ => panic!("expected a forward"),
    }
    match relay_step(&mut seen, ":bob!u@h PRIVMSG #room :good morning") {
        RelayDecision::Ignore => {},
        _ => panic!("duplicate must be ignored"),
    }
}

#[test]
fn relay_ignores_room_service_origin() {
    let mut seen = PairDedupSet::new();
    match relay_step(&mut seen, ":bob!u@h PRIVMSG #room :[AMZ]looped back") {
        RelayDecision::Ignore => {},
        _ => panic!("room-service-origin message must not go back"),
    }
}

#[test]
fn relay_output_echoed_back_is_blocked() {
    let mut seen_irc = PairDedupSet::new();
    let plain = match relay_step(&mut seen_irc, ":bob!u@h PRIVMSG #room :ping pong") {
        RelayDecision::Forward { plain } => plain,
        _ => panic!("expected a forward"),
    };
    let mut seen_amz = DedupSet::new();
    let echoed = vec![plain.clone(), format!("[AMZ]{}", plain)];
    let out = poll_step(&mut seen_amz, &echoed, "#room");
    assert!(out.is_empty());
}

#[test]
fn relay_replies_to_about_command() {
    let mut seen = PairDedupSet::new();
    match relay_step(&mut seen, ":bob!u@h PRIVMSG #room :.amnezichat") {
        RelayDecision::Reply { target, text } => {
            assert_eq!(target, "#room");
            assert_eq!(
                text,
                "bob: Anti-forensic and secure messenger. Source code: https://github.com/Amnezichat/Amnezichat"
            );
        },
        _ => panic!("expected the about reply"),
    }
}

#[test]
fn clean_round_trip_strips_markup() {
    let r = clean_message("<padding>xxxx</padding>hello<strong>bob</strong>");
    assert_eq!(r, Some("hellobob".to_string()));
}

#[test]
fn clean_drops_dummy_traffic() {
    assert_eq!(clean_message("ahead [DUMMY_DATA]: filler"), None);
    assert_eq!(clean_message("<padding>p</padding>[DUMMY_DATA]:x"), None);
}

#[test]
fn clean_removes_picture_and_media_spans() {
    let r = clean_message("hi<pfp>base64stuff</pfp> there<media>blob</media>!");
    assert_eq!(r, Some("hi there!".to_string()));
}

#[test]
fn unpad_keeps_text_without_padding() {
    assert_eq!(unpad_message("no padding here"), "no padding here");
    assert_eq!(unpad_message("a<padding>zzz</padding>b"), "ab");
}

#[test]
fn extract_payloads_finds_wrapped_spans() {
    let body = "noise -----BEGIN ENCRYPTED MESSAGE-----  abc  -----END ENCRYPTED MESSAGE----- \
                mid -----BEGIN ENCRYPTED MESSAGE-----def-----END ENCRYPTED MESSAGE----- tail";
    let got = extract_payloads(body);
    assert_eq!(got, vec!["abc".to_string(), "def".to_string()]);
    assert!(extract_payloads("nothing wrapped").is_empty());
}

#[test]
fn wrap_payload_uses_the_markers() {
    assert_eq!(
        wrap_payload("abc"),
        "-----BEGIN ENCRYPTED MESSAGE-----abc-----END ENCRYPTED MESSAGE-----"
    );
}

#[test]
fn round_trip_wrap_extract() {
    let body = wrap_payload("secret");
    assert_eq!(extract_payloads(&body), vec!["secret".to_string()]);
}

#[test]
fn room_id_is_sixteen_alphanumerics() {
    let id = generate_random_room_id().expect("entropy available");
    assert_eq!(id.chars().count(), 16);
    assert!(id.chars().all(|c| c.is_ascii_alphanumeric()));
}

#[test]
fn config_validation() {
    let mut c = BridgeConfig::default();
    assert!(!c.validate());
    c.amnezichat_url = "https://example.org".to_string();
    c.irc_url = "irc.example.org:6667".to_string();
    c.username = "bot".to_string();
    assert!(c.validate());
    c.is_group_chat = true;
    c.room_password = "short".to_string();
    assert!(!c.validate());
    c.room_password = "eightch8".to_string();
    assert!(c.validate());
}

#[test]
fn shared_secret_is_lowercase_hex() {
    assert_eq!(shared_secret_hex(&vec![0x01u8, 0xab, 0xff]), "01abff");
    assert_eq!(shared_secret_hex(&Vec::new()), "");
}
