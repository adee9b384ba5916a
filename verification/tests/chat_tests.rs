use chatbot::chat::{Conversation, Role};
use chatbot::input::{is_quit, trim_whitespace};
use chatbot::json::encode_request;
use chatbot::round::{reply_line, user_step, Action};
use chatbot::spinner::Spinner;

#[test]
fn new_conversation_is_empty() {
    let c = Conversation::new();
    assert_eq!(c.len(), 0);
}

#[test]
fn successful_round_grows_by_two() {
    let mut c = Conversation::new();
    c.push_user(b"hello".to_vec());
    let blocks = vec![b"hi there".to_vec()];
    let reply = c.record_reply(&blocks);
    assert_eq!(reply, Some(b"hi there".to_vec()));
    assert_eq!(c.len(), 2);
    assert_eq!(c.turn(0).role, Role::User);
    assert_eq!(c.turn(0).content, b"hello".to_vec());
    assert_eq!(c.turn(1).role, Role::Assistant);
    assert_eq!(c.turn(1).content, b"hi there".to_vec());
}

#[test]
fn empty_reply_changes_nothing() {
    let mut c = Conversation::new();
    c.push_user(b"hello".to_vec());
    let blocks: Vec<Vec<u8>> = Vec::new();
    let reply = c.record_reply(&blocks);
    assert_eq!(reply, None);
    assert_eq!(c.len(), 1);
}

#[test]
fn only_the_first_block_is_consumed() {
    let mut c = Conversation::new();
    let blocks = vec![b"first".to_vec(), b"second".to_vec()];
    let reply = c.record_reply(&blocks);
    assert_eq!(reply, Some(b"first".to_vec()));
    assert_eq!(c.len(), 1);
    assert_eq!(c.turn(0).content, b"first".to_vec());
}

#[test]
fn quit_is_case_insensitive() {
    assert!(is_quit(&b"quit".to_vec()));
    assert!(is_quit(&b"QUIT".to_vec()));
    assert!(is_quit(&b"QuIt".to_vec()));
}

#[test]
fn quit_must_be_the_whole_line() {
    assert!(!is_quit(&b"quit now".to_vec()));
    assert!(!is_quit(&b"quitt".to_vec()));
    assert!(!is_quit(&b"qui".to_vec()));
    assert!(!is_quit(&b"".to_vec()));
    assert!(!is_quit(&b"exit".to_vec()));
}

#[test]
fn trim_strips_both_ends() {
    assert_eq!(trim_whitespace(&b"  hi \r\n".to_vec()), b"hi".to_vec());
    assert_eq!(trim_whitespace(&b"hi".to_vec()), b"hi".to_vec());
    assert_eq!(trim_whitespace(&b"\t \r\n".to_vec()), b"".to_vec());
    assert_eq!(trim_whitespace(&b"a b".to_vec()), b"a b".to_vec());
    assert_eq!(trim_whitespace(&b"".to_vec()), b"".to_vec());
}

#[test]
fn trim_matches_str_trim() {
    let cases = [
        "a\u{00A0}\n",
        "\u{00A0} hi\u{2003}\n",
        "\u{1680}\u{3000}x\u{2028}",
        "\u{0085}y\u{205F}",
        "\u{200A}\u{2000}",
        "a\u{00A0}b",
        "quit\u{00A0}",
        " mixed \u{202F}\t text \u{2029} ",
    ];
    for s in cases {
        assert_eq!(
            trim_whitespace(&s.as_bytes().to_vec()),
            s.trim().as_bytes().to_vec(),
            "trimming {:?}",
            s
        );
    }
}

#[test]
fn request_encoding_is_exact() {
    let mut c = Conversation::new();
    c.push_user(b"hi".to_vec());
    c.push_assistant(b"yo".to_vec());
    let body = encode_request(&b"m1".to_vec(), 1024, &c);
    assert_eq!(
        String::from_utf8(body).unwrap(),
        "{\"model\":\"m1\",\"max_tokens\":1024,\"messages\":[{\"role\":\"user\",\"content\":\"hi\"},{\"role\":\"assistant\",\"content\":\"yo\"}]}"
    );
}

#[test]
fn request_encoding_with_no_turns() {
    let c = Conversation::new();
    let body = encode_request(&b"m".to_vec(), 0, &c);
    assert_eq!(
        String::from_utf8(body).unwrap(),
        "{\"model\":\"m\",\"max_tokens\":0,\"messages\":[]}"
    );
}

#[test]
fn request_encoding_largest_budget() {
    let c = Conversation::new();
    let body = encode_request(&b"m".to_vec(), u32::MAX, &c);
    assert_eq!(
        String::from_utf8(body).unwrap(),
        "{\"model\":\"m\",\"max_tokens\":4294967295,\"messages\":[]}"
    );
}

#[test]
fn content_is_escaped() {
    let mut c = Conversation::new();
    c.push_user(b"say \"hi\"\n\\ \x01".to_vec());
    let body = encode_request(&b"m".to_vec(), 1, &c);
    assert_eq!(
        String::from_utf8(body).unwrap(),
        "{\"model\":\"m\",\"max_tokens\":1,\"messages\":[{\"role\":\"user\",\"content\":\"say \\\"hi\\\"\\n\\\\ \\u0001\"}]}"
    );
}

#[test]
fn tab_and_carriage_return_are_escaped() {
    let mut c = Conversation::new();
    c.push_user(b"a\tb\rc\x1f".to_vec());
    let body = encode_request(&b"m".to_vec(), 1, &c);
    assert_eq!(
        String::from_utf8(body).unwrap(),
        "{\"model\":\"m\",\"max_tokens\":1,\"messages\":[{\"role\":\"user\",\"content\":\"a\\tb\\rc\\u001f\"}]}"
    );
}

#[test]
fn request_parses_back_as_json() {
    let mut c = Conversation::new();
    c.push_user(b"line one\ntwo \"quoted\"".to_vec());
    c.push_assistant(b"reply".to_vec());
    let body = encode_request(&b"some-model".to_vec(), 1024, &c);
    let v: serde_json::Value = serde_json::from_slice(&body).unwrap();
    assert_eq!(v["model"], "some-model");
    assert_eq!(v["max_tokens"], 1024);
    let msgs = v["messages"].as_array().unwrap();
    assert_eq!(msgs.len(), 2);
    assert_eq!(msgs[0]["role"], "user");
    assert_eq!(msgs[0]["content"], "line one\ntwo \"quoted\"");
    assert_eq!(msgs[1]["role"], "assistant");
    assert_eq!(msgs[1]["content"], "reply");
}

#[test]
fn spinner_frames_cycle() {
    let mut s = Spinner::new();
    assert_eq!(s.tick(), b"\rThinking".to_vec());
    assert_eq!(s.tick(), b"\rThinking.".to_vec());
    assert_eq!(s.tick(), b"\rThinking..".to_vec());
    assert_eq!(s.tick(), b"\rThinking...".to_vec());
    assert_eq!(s.tick(), b"\rThinking....".to_vec());
    assert_eq!(s.tick(), b"\rThinking.....".to_vec());
    assert_eq!(s.tick(), b"\rThinking      ".to_vec());
    assert_eq!(s.tick(), b"\rThinking".to_vec());
}

#[test]
fn spinner_stop_clears_the_line() {
    assert_eq!(Spinner::stop_frame(), b"\rThinking       \n".to_vec());
}

#[test]
fn quit_line_ends_the_loop() {
    let mut c = Conversation::new();
    let a = user_step(&mut c, &b"  QUIT \n".to_vec(), &b"m".to_vec(), 16);
    assert!(matches!(a, Action::Quit));
    assert_eq!(c.len(), 0);
}

#[test]
fn quit_behind_unicode_whitespace_still_quits() {
    let mut c = Conversation::new();
    let a = user_step(
        &mut c,
        &"quit\u{00A0}\n".as_bytes().to_vec(),
        &b"m".to_vec(),
        16,
    );
    assert!(matches!(a, Action::Quit));
    assert_eq!(c.len(), 0);
}

#[test]
fn reply_line_is_exact() {
    assert_eq!(reply_line(&b"hello".to_vec()), b"Bot: hello\n".to_vec());
    assert_eq!(reply_line(&b"".to_vec()), b"Bot: \n".to_vec());
}

#[test]
fn typed_line_becomes_a_request() {
    let mut c = Conversation::new();
    let a = user_step(&mut c, &b" hello \n".to_vec(), &b"m".to_vec(), 16);
    match a {
        Action::Send(body) => {
            assert_eq!(
                String::from_utf8(body).unwrap(),
                "{\"model\":\"m\",\"max_tokens\":16,\"messages\":[{\"role\":\"user\",\"content\":\"hello\"}]}"
            );
        }
        Action::Quit => panic!("a plain line must not end the loop"),
    }
    assert_eq!(c.len(), 1);
    assert_eq!(c.turn(0).role, Role::User);
    assert_eq!(c.turn(0).content, b"hello".to_vec());
}
