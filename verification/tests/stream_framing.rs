use redis_proxy::bytes::{chars_of, has_at, has_chars_at, same_text};
use redis_proxy::config::standard_gateway;
use redis_proxy::dispatch::{after_mutation, after_publish, Effect, Followup};
use redis_proxy::framing::take_line;
use redis_proxy::protocol::Request;

#[test]
fn no_delimiter_leaves_the_buffer() {
    let mut buffer = b"partial".to_vec();
    assert_eq!(take_line(&mut buffer), None);
    assert_eq!(buffer, b"partial".to_vec());
    let mut empty: Vec<u8> = Vec::new();
    assert_eq!(take_line(&mut empty), None);
    assert!(empty.is_empty());
}

#[test]
fn lines_come_out_in_order() {
    let mut buffer = b"one\ntwo\n\nthr".to_vec();
    assert_eq!(take_line(&mut buffer), Some(b"one\n".to_vec()));
    assert_eq!(buffer, b"two\n\nthr".to_vec());
    assert_eq!(take_line(&mut buffer), Some(b"two\n".to_vec()));
    assert_eq!(take_line(&mut buffer), Some(b"\n".to_vec()));
    assert_eq!(take_line(&mut buffer), None);
    assert_eq!(buffer, b"thr".to_vec());
    buffer.extend_from_slice(b"ee\n");
    assert_eq!(take_line(&mut buffer), Some(b"three\n".to_vec()));
    assert!(buffer.is_empty());
}

#[test]
fn two_connections_get_their_own_replies_in_order() {
    let gateway = standard_gateway().unwrap();
    let mut buffers: Vec<Vec<u8>> = vec![Vec::new(), Vec::new()];
    let mut stored: Vec<Vec<String>> = vec![Vec::new(), Vec::new()];
    for round in 0..10 {
        for client in 0..2 {
            let key = format!("cs:Psmon:object{}:{}", client + 1, round);
            buffers[client].extend_from_slice(key.as_bytes());
            buffers[client].push(b'\n');
        }
    }
    loop {
        let mut progressed = false;
        for client in 0..2 {
            if let Some(line) = take_line(&mut buffers[client]) {
                progressed = true;
                let key = String::from_utf8(line).unwrap().trim().to_string();
                let decoded = Some(Request { action: "set".to_string(), key, value: Some("1".to_string()) });
                let command = match gateway.handle_request(decoded) {
                    Effect::Mutate(command) => command,
                    Effect::Reply(response) => panic!("refused: {}", response.message),
                };
                assert!(matches!(after_mutation(&command, Ok(())), Followup::Publish(_)));
                assert_eq!(after_publish(Ok(())).message, "Action completed successfully");
                stored[client].push(command.key);
            }
        }
        if !progressed {
            break;
        }
    }
    for client in 0..2 {
        let expected: Vec<String> = (0..10).map(|round| format!("cs:Psmon:object{}:{}", client + 1, round)).collect();
        assert_eq!(stored[client], expected);
    }
}

#[test]
fn text_helpers() {
    assert_eq!(chars_of("a\u{e9}:"), vec!['a', '\u{e9}', ':']);
    assert!(chars_of("").is_empty());
    assert!(has_chars_at(&['a', 'b', 'c'], 1, &['b', 'c']));
    assert!(!has_chars_at(&['a', 'b', 'c'], 2, &['b', 'c']));
    assert!(has_at(b"abc", 3, b""));
    assert!(!has_at(b"abc", 1, b"bd"));
    assert!(same_text("del", "del"));
    assert!(!same_text("del", "de"));
}
