use kvstore::{handle_request, Commands, ExecError, Store};

fn run(store: &Store, request: &str) -> Option<String> {
    handle_request(request.as_bytes(), store).reply
}

#[test]
fn set_then_get_returns_value() {
    let store = Store::new();
    assert_eq!(run(&store, "SET foo bar"), Some("+OK\r\n".to_string()));
    assert_eq!(run(&store, "GET foo"), Some("+bar\r\n".to_string()));
}

#[test]
fn get_missing_is_not_found() {
    let store = Store::new();
    assert_eq!(
        run(&store, "GET missing"),
        Some("-ERROR: Key \"missing\" not found\r\n".to_string())
    );
    let cmd = Commands::Get { key: "missing".to_string() };
    assert!(cmd.execute(&store).is_ok());
}

#[test]
fn setex_zero_then_expire_is_not_found() {
    let store = Store::new();
    let handled = handle_request(b"SETEX temp 0 val", &store);
    assert_eq!(handled.reply, Some("+OK\r\n".to_string()));
    let expiry = handled.expiry.expect("SETEX arms an expiry");
    assert_eq!(expiry.key, "temp");
    assert_eq!(expiry.seconds, 0);
    assert_eq!(run(&store, "GET temp"), Some("+val\r\n".to_string()));
    store.expire(&expiry.key);
    assert_eq!(
        run(&store, "GET temp"),
        Some("-ERROR: Key \"temp\" not found\r\n".to_string())
    );
}

#[test]
fn setex_value_readable_before_deadline() {
    let store = Store::new();
    let handled = handle_request(b"SETEX k 1 v", &store);
    assert_eq!(handled.reply, Some("+OK\r\n".to_string()));
    assert_eq!(handled.expiry.map(|e| e.seconds), Some(1));
    assert_eq!(run(&store, "GET k"), Some("+v\r\n".to_string()));
}

#[test]
fn incr_then_decr_scenario() {
    let store = Store::new();
    assert_eq!(run(&store, "SET n 5"), Some("+OK\r\n".to_string()));
    assert_eq!(run(&store, "INCR n"), Some("+6\r\n".to_string()));
    assert_eq!(run(&store, "DECR n"), Some("+5\r\n".to_string()));
    assert_eq!(run(&store, "GET n"), Some("+5\r\n".to_string()));
}

#[test]
fn incr_on_text_fails_and_keeps_value() {
    let store = Store::new();
    run(&store, "SET n abc");
    assert_eq!(
        run(&store, "INCR n"),
        Some("-ERROR: Value is not a valid integer\r\n".to_string())
    );
    let cmd = Commands::Incr { key: "n".to_string() };
    assert_eq!(cmd.execute(&store), Err(ExecError::InvalidInput));
    assert_eq!(run(&store, "GET n"), Some("+abc\r\n".to_string()));
}

#[test]
fn del_absent_is_ok_and_idempotent() {
    let store = Store::new();
    assert_eq!(run(&store, "DEL nothing"), Some("+OK\r\n".to_string()));
    assert_eq!(run(&store, "DEL nothing"), Some("+OK\r\n".to_string()));
    run(&store, "SET a 1");
    assert_eq!(run(&store, "DEL a"), Some("+OK\r\n".to_string()));
    assert_eq!(run(&store, "DEL a"), Some("+OK\r\n".to_string()));
    assert_eq!(run(&store, "GET a"), Some("-ERROR: Key \"a\" not found\r\n".to_string()));
}

#[test]
fn arith_on_absent_key_does_not_create_it() {
    let store = Store::new();
    assert_eq!(run(&store, "INCR x"), Some("-ERROR: Key \"x\" not found\r\n".to_string()));
    assert_eq!(run(&store, "DECR x"), Some("-ERROR: Key \"x\" not found\r\n".to_string()));
    assert_eq!(run(&store, "GET x"), Some("-ERROR: Key \"x\" not found\r\n".to_string()));
}

#[test]
fn incr_at_upper_bound_is_rejected() {
    let store = Store::new();
    run(&store, "SET big 9223372036854775807");
    assert_eq!(
        run(&store, "INCR big"),
        Some("-ERROR: Value is not a valid integer\r\n".to_string())
    );
    assert_eq!(run(&store, "DECR big"), Some("+9223372036854775806\r\n".to_string()));
    run(&store, "SET small -9223372036854775808");
    assert_eq!(
        run(&store, "DECR small"),
        Some("-ERROR: Value is not a valid integer\r\n".to_string())
    );
}

#[test]
fn incr_writes_canonical_decimal() {
    let store = Store::new();
    run(&store, "SET n +007");
    assert_eq!(run(&store, "INCR n"), Some("+8\r\n".to_string()));
    run(&store, "SET m -1");
    assert_eq!(run(&store, "INCR m"), Some("+0\r\n".to_string()));
    assert_eq!(run(&store, "DECR m"), Some("+-1\r\n".to_string()));
}

#[test]
fn concurrent_incr_loses_no_update() {
    let store = std::sync::Arc::new(Store::new());
    run(&store, "SET c 0");
    let runtime = tokio::runtime::Builder::new_multi_thread()
        .worker_threads(8)
        .build()
        .unwrap();
    let mut workers = Vec::new();
    for _ in 0..8 {
        let s = store.clone();
        workers.push(runtime.spawn(async move {
            for _ in 0..250 {
                let cmd = Commands::Incr { key: "c".to_string() };
                assert!(cmd.execute(&s).is_ok());
            }
        }));
    }
    for w in workers {
        runtime.block_on(w).unwrap();
    }
    assert_eq!(run(&store, "GET c"), Some("+2000\r\n".to_string()));
}

#[test]
fn set_overwrites_previous_value() {
    let store = Store::new();
    run(&store, "SET k one");
    run(&store, "set k two");
    assert_eq!(run(&store, "GET k"), Some("+two\r\n".to_string()));
}

#[test]
fn empty_request_gets_no_reply() {
    let store = Store::new();
    let handled = handle_request(b"", &store);
    assert!(handled.reply.is_none());
    assert!(handled.expiry.is_none());
}
