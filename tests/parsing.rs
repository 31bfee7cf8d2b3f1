use kvstore::{adjust, arith_reply, Commands, Param, ParseError, StepFailure};

#[test]
fn parses_each_command() {
    assert_eq!(
        Commands::parse_command(b"GET foo"),
        Ok(Commands::Get { key: "foo".to_string() })
    );
    assert_eq!(
        Commands::parse_command(b"  set foo bar\r\n"),
        Ok(Commands::SetValue { key: "foo".to_string(), value: "bar".to_string() })
    );
    assert_eq!(
        Commands::parse_command(b"SeTeX k 10 v"),
        Ok(Commands::Setex { key: "k".to_string(), seconds: 10, value: "v".to_string() })
    );
    assert_eq!(
        Commands::parse_command(b"DEL a\n"),
        Ok(Commands::Del { key: "a".to_string() })
    );
    assert_eq!(
        Commands::parse_command(b"incr\tn"),
        Ok(Commands::Incr { key: "n".to_string() })
    );
    assert_eq!(
        Commands::parse_command(b"DECR n extra"),
        Ok(Commands::Decr { key: "n".to_string() })
    );
}

#[test]
fn value_is_one_token() {
    assert_eq!(
        Commands::parse_command(b"SET k hello world"),
        Ok(Commands::SetValue { key: "k".to_string(), value: "hello".to_string() })
    );
}

#[test]
fn parse_errors() {
    assert_eq!(Commands::parse_command(b""), Err(ParseError::NoData));
    assert_eq!(Commands::parse_command(b" \r\n"), Err(ParseError::MissingCommand));
    assert_eq!(Commands::parse_command(b"PING"), Err(ParseError::UnknownCommand));
    assert_eq!(Commands::parse_command(b"GETS a"), Err(ParseError::UnknownCommand));
    assert_eq!(
        Commands::parse_command(b"GET"),
        Err(ParseError::MissingParameter(Param::Key))
    );
    assert_eq!(
        Commands::parse_command(b"SET k"),
        Err(ParseError::MissingParameter(Param::Value))
    );
    assert_eq!(
        Commands::parse_command(b"SETEX k"),
        Err(ParseError::MissingParameter(Param::Seconds))
    );
    assert_eq!(
        Commands::parse_command(b"SETEX k soon v"),
        Err(ParseError::InvalidType(Param::Seconds))
    );
    assert_eq!(
        Commands::parse_command(b"SETEX k -1 v"),
        Err(ParseError::InvalidType(Param::Seconds))
    );
    assert_eq!(
        Commands::parse_command(b"SETEX k 5"),
        Err(ParseError::MissingParameter(Param::Value))
    );
}

#[test]
fn seconds_accepts_plus_sign_and_largest_value() {
    assert_eq!(
        Commands::parse_command(b"SETEX k +3 v"),
        Ok(Commands::Setex { key: "k".to_string(), seconds: 3, value: "v".to_string() })
    );
    assert_eq!(
        Commands::parse_command(b"SETEX k 18446744073709551615 v"),
        Ok(Commands::Setex { key: "k".to_string(), seconds: u64::MAX, value: "v".to_string() })
    );
    assert_eq!(
        Commands::parse_command(b"SETEX k 18446744073709551616 v"),
        Err(ParseError::InvalidType(Param::Seconds))
    );
}

#[test]
fn error_messages() {
    assert_eq!(ParseError::NoData.message(), "-ERROR: Client sent no data");
    assert_eq!(ParseError::MissingCommand.message(), "-ERROR: Missing command");
    assert_eq!(
        ParseError::MissingParameter(Param::Key).message(),
        "-ERROR: KEY parameter is required."
    );
    assert_eq!(
        ParseError::InvalidType(Param::Seconds).message(),
        "-ERROR: SECONDS parameter needs to be of type: u64"
    );
    assert_eq!(ParseError::UnknownCommand.message(), "-ERROR: Unknown command.");
}

#[test]
fn adjust_steps() {
    let five = "5".to_string();
    assert_eq!(adjust(Some(&five), true), Ok("6".to_string()));
    assert_eq!(adjust(Some(&five), false), Ok("4".to_string()));
    let zero = "-0".to_string();
    assert_eq!(adjust(Some(&zero), false), Ok("-1".to_string()));
    let text = "abc".to_string();
    assert_eq!(adjust(Some(&text), true), Err(StepFailure::NotInteger));
    assert_eq!(adjust(None, true), Err(StepFailure::Missing));
    let max = i64::MAX.to_string();
    assert_eq!(adjust(Some(&max), true), Err(StepFailure::OutOfRange));
}

#[test]
fn respond_from_prior_value() {
    let get = Commands::Get { key: "k".to_string() };
    let v = "val".to_string();
    assert_eq!(get.respond(Some(&v)), Ok("+val\r\n".to_string()));
    assert_eq!(get.respond(None), Ok("-ERROR: Key \"k\" not found\r\n".to_string()));
    let incr = Commands::Incr { key: "k".to_string() };
    let n = "41".to_string();
    assert_eq!(incr.respond(Some(&n)), Ok("+42\r\n".to_string()));
    assert_eq!(
        arith_reply("k", Err(StepFailure::Missing)),
        Ok("-ERROR: Key \"k\" not found\r\n".to_string())
    );
    let del = Commands::Del { key: "k".to_string() };
    assert_eq!(del.respond(Some(&v)), Ok("+OK\r\n".to_string()));
}

#[test]
fn non_ascii_bytes_are_read_lossily() {
    assert_eq!(
        Commands::parse_command(b"GET \xffk"),
        Ok(Commands::Get { key: "\u{FFFD}k".to_string() })
    );
}
