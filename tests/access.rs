use kvstore::numeric::token_string;
use kvstore::{Access, Commands};

fn key(s: &str) -> String {
    s.to_string()
}

#[test]
fn each_command_hands_the_map_its_operation() {
    assert!(matches!(Commands::Get { key: key("a") }.access(), Access::Read(k) if k == "a"));
    assert!(matches!(
        Commands::SetValue { key: key("a"), value: key("b") }.access(),
        Access::Write(k, v) if k == "a" && v == "b"
    ));
    assert!(matches!(
        Commands::Setex { key: key("t"), seconds: 0, value: key("v") }.access(),
        Access::Write(k, v) if k == "t" && v == "v"
    ));
    assert!(matches!(Commands::Del { key: key("d") }.access(), Access::Remove(k) if k == "d"));
    assert!(matches!(Commands::Incr { key: key("n") }.access(), Access::Adjust(k, true) if k == "n"));
    assert!(matches!(Commands::Decr { key: key("n") }.access(), Access::Adjust(k, false) if k == "n"));
}

#[test]
fn token_text_keeps_ascii_and_replaces_invalid_bytes() {
    assert_eq!(token_string(b"temp"), "temp");
    assert_eq!(token_string(b"a\xffb"), "a\u{FFFD}b");
    assert_eq!(token_string("é".as_bytes()), "é");
}
