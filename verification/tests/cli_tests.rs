use pipewire_web_remote::cli::Cli;
use pipewire_web_remote::strings::{
    find_char_from, parse_u32, str_contains, str_ends_with, str_eq_str, str_starts_with,
    u32_to_string,
};

fn cli(listen: &str, allow_external: bool) -> Cli {
    Cli { listen: listen.to_string(), allow_external, command: None }
}

#[test]
fn listen_address_kept_when_local_only() {
    assert_eq!(cli("127.0.0.1:8449", false).get_listen_address(), "127.0.0.1:8449");
    assert_eq!(cli("myhost:1234", false).get_listen_address(), "myhost:1234");
}

#[test]
fn listen_address_rewritten_for_external() {
    assert_eq!(cli("127.0.0.1:8449", true).get_listen_address(), "0.0.0.0:8449");
    assert_eq!(cli("myhost:1234", true).get_listen_address(), "0.0.0.0:1234");
}

#[test]
fn listen_address_defaults_without_port() {
    assert_eq!(cli("nocolon", true).get_listen_address(), "0.0.0.0:8449");
}

#[test]
fn listen_address_takes_second_colon_field() {
    assert_eq!(cli("a:b:c", true).get_listen_address(), "0.0.0.0:b");
}

#[test]
fn is_external_by_flag_or_wildcard() {
    assert!(cli("127.0.0.1:8449", true).is_external());
    assert!(cli("0.0.0.0:8449", false).is_external());
    assert!(!cli("127.0.0.1:8449", false).is_external());
}

#[test]
fn decimal_rendering_is_exact() {
    assert_eq!(u32_to_string(0), "0");
    assert_eq!(u32_to_string(7), "7");
    assert_eq!(u32_to_string(42), "42");
    assert_eq!(u32_to_string(4294967295), "4294967295");
}

#[test]
fn decimal_parsing_is_exact() {
    assert_eq!(parse_u32("0"), Some(0));
    assert_eq!(parse_u32("42"), Some(42));
    assert_eq!(parse_u32("4294967295"), Some(4294967295));
    assert_eq!(parse_u32("4294967296"), None);
    assert_eq!(parse_u32(""), None);
    assert_eq!(parse_u32("12a"), None);
    assert_eq!(parse_u32("-1"), None);
}

#[test]
fn string_helpers_behave() {
    assert!(str_eq_str("abc", "abc"));
    assert!(!str_eq_str("abc", "abd"));
    assert!(str_starts_with("0.0.0.0:8449", "0.0.0.0:"));
    assert!(!str_starts_with("127.0.0.1", "0.0.0.0:"));
    assert!(str_ends_with("preset.json", ".json"));
    assert!(!str_ends_with("preset.txt", ".json"));
    assert!(str_contains("Volume: 0.75 [MUTED]", "[MUTED]"));
    assert!(!str_contains("Volume: 0.75", "[MUTED]"));
    assert_eq!(find_char_from("a:b:c", ':', 0), 1);
    assert_eq!(find_char_from("a:b:c", ':', 2), 3);
    assert_eq!(find_char_from("abc", ':', 0), 3);
}
