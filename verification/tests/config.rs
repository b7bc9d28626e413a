use rush::config::lookup;
use rush::config::parse_config_line;
use rush::config::parse_config_lines;
use rush::config::parse_u32;
use rush::config::trim;

fn bytes(s: &str) -> Vec<u8> {
    s.as_bytes().to_vec()
}

#[test]
fn parse_line_key_value() {
    let (k, v) = parse_config_line(&bytes("font_size: 16")).unwrap();
    assert_eq!(k, bytes("font_size"));
    assert_eq!(v, bytes("16"));
}

#[test]
fn parse_line_trims_whitespace() {
    let (k, v) = parse_config_line(&bytes("  font_path \t:  /usr/share/a.ttf  ")).unwrap();
    assert_eq!(k, bytes("font_path"));
    assert_eq!(v, bytes("/usr/share/a.ttf"));
}

#[test]
fn parse_line_without_colon_yields_nothing() {
    assert!(parse_config_line(&bytes("just a comment")).is_none());
    assert!(parse_config_line(&bytes("")).is_none());
}

#[test]
fn parse_line_keeps_first_two_fields() {
    let (k, v) = parse_config_line(&bytes("a:b:c")).unwrap();
    assert_eq!(k, bytes("a"));
    assert_eq!(v, bytes("b"));
}

#[test]
fn parse_line_allows_empty_key_and_value() {
    let (k, v) = parse_config_line(&bytes(" : x")).unwrap();
    assert_eq!(k, bytes(""));
    assert_eq!(v, bytes("x"));
    let (k, v) = parse_config_line(&bytes("key:")).unwrap();
    assert_eq!(k, bytes("key"));
    assert_eq!(v, bytes(""));
}

#[test]
fn trim_strips_both_ends_only() {
    assert_eq!(trim(&bytes("  a b\t")), bytes("a b"));
    assert_eq!(trim(&bytes("\t\r\n")), bytes(""));
    assert_eq!(trim(&bytes("abc")), bytes("abc"));
}

#[test]
fn parse_lines_keeps_order_and_skips_plain_lines() {
    let lines = vec![
        bytes("# a comment"),
        bytes("font_path: /tmp/f.ttf"),
        bytes(""),
        bytes("font_size: 16"),
    ];
    let cfg = parse_config_lines(&lines);
    assert_eq!(cfg.len(), 2);
    assert_eq!(cfg[0].0, bytes("font_path"));
    assert_eq!(cfg[0].1, bytes("/tmp/f.ttf"));
    assert_eq!(cfg[1].0, bytes("font_size"));
}

#[test]
fn lookup_last_line_wins() {
    let lines = vec![bytes("font_size: 16"), bytes("font_size: 24")];
    let cfg = parse_config_lines(&lines);
    let v = lookup(&cfg, &bytes("font_size")).unwrap();
    assert_eq!(*v, bytes("24"));
    assert!(lookup(&cfg, &bytes("font_path")).is_none());
}

#[test]
fn parse_u32_accepts_plain_numbers() {
    assert_eq!(parse_u32(&bytes("16")), Some(16));
    assert_eq!(parse_u32(&bytes("0")), Some(0));
    assert_eq!(parse_u32(&bytes("007")), Some(7));
    assert_eq!(parse_u32(&bytes("+7")), Some(7));
    assert_eq!(parse_u32(&bytes("4294967295")), Some(u32::MAX));
}

#[test]
fn parse_u32_rejects_malformed_input() {
    assert_eq!(parse_u32(&bytes("")), None);
    assert_eq!(parse_u32(&bytes("+")), None);
    assert_eq!(parse_u32(&bytes("12a")), None);
    assert_eq!(parse_u32(&bytes("-3")), None);
    assert_eq!(parse_u32(&bytes(" 3")), None);
    assert_eq!(parse_u32(&bytes("4294967296")), None);
}
