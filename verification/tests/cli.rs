use bustd::cli::parse_unkillables;

fn list(items: &[&str]) -> Result<Vec<String>, String> {
    Ok(items.iter().map(|s| s.to_string()).collect())
}

#[test]
fn tildes_separate_the_patterns() {
    assert_eq!(parse_unkillables("Xorg~ssh*~systemd"), list(&["Xorg", "ssh*", "systemd"]));
    assert_eq!(parse_unkillables("Xorg"), list(&["Xorg"]));
    assert_eq!(parse_unkillables("a b~c"), list(&["a b", "c"]));
}

#[test]
fn empty_pieces_are_kept() {
    assert_eq!(parse_unkillables(""), list(&[""]));
    assert_eq!(parse_unkillables("~"), list(&["", ""]));
    assert_eq!(parse_unkillables("a~~b"), list(&["a", "", "b"]));
    assert_eq!(parse_unkillables("~a~"), list(&["", "a", ""]));
}

#[test]
fn pieces_may_hold_any_character() {
    assert_eq!(parse_unkillables("caf\u{e9}~\u{65e5}\u{672c}"), list(&["caf\u{e9}", "\u{65e5}\u{672c}"]));
    assert_eq!(
        parse_unkillables("Xorg~ssh*~systemd").unwrap(),
        "Xorg~ssh*~systemd".split('~').map(ToOwned::to_owned).collect::<Vec<String>>()
    );
}
