use s4::text::{
    chars_of, decimal_string, split_str, str_contains, str_ends_with, str_eq, str_less, trim,
};
use s4::{child_path, identifier, join_path, push_path, relative_path};

fn strings(items: &[&str]) -> Vec<String> {
    items.iter().map(|s| s.to_string()).collect()
}

#[test]
fn strings_are_ordered_by_code_point() {
    assert!(str_less("a", "b"));
    assert!(str_less("", "a"));
    assert!(str_less("ab", "abc"));
    assert!(str_less("Z", "a"));
    assert!(!str_less("b", "a"));
    assert!(!str_less("a", "a"));
    assert!(!str_less("abc", "ab"));
    assert!(str_less("z", "\u{e9}"));
    assert!(str_eq("kernel-platform", "kernel-platform"));
    assert!(!str_eq("kernel-platform", "kernel-platforn"));
    assert!(!str_eq("a", "ab"));
    assert_eq!(chars_of("h\u{e9}!"), vec!['h', '\u{e9}', '!']);
}

#[test]
fn splitting_keeps_empty_pieces() {
    assert_eq!(split_str("a:b", ':'), strings(&["a", "b"]));
    assert_eq!(split_str("", ':'), strings(&[""]));
    assert_eq!(split_str("a:", ':'), strings(&["a", ""]));
    assert_eq!(split_str(":a::b", ':'), strings(&["", "a", "", "b"]));
    assert_eq!(split_str("no separator", ':'), strings(&["no separator"]));
}

#[test]
fn trimming_takes_white_space_off_both_ends() {
    assert_eq!(trim("  a b \t\n"), "a b");
    assert_eq!(trim(""), "");
    assert_eq!(trim(" \n\t "), "");
    assert_eq!(trim("x"), "x");
    assert_eq!(trim("\u{a0}\u{3000}x\u{2003}"), "x");
    assert_eq!(trim("\u{200b}x"), "\u{200b}x");
    for text in ["  lead", "trail  ", "\r\n mid dle \x0b\x0c", "\u{85}\u{1680}z\u{2028}\u{2029}\u{202f}\u{205f}"] {
        assert_eq!(trim(text), text.trim());
    }
}

#[test]
fn endings_and_occurrences() {
    assert!(str_ends_with("name.git", ".git"));
    assert!(!str_ends_with("name.gi", ".git"));
    assert!(!str_ends_with("git", ".git"));
    assert!(str_ends_with("x", ""));
    assert!(str_contains("podman version 4.3", "podman"));
    assert!(str_contains("xpodman", "podman"));
    assert!(!str_contains("Docker version 20", "podman"));
    assert!(!str_contains("pod", "podman"));
    assert!(str_contains("anything", ""));
}

#[test]
fn numbers_in_decimal() {
    assert_eq!(decimal_string(0), "0");
    assert_eq!(decimal_string(7), "7");
    assert_eq!(decimal_string(10), "10");
    assert_eq!(decimal_string(1000), "1000");
    assert_eq!(decimal_string(65534), "65534");
    assert_eq!(decimal_string(4294967295), "4294967295");
}

#[test]
fn relative_paths() {
    let root = strings(&["/", "home", "me", "ws"]);
    let build = strings(&["/", "home", "me", "ws", "builds", "one"]);
    assert_eq!(relative_path(&root, &build), strings(&["builds", "one"]));
    assert_eq!(relative_path(&build, &root), strings(&["..", ".."]));
    let other = strings(&["/", "home", "you", "b"]);
    assert_eq!(relative_path(&root, &other), strings(&["..", "..", "you", "b"]));
    assert_eq!(relative_path(&root, &root), Vec::<String>::new());
    assert_eq!(join_path(&strings(&["..", "..", "you", "b"])), "../../you/b");
    assert_eq!(join_path(&Vec::new()), "");
    assert_eq!(join_path(&strings(&["one"])), "one");
}

#[test]
fn paths_inside_directories() {
    assert_eq!(child_path("ws", ".s4-workspace.toml"), "ws/.s4-workspace.toml");
    assert_eq!(child_path("ws/", "x"), "ws/x");
    assert_eq!(child_path("", "x"), "x");
    assert_eq!(push_path("/host", "sub/dir"), "/host/sub/dir");
    assert_eq!(push_path("/host", "/build"), "/build");
    assert_eq!(push_path("/host", ""), "/host/");
}

#[test]
fn identifiers_of_variables() {
    assert_eq!(identifier("KERNEL_MCS"), "kernel-mcs");
    assert_eq!(identifier("SIMULATION"), "simulation");
    assert_eq!(identifier("KernelArmHyp"), "kernel-arm-hyp");
    assert_eq!(identifier("Sel4testAllowSettings"), "sel4test-allow-settings");
    assert_eq!(identifier("FOO_2"), "f-o-o_2");
    assert_eq!(identifier("x"), "x");
    assert_eq!(identifier(""), "");
}
