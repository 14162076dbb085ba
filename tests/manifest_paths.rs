use cargo_cloudrun::manifest::rewrite_package_name;
use cargo_cloudrun::paths::same_file_path;

#[test]
fn rewrites_name_in_package_section() {
    let input = "[package]\nname = \"template\"\nversion = \"0.1.0\"\n\n[dependencies]\naxum = \"0.7\"\n";
    let out = rewrite_package_name(input, "foo");
    assert_eq!(
        out,
        "[package]\nname = \"foo\"\nversion = \"0.1.0\"\n\n[dependencies]\naxum = \"0.7\"\n"
    );
}

#[test]
fn replaces_only_first_name_line() {
    let input = "[package]\nname = \"a\"\nname = \"b\"\n[package]\nname = \"c\"\n";
    let out = rewrite_package_name(input, "svc");
    assert_eq!(out, "[package]\nname = \"svc\"\nname = \"b\"\n[package]\nname = \"c\"\n");
}

#[test]
fn name_before_package_header_is_kept() {
    let input = "name = \"top\"\n[package]\n  name = \"inner\"\n";
    let out = rewrite_package_name(input, "x");
    assert_eq!(out, "name = \"top\"\n[package]\nname = \"x\"\n");
}

#[test]
fn no_package_section_keeps_text() {
    let input = "[workspace]\nname = \"w\"";
    assert_eq!(rewrite_package_name(input, "x"), "[workspace]\nname = \"w\"\n");
}

#[test]
fn empty_manifest_stays_empty() {
    assert_eq!(rewrite_package_name("", "x"), "");
}

#[test]
fn carriage_returns_are_dropped_with_line_feeds() {
    let input = "[package]\r\nname = \"a\"\r\nedition = \"2021\"\r\n";
    assert_eq!(
        rewrite_package_name(input, "b"),
        "[package]\nname = \"b\"\nedition = \"2021\"\n"
    );
}

#[test]
fn rewrite_twice_is_rewrite_once() {
    let input = "[package]\nname = \"foo\"\n[lib]\nname = \"bar\"\n";
    let once = rewrite_package_name(input, "foo");
    assert_eq!(once, input);
    let twice = rewrite_package_name(&once, "foo");
    assert_eq!(twice, once);
    let other = rewrite_package_name(input, "baz");
    assert_eq!(rewrite_package_name(&other, "baz"), other);
}

#[test]
fn same_path_despite_separators() {
    assert!(same_file_path("/a//b/./Cargo.toml", "/a/b/Cargo.toml"));
    assert!(same_file_path("C:\\ws\\Cargo.toml", "C:/ws/Cargo.toml"));
    assert!(same_file_path("/a/b/", "/a/b"));
}

#[test]
fn different_paths_differ() {
    assert!(!same_file_path("/a/b/Cargo.toml", "/a/c/Cargo.toml"));
    assert!(!same_file_path("/a/b", "a/b"));
    assert!(!same_file_path("/a/b", "/a/b/c"));
}

#[test]
fn leading_current_dir_is_a_component() {
    assert!(!same_file_path("./Cargo.toml", "Cargo.toml"));
    assert!(same_file_path("./a/./b", "./a/b"));
    assert!(same_file_path("/./a", "/a"));
    assert!(same_file_path("././a", "./a"));
}
