use git_branchless_test::{command_slug, format_i64, format_u64, shell_escape};

#[test]
fn slug_collapses_path_unsafe_characters() {
    let slug = command_slug("cargo test --all/x y\nz");
    assert_eq!(slug, "cargo__test__--all__x__y__z");
    assert!(!slug.contains('/'));
    assert!(!slug.contains(' '));
    assert!(!slug.contains('\n'));
}

#[test]
fn slug_of_plain_command_is_unchanged() {
    assert_eq!(command_slug("true"), "true");
    assert_eq!(command_slug(""), "");
}

#[test]
fn shell_escape_quotes_and_escapes() {
    assert_eq!(shell_escape("stack()"), "\"stack()\"");
    assert_eq!(shell_escape("a\"b"), "\"a\\\"b\"");
    assert_eq!(shell_escape("a\\b"), "\"a\\\\\\\\b\"");
}

#[test]
fn decimal_formatting() {
    assert_eq!(format_u64(0), "0");
    assert_eq!(format_u64(1234567890), "1234567890");
    assert_eq!(format_i64(-125), "-125");
    assert_eq!(format_i64(i64::MIN), "-9223372036854775808");
    assert_eq!(format_u64(u64::MAX), "18446744073709551615");
}
