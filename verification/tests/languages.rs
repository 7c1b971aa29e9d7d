use codeln::languages::{get_language_name, language_for};

#[test]
fn recognizes_known_extensions_case_insensitively() {
    assert_eq!(get_language_name("rs"), "Rust");
    assert_eq!(get_language_name("RS"), "Rust");
    assert_eq!(get_language_name("py"), "Python");
    assert_eq!(get_language_name("tsx"), "React TSX");
}

#[test]
fn falls_back_to_the_extension_itself_when_unknown() {
    assert_eq!(get_language_name("xyz"), "xyz");
}

#[test]
fn unknown_extension_keeps_its_case() {
    assert_eq!(get_language_name("XYZ"), "XYZ");
    assert_eq!(get_language_name("Hpp"), "C++ Header");
}

#[test]
fn non_ascii_lowercasing_is_applied() {
    // KELVIN SIGN lowercases to an ASCII 'k'.
    assert_eq!(get_language_name("\u{212A}t"), "Kotlin");
}

#[test]
fn language_for_uses_the_lowercase_form() {
    assert_eq!(language_for("md", "MD"), "Markdown");
    assert_eq!(language_for("qq", "QQ"), "QQ");
}
