use cli_warden::config::CommandEntry;
use cli_warden::ordered::sorted_unique;
use cli_warden::registry::CommandRegistry;
use cli_warden::text::{comes_before, decimal, join_path, signed_decimal, split_words, trim};

fn list(items: &[&str]) -> Vec<String> {
    items.iter().map(|s| s.to_string()).collect()
}

#[test]
fn numbers_are_written_in_decimal() {
    assert_eq!(decimal(0), "0");
    assert_eq!(decimal(u64::MAX), "18446744073709551615");
    assert_eq!(signed_decimal(-10), "-10");
    assert_eq!(signed_decimal(i32::MAX), "2147483647");
}

#[test]
fn white_space_is_that_of_unicode() {
    assert_eq!(trim("\u{3000} a b \u{85}\n"), "a b");
    assert_eq!(split_words(" a\u{a0}b\tc  "), list(&["a", "b", "c"]));
    for c in '\u{0}'..='\u{ffff}' {
        let text = c.to_string();
        assert_eq!(trim(&text), text.trim(), "{c:?}");
    }
}

#[test]
fn paths_are_joined_as_the_system_joins_them() {
    for (base, rest) in [
        ("a", "b"),
        ("a/", "b"),
        ("", "b"),
        ("a", "/b"),
        ("a", ""),
        ("/", "b"),
        ("a", "b/c"),
    ] {
        assert_eq!(
            join_path(base, rest),
            std::path::Path::new(base).join(rest).to_string_lossy()
        );
    }
}

#[test]
fn texts_are_ordered_by_code_points() {
    let samples = ["", "a", "ab", "b", "é", "\u{ffff}", "\u{10000}", "Z"];
    for a in samples {
        for b in samples {
            assert_eq!(comes_before(a, b), a < b, "{a:?} {b:?}");
        }
    }
    assert_eq!(
        sorted_unique(&list(&["b", "é", "a", "b", "Z"])),
        list(&["Z", "a", "b", "é"])
    );
}

#[test]
fn later_entry_for_a_command_counts() {
    let entry = |id: &str, path: &str| CommandEntry {
        id: id.to_string(),
        path: path.to_string(),
    };
    let registry = CommandRegistry::from_entries(&[
        entry("b", "/b"),
        entry("a", "/a"),
        entry("b", "/c"),
    ]);
    assert_eq!(registry.ids(), list(&["a", "b"]));
    assert_eq!(registry.get("b"), Some("/c".to_string()));
    assert_eq!(registry.get("a"), Some("/a".to_string()));
    assert_eq!(registry.get("c"), None);
}
