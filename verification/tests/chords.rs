use motoboard::accelerator::{convert_keybind_to_accelerator, replace_chars};
use motoboard::chord::normalize_keybind;
use motoboard::text::{from_chars, join_chars, lex_le_chars, sort_parts, split_chars, to_chars};

fn chars(s: &str) -> Vec<char> {
    s.chars().collect()
}

#[test]
fn normalization_ignores_modifier_order() {
    assert_eq!(normalize_keybind("Ctrl+Shift+A"), normalize_keybind("Shift+Ctrl+A"));
    assert_eq!(normalize_keybind("Shift+Ctrl+A"), "Ctrl+Shift+A");
    assert_eq!(normalize_keybind("Shift+Meta+Alt+Ctrl+F5"), "Alt+Ctrl+Meta+Shift+F5");
}

#[test]
fn normalization_keeps_the_main_key_last() {
    assert_eq!(normalize_keybind("A"), "A");
    assert_eq!(normalize_keybind("Ctrl+A"), "Ctrl+A");
    assert_eq!(normalize_keybind("b+a+X"), "a+b+X");
    assert_eq!(normalize_keybind("Z+A"), "Z+A");
}

#[test]
fn normalization_of_odd_input() {
    assert_eq!(normalize_keybind(""), "");
    assert_eq!(normalize_keybind("+"), "+");
    assert_eq!(normalize_keybind("Ctrl++"), "+Ctrl+");
    assert_eq!(normalize_keybind("Ctrl+Ctrl+A"), "Ctrl+Ctrl+A");
}

#[test]
fn normalization_sorts_by_code_point() {
    assert_eq!(normalize_keybind("b+B+a+K"), "B+a+b+K");
    assert_eq!(normalize_keybind("ab+a+abc+K"), "a+ab+abc+K");
    assert_eq!(normalize_keybind("é+z+K"), "z+é+K");
}

#[test]
fn normalization_is_idempotent() {
    for chord in ["Shift+Ctrl+A", "Ctrl++", "", "x+y+z", "Alt+NUMPAD+"] {
        let once = normalize_keybind(chord);
        assert_eq!(normalize_keybind(&once), once);
    }
}

#[test]
fn normalization_matches_split_sort_join() {
    for chord in ["Shift+Ctrl+A", "c+b+a", "Meta+Alt+Shift+Ctrl+SPACE", "+a+", "q"] {
        let mut parts: Vec<&str> = chord.split('+').collect();
        let main = parts.pop();
        parts.sort();
        if let Some(key) = main {
            parts.push(key);
        }
        assert_eq!(normalize_keybind(chord), parts.join("+"));
    }
}

#[test]
fn split_and_join_are_inverse() {
    let parts = split_chars(&chars("a+bc++d"), '+');
    assert_eq!(parts, vec![chars("a"), chars("bc"), chars(""), chars("d")]);
    assert_eq!(join_chars(&parts, '+'), chars("a+bc++d"));
    assert_eq!(split_chars(&chars(""), '+'), vec![chars("")]);
    assert_eq!(join_chars(&Vec::new(), '+'), chars(""));
}

#[test]
fn chars_round_trip() {
    assert_eq!(to_chars("héllo"), chars("héllo"));
    assert_eq!(from_chars(&chars("héllo")), "héllo");
}

#[test]
fn lexicographic_order() {
    assert!(lex_le_chars(&chars(""), &chars("a")));
    assert!(lex_le_chars(&chars("a"), &chars("a")));
    assert!(lex_le_chars(&chars("a"), &chars("ab")));
    assert!(!lex_le_chars(&chars("ab"), &chars("a")));
    assert!(lex_le_chars(&chars("Alt"), &chars("Ctrl")));
    assert!(!lex_le_chars(&chars("b"), &chars("a")));
}

#[test]
fn sorting_parts() {
    let sorted = sort_parts(vec![chars("Shift"), chars("Alt"), chars("Ctrl"), chars("Alt")]);
    assert_eq!(sorted, vec![chars("Alt"), chars("Alt"), chars("Ctrl"), chars("Shift")]);
}

#[test]
fn accelerator_names() {
    assert_eq!(convert_keybind_to_accelerator("CONTROL+SHIFT+A"), "Ctrl+Shift+A");
    assert_eq!(convert_keybind_to_accelerator("META+SPACE"), "Super+Space");
    assert_eq!(convert_keybind_to_accelerator("CONTROL+ALT+DELETE"), "Ctrl+Alt+Delete");
    assert_eq!(convert_keybind_to_accelerator("ALT+TAB"), "Alt+Tab");
    assert_eq!(convert_keybind_to_accelerator("ARROWUP"), "Up");
    assert_eq!(convert_keybind_to_accelerator("ARROWDOWN"), "Down");
    assert_eq!(convert_keybind_to_accelerator("ARROWLEFT"), "Left");
    assert_eq!(convert_keybind_to_accelerator("ARROWRIGHT"), "Right");
    assert_eq!(convert_keybind_to_accelerator("ESCAPE"), "Escape");
    assert_eq!(convert_keybind_to_accelerator("ENTER"), "Return");
    assert_eq!(convert_keybind_to_accelerator("Ctrl+F5"), "Ctrl+F5");
    assert_eq!(convert_keybind_to_accelerator(""), "");
}

#[test]
fn accelerator_renames_in_turn() {
    // The space bar's name is replaced before the backspace key's is looked for.
    assert_eq!(convert_keybind_to_accelerator("BACKSPACE"), "BACKSpace");
}

#[test]
fn accelerator_matches_chained_replace() {
    for keybind in ["CONTROL+META+ENTER", "SHIFT+BACKSPACE", "ALTALT", "METAL+TABLE", "xyz"] {
        let expected = keybind
            .replace("CONTROL", "Ctrl")
            .replace("SHIFT", "Shift")
            .replace("ALT", "Alt")
            .replace("META", "Super")
            .replace("SPACE", "Space")
            .replace("ARROWUP", "Up")
            .replace("ARROWDOWN", "Down")
            .replace("ARROWLEFT", "Left")
            .replace("ARROWRIGHT", "Right")
            .replace("ESCAPE", "Escape")
            .replace("ENTER", "Return")
            .replace("BACKSPACE", "Backspace")
            .replace("DELETE", "Delete")
            .replace("TAB", "Tab");
        assert_eq!(convert_keybind_to_accelerator(keybind), expected);
    }
}

#[test]
fn replacing_does_not_overlap() {
    assert_eq!(replace_chars(&chars("aaa"), &chars("aa"), &chars("b")), chars("ba"));
    assert_eq!(replace_chars(&chars("abab"), &chars("ab"), &chars("")), chars(""));
    assert_eq!(replace_chars(&chars("abc"), &chars("abcd"), &chars("x")), chars("abc"));
    assert_eq!(replace_chars(&chars("xaxa"), &chars("a"), &chars("aa")), chars("xaaxaa"));
}
