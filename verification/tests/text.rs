use runbun::text::{chars_of, joined, owned, same_text, text_less};

#[test]
fn same_text_compares_character_by_character() {
    assert!(same_text("", ""));
    assert!(same_text("abc", "abc"));
    assert!(!same_text("abc", "abd"));
    assert!(!same_text("abc", "ab"));
    assert!(!same_text("", "a"));
    assert!(same_text("grüß", "grüß"));
}

#[test]
fn text_less_is_the_lexicographic_order() {
    assert!(text_less("", "a"));
    assert!(!text_less("a", ""));
    assert!(!text_less("", ""));
    assert!(text_less("/bin/a", "/bin/b"));
    assert!(text_less("/bin/a", "/bin/ab"));
    assert!(!text_less("/bin/ab", "/bin/a"));
    assert!(text_less("/bin/Z", "/bin/a"));
    assert!(!text_less("/bin/a", "/bin/a"));
    assert!(text_less("z", "ä"));
}

#[test]
fn text_less_agrees_with_the_order_of_strings() {
    let words = ["", "a", "ab", "b", "ba", "é", "z", "/usr/bin", "/usr/bin/x", "Z"];
    for a in words {
        for b in words {
            assert_eq!(text_less(a, b), a < b, "{:?} {:?}", a, b);
        }
    }
}

#[test]
fn chars_of_gives_the_characters() {
    assert_eq!(chars_of("a=ß"), vec!['a', '=', 'ß']);
    assert!(chars_of("").is_empty());
}

#[test]
fn joined_puts_one_text_behind_the_other() {
    assert_eq!(joined("ab", "cd"), "abcd");
    assert_eq!(joined("", ""), "");
    assert_eq!(owned("x"), "x");
}
