use vendman::text::{compare, derive_name, Order};

#[test]
fn derive_name_takes_the_final_segment() {
    assert_eq!(derive_name("https://github.com/user/repo"), "repo");
    assert_eq!(derive_name("user/repo.git"), "repo.git");
    assert_eq!(derive_name("/srv/git/tool"), "tool");
}

#[test]
fn derive_name_of_a_locator_without_slash_is_the_locator() {
    assert_eq!(derive_name("repo"), "repo");
    assert_eq!(derive_name(""), "");
}

#[test]
fn derive_name_of_a_locator_that_ends_in_a_slash_is_empty() {
    assert_eq!(derive_name("https://example.org/repo/"), "");
    assert_eq!(derive_name("/"), "");
}

#[test]
fn derive_name_counts_characters_not_bytes() {
    assert_eq!(derive_name("dépôt/ünïcödé"), "ünïcödé");
    assert_eq!(derive_name("日本/語"), "語");
}

#[test]
fn compare_is_lexicographic() {
    assert_eq!(compare("a", "b"), Order::Before);
    assert_eq!(compare("b", "a"), Order::After);
    assert_eq!(compare("abc", "abc"), Order::Same);
    assert_eq!(compare("ab", "abc"), Order::Before);
    assert_eq!(compare("abc", "ab"), Order::After);
    assert_eq!(compare("", ""), Order::Same);
    assert_eq!(compare("", "a"), Order::Before);
    assert_eq!(compare("B", "a"), Order::Before);
}

#[test]
fn compare_agrees_with_the_order_of_strings() {
    let samples = ["", "a", "ab", "b", "Z", "zz", "é", "e", "日本", "語", "a/b", "a-b", "€", "\u{10000}"];
    for x in samples {
        for y in samples {
            let expected = if x < y {
                Order::Before
            } else if x == y {
                Order::Same
            } else {
                Order::After
            };
            assert_eq!(compare(x, y), expected, "{x:?} against {y:?}");
        }
    }
}
