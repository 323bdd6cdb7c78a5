use gcp_auth::scope::ScopeSet;

fn names(set: &ScopeSet) -> Vec<String> {
    let mut out = Vec::new();
    for i in 0..set.len() {
        out.push(set.get(i).to_string());
    }
    out
}

#[test]
fn scope_set_sorts_and_drops_repeats() {
    let set = ScopeSet::new(&["b", "a", "b", "c", "a"]);
    assert_eq!(names(&set), vec!["a", "b", "c"]);
}

#[test]
fn scope_set_of_nothing_is_empty() {
    let set = ScopeSet::new(&[]);
    assert_eq!(set.len(), 0);
    assert!(!set.contains("a"));
}

#[test]
fn scope_set_does_not_depend_on_order() {
    let first = ScopeSet::new(&["https://example.test/read", "https://example.test/write"]);
    let second = ScopeSet::new(&["https://example.test/write", "https://example.test/read"]);
    assert!(first.same(&second));
    assert!(second.same(&first));
    assert_eq!(names(&first), names(&second));
}

#[test]
fn scope_set_does_not_depend_on_repetition() {
    let first = ScopeSet::new(&["x", "y"]);
    let second = ScopeSet::new(&["y", "x", "y", "x"]);
    assert!(first.same(&second));
}

#[test]
fn scope_set_is_case_sensitive() {
    let set = ScopeSet::new(&["a", "A"]);
    assert_eq!(names(&set), vec!["A", "a"]);
    assert!(set.contains("A"));
    assert!(set.contains("a"));
    assert!(!ScopeSet::new(&["a"]).same(&ScopeSet::new(&["A"])));
}

#[test]
fn scope_set_puts_a_prefix_first() {
    let set = ScopeSet::new(&["abc", "ab", "abcd", ""]);
    assert_eq!(names(&set), vec!["", "ab", "abc", "abcd"]);
}

#[test]
fn scope_set_orders_as_strings_compare() {
    let mut expected = vec!["zeta", "Zeta", "\u{e9}t\u{e9}", "eta", "\u{4e2d}", "e", "~"];
    let set = ScopeSet::new(&expected);
    expected.sort();
    assert_eq!(names(&set), expected);
}

#[test]
fn scope_set_with_different_members_differs() {
    let first = ScopeSet::new(&["a", "b"]);
    assert!(!first.same(&ScopeSet::new(&["a"])));
    assert!(!first.same(&ScopeSet::new(&["a", "c"])));
    assert!(!first.same(&ScopeSet::new(&["a", "b", "c"])));
}

#[test]
fn scope_set_contains_its_members_only() {
    let set = ScopeSet::new(&["m", "d", "t"]);
    assert!(set.contains("d"));
    assert!(set.contains("m"));
    assert!(set.contains("t"));
    assert!(!set.contains("a"));
    assert!(!set.contains("e"));
    assert!(!set.contains("z"));
    assert!(!set.contains("dd"));
}

#[test]
fn scope_set_copy_is_the_same_set() {
    let set = ScopeSet::new(&["one", "two"]);
    let copy = set.duplicate();
    assert!(copy.same(&set));
    assert_eq!(names(&copy), vec!["one", "two"]);
}
