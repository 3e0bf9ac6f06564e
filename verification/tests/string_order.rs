use ontogen::order::{dedup_sorted, lex_le_exec, sort_strings};

#[test]
fn strings_sort_by_code_point() {
    let mut v = vec!["b".to_string(), "B".to_string(), "a".to_string(), "ab".to_string(), "a".to_string()];
    sort_strings(&mut v);
    assert_eq!(v, vec!["B", "a", "a", "ab", "b"]);
    let mut std_sorted = vec!["b".to_string(), "B".to_string(), "a".to_string(), "ab".to_string(), "a".to_string()];
    std_sorted.sort();
    assert_eq!(v, std_sorted);
}

#[test]
fn sorted_strings_lose_their_repeats() {
    let v = vec!["a".to_string(), "a".to_string(), "b".to_string(), "c".to_string(), "c".to_string()];
    assert_eq!(dedup_sorted(&v), vec!["a", "b", "c"]);
    assert!(lex_le_exec("ab", "b"));
    assert!(!lex_le_exec("b", "ab"));
    assert!(lex_le_exec("", "x"));
}
