use sysprog::stack::{classic_example_stack, Stack};
use sysprog::words::{most_frequent_in, most_frequent_word, try_most_frequent_word};

#[test]
fn classic_stack_walkthrough() {
    let (full, top, after) = classic_example_stack();
    assert_eq!(format!("{:?}", full), "Stack { items: [1, 2, 3] }");
    assert_eq!(top, Some(3));
    assert_eq!(format!("{:?}", after), "Stack { items: [1, 2] }");
    assert_eq!(full.len(), 3);
    assert_eq!(after.len(), 2);
}

#[test]
fn stack_is_last_in_first_out() {
    let mut s: Stack<&str> = Stack::new();
    assert_eq!(s.pop(), None);
    s.push("a");
    s.push("b");
    assert_eq!(s.pop(), Some("b"));
    assert_eq!(s.pop(), Some("a"));
    assert_eq!(s.pop(), None);
    assert_eq!(s.len(), 0);
}

#[test]
fn most_frequent_word_of_sample_text() {
    let text = "the quick brown fox jumps over the lazy dog the quick brown fox";
    assert_eq!(most_frequent_word(text), ("the".to_string(), 3));
}

#[test]
fn ties_go_to_the_word_that_reached_the_top_first() {
    assert_eq!(most_frequent_word("b a a b"), ("a".to_string(), 2));
    assert_eq!(most_frequent_word("a b"), ("a".to_string(), 1));
    assert_eq!(most_frequent_word("x y y x z"), ("y".to_string(), 2));
}

#[test]
fn words_are_split_on_any_whitespace() {
    assert_eq!(most_frequent_word("  x\ty\n x  "), ("x".to_string(), 2));
    assert_eq!(most_frequent_word("a\u{3000}b\u{3000}b"), ("b".to_string(), 2));
    assert_eq!(most_frequent_word("hello"), ("hello".to_string(), 1));
}

#[test]
fn empty_text_has_no_most_frequent_word() {
    assert_eq!(try_most_frequent_word(""), None);
    assert_eq!(try_most_frequent_word("   \n\t"), None);
    assert_eq!(try_most_frequent_word("go go stop"), Some(("go".to_string(), 2)));
}

#[test]
fn most_frequent_in_a_list() {
    let words: Vec<String> = vec!["q".to_string(), "r".to_string(), "r".to_string()];
    assert_eq!(most_frequent_in(&words), ("r".to_string(), 2));
}
