use extract_tutorial_code::fence::{closes_with_fence, find_line_end};

#[test]
fn line_end_stands_behind_the_line_feed() {
    let bytes = b"```rust\ncode\n```";
    assert_eq!(find_line_end(bytes, 0), 8);
    assert_eq!(find_line_end(bytes, 3), 8);
    assert_eq!(find_line_end(bytes, 7), 8);
    assert_eq!(find_line_end(bytes, 8), 13);
    assert_eq!(find_line_end(bytes, 13), 16);
    assert_eq!(find_line_end(bytes, 16), 16);
    assert_eq!(find_line_end(bytes, 99), 16);
    assert_eq!(find_line_end(b"", 0), 0);
}

#[test]
fn closing_fence_behind_the_text() {
    assert!(closes_with_fence(b"```\nA\n```\n", 0, 6, 9));
    assert!(closes_with_fence(b"```\nA\n```", 0, 6, 9));
    assert!(closes_with_fence(b"```\n```", 0, 4, 7));
    assert!(closes_with_fence(b"~~~\nA\n~~~", 0, 6, 9));
    assert!(closes_with_fence(b"x\n\n```\nA\n```\n", 3, 9, 12));
}

#[test]
fn closing_fence_may_be_longer_and_followed_by_spaces() {
    assert!(closes_with_fence(b"```\nA\n`````\n", 0, 6, 11));
    assert!(closes_with_fence(b"```\nA\n```  \n", 0, 6, 11));
    assert!(closes_with_fence(b"```\nA\n  ```\n", 0, 6, 11));
    assert!(closes_with_fence(b"> ```\n> A\n> ```\n", 2, 10, 15));
}

#[test]
fn no_closing_fence_where_the_range_ends_with_the_text() {
    assert!(!closes_with_fence(b"```\nA\n", 0, 6, 6));
    assert!(!closes_with_fence(b"```\nA", 0, 5, 5));
    assert!(!closes_with_fence(b"```\n", 0, 4, 4));
    assert!(!closes_with_fence(b"```", 0, 3, 3));
}

#[test]
fn no_closing_fence_where_the_run_is_short_or_of_the_other_mark() {
    assert!(!closes_with_fence(b"````\nA\n```", 0, 7, 10));
    assert!(!closes_with_fence(b"```\nA\n~~~", 0, 6, 9));
    assert!(!closes_with_fence(b"~~~\nA\n```", 0, 6, 9));
    assert!(!closes_with_fence(b"```\nA\n``x", 0, 6, 9));
    assert!(!closes_with_fence(b"```\nA\n```\t", 0, 6, 10));
}

#[test]
fn no_closing_fence_over_more_than_one_line() {
    assert!(!closes_with_fence(b"```\nA\nB\n```", 0, 6, 11));
    assert!(!closes_with_fence(b"```\nA\n```\n", 0, 6, 10));
}

#[test]
fn no_closing_fence_where_the_places_do_not_fit() {
    let bytes = b"```\nA\n```\n";
    assert!(!closes_with_fence(bytes, 0, 6, 99));
    assert!(!closes_with_fence(bytes, 6, 6, 9));
    assert!(!closes_with_fence(bytes, 0, 9, 6));
    assert!(!closes_with_fence(bytes, 99, 100, 101));
    assert!(!closes_with_fence(bytes, 4, 6, 9));
    assert!(!closes_with_fence(b"", 0, 0, 0));
}
