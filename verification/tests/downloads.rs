use webnovel_epub::download::{keep_successes, MAX_IN_FLIGHT};

fn some(s: &str) -> Option<String> {
    Some(s.to_string())
}

#[test]
fn at_most_three_fetches_at_a_time() {
    assert_eq!(MAX_IN_FLIGHT, 3);
}

#[test]
fn failed_fetch_is_left_out_and_order_stays() {
    let kept = keep_successes(&vec![some("text(A)"), None, some("text(C)")]);
    assert_eq!(kept, vec!["text(A)".to_string(), "text(C)".to_string()]);
}

#[test]
fn all_arrived() {
    let kept = keep_successes(&vec![some("a"), some("b"), some("c"), some("d")]);
    assert_eq!(kept, vec!["a", "b", "c", "d"]);
}

#[test]
fn none_arrived() {
    assert!(keep_successes(&vec![None, None]).is_empty());
    assert!(keep_successes(&Vec::new()).is_empty());
}

#[test]
fn kept_texts_are_no_more_than_requests() {
    let results = vec![None, some("x"), None, some("y"), some("x")];
    let kept = keep_successes(&results);
    assert!(kept.len() <= results.len());
    assert_eq!(kept, vec!["x", "y", "x"]);
}
