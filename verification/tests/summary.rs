use safeness::SafenessSummary;

fn counts(safe: u64, unsafe_: u64) -> SafenessSummary {
    SafenessSummary { safe_expressions: safe, unsafe_expressions: unsafe_ }
}

#[test]
fn safe_leaf_is_one_safe_expression() {
    assert_eq!(SafenessSummary::new_leaf(false), counts(1, 0));
}

#[test]
fn unsafe_leaf_is_one_unsafe_expression() {
    assert_eq!(SafenessSummary::new_leaf(true), counts(0, 1));
}

#[test]
fn default_is_empty() {
    assert_eq!(SafenessSummary::default(), counts(0, 0));
}

#[test]
fn sum_is_counter_wise() {
    assert_eq!(counts(2, 5) + counts(7, 11), counts(9, 16));
}

#[test]
fn empty_summary_is_the_identity() {
    for x in [counts(0, 0), counts(3, 4), counts(u64::MAX, 1)] {
        assert_eq!(SafenessSummary::default() + x, x);
        assert_eq!(x + SafenessSummary::default(), x);
    }
}

#[test]
fn sum_is_associative_and_commutative() {
    let a = counts(1, 20);
    let b = counts(300, 4);
    let c = counts(50, 6000);
    assert_eq!(a + (b + c), (a + b) + c);
    assert_eq!((a + b) + c, a + (c + b));
    assert_eq!(a + (b + c), counts(351, 6024));
}

#[test]
fn sum_is_associative_where_it_saturates() {
    let a = counts(u64::MAX - 1, 0);
    let b = counts(1, u64::MAX);
    let c = counts(1, 1);
    assert_eq!(a + (b + c), (a + b) + c);
    assert_eq!((a + b) + c, a + (c + b));
    assert_eq!(a + (b + c), counts(u64::MAX, u64::MAX));
}

#[test]
fn sum_stops_at_the_largest_count() {
    assert_eq!(counts(u64::MAX, 0) + counts(1, 0), counts(u64::MAX, 0));
    assert_eq!(counts(u64::MAX - 1, 0) + counts(1, 0), counts(u64::MAX, 0));
    assert_eq!(counts(0, u64::MAX) + counts(5, u64::MAX), counts(5, u64::MAX));
}

#[test]
fn fold_of_nothing_is_empty() {
    assert_eq!(SafenessSummary::fold(&[]), counts(0, 0));
}

#[test]
fn fold_of_one_is_that_one() {
    assert_eq!(SafenessSummary::fold(&[counts(4, 9)]), counts(4, 9));
}

#[test]
fn fold_adds_all_items() {
    let items = [counts(1, 0), counts(0, 1), counts(0, 1), counts(1, 0), counts(0, 1)];
    assert_eq!(SafenessSummary::fold(&items), counts(2, 3));
}

#[test]
fn fold_does_not_depend_on_the_cut() {
    let items = [counts(1, 2), counts(3, 4), counts(5, 6), counts(7, 8)];
    let whole = SafenessSummary::fold(&items);
    for cut in 0..=items.len() {
        let parts = SafenessSummary::fold(&items[..cut]) + SafenessSummary::fold(&items[cut..]);
        assert_eq!(parts, whole);
    }
    assert_eq!(whole, counts(16, 20));
}

#[test]
fn fold_does_not_depend_on_the_order() {
    let items = [counts(1, 2), counts(3, 4), counts(5, 6)];
    let reversed = [counts(5, 6), counts(3, 4), counts(1, 2)];
    assert_eq!(SafenessSummary::fold(&items), SafenessSummary::fold(&reversed));
}
