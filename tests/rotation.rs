use wg_toggle::rotation::rotate_current;

fn names(items: &[&str]) -> Vec<String> {
    items.iter().map(|s| s.to_string()).collect()
}

#[test]
fn forward_moves_to_next_name() {
    let list = names(&["a", "b", "c"]);
    assert_eq!(rotate_current("a", &list, false), "b");
    assert_eq!(rotate_current("b", &list, false), "c");
}

#[test]
fn backward_moves_to_previous_name() {
    let list = names(&["a", "b", "c"]);
    assert_eq!(rotate_current("c", &list, true), "b");
    assert_eq!(rotate_current("b", &list, true), "a");
}

#[test]
fn rotation_wraps_at_both_ends() {
    let list = names(&["a", "b", "c"]);
    assert_eq!(rotate_current("c", &list, false), "a");
    assert_eq!(rotate_current("a", &list, true), "c");
}

#[test]
fn forward_then_backward_returns_for_every_name() {
    let list = names(&["alpha", "beta", "gamma", "home"]);
    for x in &list {
        let there = rotate_current(x, &list, false);
        assert_eq!(&rotate_current(&there, &list, true), x);
        let back = rotate_current(x, &list, true);
        assert_eq!(&rotate_current(&back, &list, false), x);
    }
}

#[test]
fn single_name_rotates_onto_itself() {
    let list = names(&["a"]);
    assert_eq!(rotate_current("a", &list, false), "a");
    assert_eq!(rotate_current("a", &list, true), "a");
}

#[test]
fn unknown_name_starts_from_the_front() {
    let list = names(&["a", "b", "c"]);
    assert_eq!(rotate_current("x", &list, false), "b");
    assert_eq!(rotate_current("x", &list, true), "c");
}

#[test]
fn unknown_name_in_single_list_gives_that_name() {
    let list = names(&["a"]);
    assert_eq!(rotate_current("gone", &list, false), "a");
    assert_eq!(rotate_current("gone", &list, true), "a");
}

#[test]
fn repeated_name_rotates_from_its_first_place() {
    let list = names(&["a", "b", "a", "c"]);
    assert_eq!(rotate_current("a", &list, false), "b");
    assert_eq!(rotate_current("a", &list, true), "c");
}

#[test]
fn name_matches_whole_text_only() {
    let list = names(&["home", "homework", "work"]);
    assert_eq!(rotate_current("homework", &list, false), "work");
    assert_eq!(rotate_current("hom", &list, false), "homework");
}
