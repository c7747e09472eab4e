use git_branchless_test::{checkout, next, prev, ChildChoice, NavigationAction, NavigationError, Towards};

#[test]
fn prev_targets() {
    assert_eq!(prev(None), NavigationAction::CheckOut("HEAD^".to_string()));
    assert_eq!(prev(Some(3)), NavigationAction::CheckOut("HEAD~3".to_string()));
}

#[test]
fn next_walk() {
    assert_eq!(next(None, None, None, false), Err(NavigationError::NoHead));
    let mut walk = next(Some("h".to_string()), Some(2), Some(Towards::Newest), false).unwrap();
    assert_eq!(walk.remaining, 2);
    assert_eq!(walk.pick_child(3), ChildChoice::Take(2));
    walk.move_to("c".to_string());
    assert_eq!(walk.pick_child(1), ChildChoice::Take(0));
    walk.move_to("d".to_string());
    assert!(walk.is_done());
    assert_eq!(walk.current, "d");
    assert_eq!(walk.pick_child(0), ChildChoice::NoMoreChildren);
    assert_eq!(walk.no_more_children_message(), "No more child commits to go to after traversing 2 children.");

    let walk = next(Some("h".to_string()), None, None, true).unwrap();
    assert_eq!(walk.remaining, 1);
    assert_eq!(walk.pick_child(2), ChildChoice::Prompt);
    let walk = next(Some("h".to_string()), Some(-1), None, false).unwrap();
    assert!(walk.is_done());
    assert_eq!(walk.pick_child(2), ChildChoice::Ambiguous);
    let walk = next(Some("h".to_string()), None, Some(Towards::Oldest), false).unwrap();
    assert_eq!(walk.pick_child(4), ChildChoice::Take(0));
}

#[test]
fn checkout_selection() {
    assert_eq!(checkout(Some("abc".to_string())), NavigationAction::CheckOut("abc".to_string()));
    assert_eq!(checkout(None), NavigationAction::Exit(1));
}
