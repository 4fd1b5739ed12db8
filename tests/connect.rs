use railnet::connect::{connection_kind, first_feasible_bend, Connection};

#[test]
fn connection_without_directions_is_straight() {
    assert_eq!(connection_kind::<(i32, i32)>(&None, &None), Connection::Straight);
}

#[test]
fn connection_with_source_direction_leaves_along_it() {
    assert_eq!(connection_kind(&Some((1, 0)), &None), Connection::FromSource);
}

#[test]
fn connection_with_destination_direction_arrives_along_it() {
    assert_eq!(connection_kind(&None, &Some((0, 1))), Connection::IntoDestination);
}

#[test]
fn connection_with_both_directions_is_a_bend() {
    assert_eq!(connection_kind(&Some((1, 0)), &Some((0, 1))), Connection::Bend);
}

#[test]
fn bend_search_takes_the_first_feasible_choice() {
    assert_eq!(first_feasible_bend(&[true, true, true, true]), Some((-1, -1)));
    assert_eq!(first_feasible_bend(&[false, true, true, false]), Some((-1, 1)));
    assert_eq!(first_feasible_bend(&[false, false, true, true]), Some((1, -1)));
    assert_eq!(first_feasible_bend(&[false, false, false, true]), Some((1, 1)));
}

#[test]
fn bend_search_without_feasible_choice_fails() {
    assert_eq!(first_feasible_bend(&[false, false, false, false]), None);
}
