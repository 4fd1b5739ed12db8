use railnet::ids::{JunctionId, StationID, TopologyError, TrackID, TrainId};
use railnet::network::Network;

type Net = Network<(i32, i32), &'static str, f32>;

fn two_junctions() -> (Net, JunctionId, JunctionId) {
    let mut n: Net = Network::new();
    let a = n.add_junction((0, 0));
    let b = n.add_junction((10, 0));
    (n, a, b)
}

#[test]
fn new_network_is_empty() {
    let n: Net = Network::new();
    assert_eq!(n.junction_count(), 0);
    assert_eq!(n.track_count(), 0);
    assert_eq!(n.train_count(), 0);
    assert!(n.curves().is_empty());
    assert!(n.train_placements().is_empty());
}

#[test]
fn junctions_are_numbered_in_order_without_direction() {
    let (n, a, b) = two_junctions();
    assert_eq!(a, JunctionId(0));
    assert_eq!(b, JunctionId(1));
    assert_eq!(n.junction_position(b), (10, 0));
    assert_eq!(n.junction_direction(a), None);
    assert_eq!(n.junction_exit_count(a), 0);
    assert_eq!(n.junction_entrance_count(a), 0);
}

#[test]
fn first_direction_set_is_kept() {
    let (mut n, a, _) = two_junctions();
    n.set_direction_if_absent(a, (1, 0));
    n.set_direction_if_absent(a, (0, 1));
    assert_eq!(n.junction_direction(a), Some((1, 0)));
}

#[test]
fn segment_is_registered_at_both_ends() {
    let (mut n, a, b) = two_junctions();
    let t = n.add_track_segment(a, b, "line");
    assert_eq!(t, TrackID(0));
    assert_eq!(n.track_source(t), a);
    assert_eq!(n.track_destination(t), b);
    assert_eq!(n.track_shape(t), "line");
    assert_eq!(n.junction_exit_count(a), 1);
    assert_eq!(n.junction_exit(a, 0), t);
    assert_eq!(n.junction_entrance_count(b), 1);
    assert_eq!(n.junction_entrance(b, 0), t);
    assert!(n.track_trains(t).is_empty());
}

#[test]
fn third_exit_of_a_junction_is_refused() {
    let mut n: Net = Network::new();
    let hub = n.add_junction((0, 0));
    let x = n.add_junction((1, 0));
    let y = n.add_junction((0, 1));
    let z = n.add_junction((1, 1));
    assert_eq!(n.check_room(hub, x), Ok(()));
    n.add_track_segment(hub, x, "a");
    assert_eq!(n.check_room(hub, y), Ok(()));
    n.add_track_segment(hub, y, "b");
    assert_eq!(n.check_room(hub, z), Err(TopologyError::ExitsFull(hub)));
    assert_eq!(n.track_count(), 2);
    assert_eq!(n.junction_exit_count(hub), 2);
    assert_eq!(n.junction_entrance_count(z), 0);
}

#[test]
fn third_entrance_of_a_junction_is_refused() {
    let mut n: Net = Network::new();
    let hub = n.add_junction((0, 0));
    let x = n.add_junction((1, 0));
    let y = n.add_junction((0, 1));
    let z = n.add_junction((1, 1));
    n.add_track_segment(x, hub, "a");
    n.add_track_segment(y, hub, "b");
    assert_eq!(n.check_room(z, hub), Err(TopologyError::EntrancesFull(hub)));
    assert_eq!(n.track_count(), 2);
    assert_eq!(n.junction_exit_count(z), 0);
}

#[test]
fn track_of_one_piece_joins_its_ends() {
    let (mut n, a, b) = two_junctions();
    let first = n.add_track(a, b, &vec![], &vec!["whole"]);
    assert_eq!(first, TrackID(0));
    assert_eq!(n.junction_count(), 2);
    assert_eq!(n.track_count(), 1);
    assert_eq!(n.track_source(first), a);
    assert_eq!(n.track_destination(first), b);
}

#[test]
fn track_of_three_pieces_is_chained_through_new_junctions() {
    let (mut n, a, b) = two_junctions();
    let cuts = vec![((3, 0), (1, 0)), ((6, 0), (1, 0))];
    let first = n.add_track(a, b, &cuts, &vec!["p0", "p1", "p2"]);
    assert_eq!(first, TrackID(0));
    assert_eq!(n.junction_count(), 4);
    assert_eq!(n.track_count(), 3);
    let c0 = JunctionId(2);
    let c1 = JunctionId(3);
    assert_eq!(n.junction_position(c0), (3, 0));
    assert_eq!(n.junction_position(c1), (6, 0));
    assert_eq!(n.junction_direction(c0), Some((1, 0)));
    assert_eq!(n.junction_direction(c1), Some((1, 0)));
    assert_eq!((n.track_source(TrackID(0)), n.track_destination(TrackID(0))), (a, c0));
    assert_eq!((n.track_source(TrackID(1)), n.track_destination(TrackID(1))), (c0, c1));
    assert_eq!((n.track_source(TrackID(2)), n.track_destination(TrackID(2))), (c1, b));
    assert_eq!(n.track_shape(TrackID(1)), "p1");
    assert_eq!(n.junction_exit(a, 0), TrackID(0));
    assert_eq!(n.junction_entrance(b, 0), TrackID(2));
    assert_eq!(n.junction_entrance(c0, 0), TrackID(0));
    assert_eq!(n.junction_exit(c0, 0), TrackID(1));
    assert_eq!(n.junction_direction(a), None);
}

#[test]
fn full_exits_are_reported_before_entrances() {
    let mut n: Net = Network::new();
    let hub = n.add_junction((0, 0));
    let x = n.add_junction((1, 0));
    n.add_track_segment(hub, x, "a");
    n.add_track_segment(hub, x, "b");
    assert_eq!(n.check_room(hub, x), Err(TopologyError::ExitsFull(hub)));
    assert_eq!(n.check_room(x, hub), Ok(()));
    assert_eq!(n.junction_count(), 2);
    assert_eq!(n.track_count(), 2);
}

#[test]
fn loop_track_may_start_and_end_at_one_junction() {
    let mut n: Net = Network::new();
    let a = n.add_junction((0, 0));
    let cuts = vec![((5, 5), (0, 1))];
    let first = n.add_track(a, a, &cuts, &vec!["out", "back"]);
    assert_eq!(first, TrackID(0));
    assert_eq!(n.junction_exit(a, 0), TrackID(0));
    assert_eq!(n.junction_entrance(a, 0), TrackID(1));
}

#[test]
fn trains_start_where_they_are_put() {
    let (mut n, a, b) = two_junctions();
    let t = n.add_track_segment(a, b, "line");
    let first = n.add_train(t, 0.0);
    let second = n.add_train(t, 2.5);
    assert_eq!(first, TrainId(0));
    assert_eq!(second, TrainId(1));
    assert_eq!(n.train_track(second), t);
    assert_eq!(n.train_distance(second), 2.5);
    assert_eq!(n.track_trains(t), vec![first, second]);
    assert_eq!(n.train_placements(), vec![(t, 0.0), (t, 2.5)]);
}

#[test]
fn reading_placements_twice_gives_the_same_list() {
    let (mut n, a, b) = two_junctions();
    let t = n.add_track_segment(a, b, "line");
    n.add_train(t, 1.0);
    n.add_train(t, 4.0);
    let first = n.train_placements();
    let second = n.train_placements();
    assert_eq!(first, second);
}

#[test]
fn curves_give_end_positions_and_shapes() {
    let (mut n, a, b) = two_junctions();
    n.add_track_segment(a, b, "there");
    n.add_track_segment(b, a, "back");
    let curves = n.curves();
    assert_eq!(curves.len(), 2);
    assert_eq!((curves[0].source, curves[0].destination, curves[0].shape), ((0, 0), (10, 0), "there"));
    assert_eq!((curves[1].source, curves[1].destination, curves[1].shape), ((10, 0), (0, 0), "back"));
}

fn fork() -> (Net, TrackID, TrackID, TrackID) {
    let mut n: Net = Network::new();
    let a = n.add_junction((0, 0));
    let b = n.add_junction((10, 0));
    let c = n.add_junction((20, 5));
    let d = n.add_junction((20, -5));
    let in_track = n.add_track_segment(a, b, "in");
    let left = n.add_track_segment(b, c, "left");
    let right = n.add_track_segment(b, d, "right");
    (n, in_track, left, right)
}

#[test]
fn train_moves_onto_the_chosen_exit() {
    let (mut n, in_track, _, right) = fork();
    let train = n.add_train(in_track, 3.0);
    assert_eq!(n.exit_count(in_track), 2);
    assert_eq!(n.move_train_to_exit(train, 1), right);
    assert_eq!(n.train_track(train), right);
    assert_eq!(n.train_distance(train), 3.0);
    assert_eq!(n.track_trains(right), vec![train]);
    assert_eq!(n.track_trains(in_track), vec![train]);
}

#[test]
fn train_with_one_way_on_takes_it() {
    let mut n: Net = Network::new();
    let a = n.add_junction((0, 0));
    let b = n.add_junction((10, 0));
    let c = n.add_junction((20, 0));
    let first = n.add_track_segment(a, b, "first");
    let second = n.add_track_segment(b, c, "second");
    let train = n.add_train(first, 0.0);
    assert_eq!(n.advance_to_next_track(train), second);
    assert_eq!(n.train_track(train), second);
    assert_eq!(n.track_trains(second), vec![train]);
}

#[test]
fn train_at_a_fork_takes_one_of_its_exits() {
    for _ in 0..20 {
        let (mut n, in_track, left, right) = fork();
        let train = n.add_train(in_track, 0.0);
        let next = n.advance_to_next_track(train);
        assert!(next == left || next == right);
        assert_eq!(n.train_track(train), next);
    }
}

#[test]
fn train_reaching_the_end_of_its_track_wraps_onto_an_exit() {
    let (mut n, in_track, left, right) = fork();
    let train = n.add_train(in_track, 0.0);
    let length: f32 = 10.0;
    let travelled = n.train_distance(train) + 1.25 * 8.0;
    assert_eq!(travelled, 10.0);
    let passed_end = travelled >= length;
    assert!(passed_end);
    let next = n.step_train(train, travelled % length, passed_end).unwrap();
    assert!(next == left || next == right);
    assert_eq!(n.train_distance(train), 0.0);
    assert_eq!(n.train_track(train), next);
}

#[test]
fn train_short_of_the_end_stays_on_its_track() {
    let (mut n, in_track, _, _) = fork();
    let train = n.add_train(in_track, 0.0);
    assert_eq!(n.step_train(train, 4.0, false), None);
    assert_eq!(n.train_track(train), in_track);
    assert_eq!(n.train_distance(train), 4.0);
}

#[test]
fn station_is_a_track_between_two_new_junctions() {
    let (mut n, _, _) = two_junctions();
    let station = n.add_station((0, 5), (4, 5), &vec![], &vec!["dock"]);
    assert_eq!(station, StationID(0));
    assert_eq!(n.get_start_junction(station), JunctionId(2));
    assert_eq!(n.get_end_junction(station), JunctionId(3));
    assert_eq!(n.junction_position(JunctionId(3)), (4, 5));
    assert_eq!(n.junction_direction(JunctionId(2)), None);
    assert_eq!(n.junction_direction(JunctionId(3)), None);
    assert_eq!(n.junction_exit_count(JunctionId(2)), 1);
    assert_eq!(n.junction_entrance_count(JunctionId(2)), 0);
    assert_eq!(n.junction_exit_count(JunctionId(3)), 0);
    assert_eq!(n.junction_entrance(JunctionId(3), 0), TrackID(0));
    assert_eq!(n.track_shape(TrackID(0)), "dock");
}

#[test]
fn long_station_records_its_first_piece() {
    let mut n: Net = Network::new();
    let cuts = vec![((3, 0), (1, 0))];
    let station = n.add_station((0, 0), (6, 0), &cuts, &vec!["a", "b"]);
    assert_eq!(n.junction_count(), 3);
    assert_eq!(n.get_start_junction(station), JunctionId(0));
    assert_eq!(n.get_end_junction(station), JunctionId(2));
    assert_eq!(n.track_destination(TrackID(1)), JunctionId(1));
    assert_eq!(n.junction_position(JunctionId(2)), (3, 0));
    assert_eq!(n.junction_direction(JunctionId(2)), Some((1, 0)));
    assert_eq!(n.junction_entrance(JunctionId(2), 0), TrackID(0));
    assert_eq!(n.junction_exit(JunctionId(2), 0), TrackID(1));
    assert_eq!(n.junction_entrance(JunctionId(1), 0), TrackID(1));
    assert_eq!(n.junction_direction(JunctionId(0)), None);
}
