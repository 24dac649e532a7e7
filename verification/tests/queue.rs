use kaseta_control::action::{ControlAction, Queue};
use kaseta_control::controls::controls_where;

#[test]
fn queue_pops_in_the_order_of_pushing() {
    let mut queue = Queue::new();
    queue.push(ControlAction::Calibrate(1));
    queue.push(ControlAction::Mapping(1));
    queue.push(ControlAction::Mapping(2));
    assert_eq!(queue.len(), 3);
    assert_eq!(queue.pop(), Some(ControlAction::Calibrate(1)));
    assert_eq!(queue.pop(), Some(ControlAction::Mapping(1)));
    assert_eq!(queue.pop(), Some(ControlAction::Mapping(2)));
    assert_eq!(queue.pop(), None);
}

#[test]
fn removing_a_control_keeps_the_others_in_order() {
    let mut queue = Queue::default();
    queue.push(ControlAction::Mapping(0));
    queue.push(ControlAction::Calibrate(1));
    queue.push(ControlAction::Mapping(2));
    queue.push(ControlAction::Mapping(1));
    queue.remove_control(1);
    assert_eq!(queue.len(), 2);
    assert!(!queue.contains(&ControlAction::Calibrate(1)));
    assert!(!queue.contains(&ControlAction::Mapping(1)));
    assert_eq!(queue.pop(), Some(ControlAction::Mapping(0)));
    assert_eq!(queue.pop(), Some(ControlAction::Mapping(2)));
}

#[test]
fn a_full_queue_drops_further_actions() {
    let mut queue = Queue::new();
    for i in 0..8 {
        queue.push(ControlAction::Mapping(i));
    }
    queue.push(ControlAction::Mapping(8));
    assert_eq!(queue.len(), 8);
    assert!(!queue.contains(&ControlAction::Mapping(8)));
}

#[test]
fn controls_are_listed_in_increasing_order() {
    let list = controls_where(&[true, false, true, true]);
    assert_eq!(list.as_slice(), &[0, 2, 3]);
    let list = controls_where(&[false; 4]);
    assert!(list.is_empty());
}
