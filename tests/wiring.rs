use cpal::PortWiring;

#[test]
fn four_ports_against_two_system_ports() {
    let mut w = PortWiring::new(4, 2);
    assert_eq!(w.next_connection(), Some(0));
    w.record(true);
    assert_eq!(w.next_connection(), Some(1));
    w.record(true);
    assert_eq!(w.next_connection(), None);
    assert_eq!(w.connected(), vec![0, 1]);
    assert!(w.failed().is_empty());
    assert_eq!(w.unmatched(), vec![2, 3]);
}

#[test]
fn failed_connection_does_not_stop_the_rest() {
    let mut w = PortWiring::new(3, 5);
    let results = [true, false, true];
    while let Some(i) = w.next_connection() {
        w.record(results[i]);
    }
    assert_eq!(w.connected(), vec![0, 2]);
    assert_eq!(w.failed(), vec![1]);
    assert!(w.unmatched().is_empty());
}

#[test]
fn no_system_ports_connects_nothing() {
    let w = PortWiring::new(2, 0);
    assert_eq!(w.next_connection(), None);
    assert_eq!(w.unmatched(), vec![0, 1]);
}
