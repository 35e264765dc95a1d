use stalkerd::activity::is_active;

#[test]
fn unchanged_tick_is_idle() {
    assert!(!is_active(5, 5));
    assert!(!is_active(0, 0));
    assert!(!is_active(usize::MAX, usize::MAX));
}

#[test]
fn any_change_of_tick_is_active() {
    assert!(is_active(5, 7));
    assert!(is_active(5, 6));
    assert!(is_active(0, usize::MAX));
}

#[test]
fn a_decreasing_tick_is_active_too() {
    assert!(is_active(7, 5));
    assert!(is_active(usize::MAX, 0));
}

#[test]
fn constant_ticks_give_an_idle_signal_between_each_pair() {
    let ticks = [5usize, 5, 5];
    let signal: Vec<bool> = ticks.windows(2).map(|w| is_active(w[0], w[1])).collect();
    assert_eq!(signal, vec![false, false]);
}

#[test]
fn the_signal_follows_each_consecutive_pair() {
    let ticks = [0usize, 3, 3, 9, 2, 2];
    let signal: Vec<bool> = ticks.windows(2).map(|w| is_active(w[0], w[1])).collect();
    assert_eq!(signal, vec![true, false, true, true, false]);
}
