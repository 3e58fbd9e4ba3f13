use rts_sim::cooldown::Cooldown;

#[test]
fn fresh_cooldown_has_not_started() {
    let c = Cooldown::from_millis(500);
    assert!(!c.finished());
    assert_eq!(c.elapsed_millis(), 0);
    assert_eq!(c.duration_millis(), 500);
}

#[test]
fn ready_cooldown_is_finished() {
    let c = Cooldown::ready(750);
    assert!(c.finished());
    assert_eq!(c.elapsed_millis(), 750);
    assert_eq!(c.duration_millis(), 750);
}

#[test]
fn tick_adds_time_until_the_duration() {
    let mut c = Cooldown::from_millis(500);
    c.tick(200);
    assert!(!c.finished());
    assert_eq!(c.elapsed_millis(), 200);
    c.tick(299);
    assert!(!c.finished());
    assert_eq!(c.elapsed_millis(), 499);
    c.tick(1);
    assert!(c.finished());
    assert_eq!(c.elapsed_millis(), 500);
}

#[test]
fn tick_past_the_duration_stops_at_it() {
    let mut c = Cooldown::from_millis(500);
    c.tick(10_000);
    assert!(c.finished());
    assert_eq!(c.elapsed_millis(), 500);
    c.tick(10_000);
    assert!(c.finished());
    assert_eq!(c.elapsed_millis(), 500);
}

#[test]
fn reset_starts_over() {
    let mut c = Cooldown::ready(500);
    c.reset();
    assert!(!c.finished());
    assert_eq!(c.elapsed_millis(), 0);
    assert_eq!(c.duration_millis(), 500);
    c.tick(500);
    assert!(c.finished());
}

#[test]
fn zero_cooldown_finishes_on_its_first_tick() {
    let mut c = Cooldown::from_millis(0);
    assert!(!c.finished());
    c.tick(0);
    assert!(c.finished());
}

#[test]
fn longest_cooldown_takes_the_longest_tick() {
    let mut c = Cooldown::from_millis(u64::MAX);
    c.tick(u32::MAX);
    assert!(!c.finished());
    assert_eq!(c.elapsed_millis(), u32::MAX as u64);
    assert_eq!(c.duration_millis(), u64::MAX);
    let r = Cooldown::ready(u64::MAX);
    assert!(r.finished());
}

#[test]
fn fraction_is_the_part_that_has_run() {
    let mut c = Cooldown::from_millis(5000);
    assert_eq!(c.fraction_permille(), 0);
    c.tick(1250);
    assert_eq!(c.fraction_permille(), 250);
    c.tick(1);
    assert_eq!(c.fraction_permille(), 250);
    c.tick(10_000);
    assert_eq!(c.fraction_permille(), 1000);
    assert_eq!(Cooldown::from_millis(0).fraction_permille(), 1000);
}

#[test]
fn stating_what_holds_of_a_countdown_changes_nothing() {
    let mut c = Cooldown::from_millis(300);
    c.tick(100);
    c.well_formed_view();
    assert_eq!(c.elapsed_millis(), 100);
    assert!(!c.finished());
    c.tick(1000);
    c.well_formed_view();
    assert!(c.finished());
    assert_eq!(c.elapsed_millis(), c.duration_millis());
}
