use std::rc::Rc;
use std::time::Duration;

use tiny_sdl2_gui::util::audio::{keep_young, RcDelayedDropper};
use tiny_sdl2_gui::util::rust::reborrow;

#[test]
fn reborrow_writes_through() {
    let mut v = 5;
    {
        let r = reborrow(&mut v);
        *r += 1;
    }
    assert_eq!(v, 6);
}

#[test]
fn delayed_dropper_keeps_then_drops() {
    let value = Rc::new(3);
    let mut keep_long = RcDelayedDropper::new(Duration::from_secs(3600).as_nanos());
    keep_long.drop_later(value.clone());
    keep_long.drop_later(value.clone()); // queued again: refreshed, not doubled
    assert_eq!(Rc::strong_count(&value), 2);

    let mut keep_none = RcDelayedDropper::new(Duration::from_secs(0).as_nanos());
    keep_none.drop_later(value.clone());
    assert_eq!(Rc::strong_count(&value), 2);
    assert_eq!(keep_long.duration, Duration::from_secs(3600).as_nanos());
}

#[test]
fn delayed_dropper_holds_only_queued_values() {
    let a = Rc::new(1);
    let b = Rc::new(2);
    let other = Rc::new(3);
    let mut dropper = RcDelayedDropper::new(Duration::from_secs(3600).as_nanos());
    dropper.drop_later(a.clone());
    dropper.drop_later(b.clone());
    dropper.drop_later(a.clone());
    // each queued value is held once, nothing else is held
    assert_eq!(Rc::strong_count(&a), 2);
    assert_eq!(Rc::strong_count(&b), 2);
    assert_eq!(Rc::strong_count(&other), 1);
    drop(dropper);
    assert_eq!(Rc::strong_count(&a), 1);
    assert_eq!(Rc::strong_count(&b), 1);
}

#[test]
fn delayed_dropper_zero_delay_holds_nothing() {
    let r = Rc::new(5);
    let mut d = RcDelayedDropper::new(0);
    d.drop_later(r.clone());
    assert_eq!(Rc::strong_count(&r), 1);
}

#[test]
fn keep_young_drops_old_entries() {
    let a = Rc::new('a');
    let b = Rc::new('b');
    let c = Rc::new('c');
    // queued at 100, 500 and 900 nanoseconds; read at 1000 with a delay of 500
    let kept = keep_young(vec![(a.clone(), 100), (b.clone(), 500), (c.clone(), 900)], 1000, 500);
    let view: Vec<(char, u128)> = kept.iter().map(|(v, t)| (**v, *t)).collect();
    assert_eq!(view, vec![('c', 900)]);
    // a stamp after the reading counts as no time passed
    let kept = keep_young(vec![(a.clone(), 2000)], 1000, 1);
    assert_eq!(kept.len(), 1);
    // nothing is young with a zero delay
    assert!(keep_young(vec![(a, 1000)], 1000, 0).is_empty());
}

#[test]
fn delayed_dropper_reports_delay_and_count() {
    let a = Rc::new(1);
    let b = Rc::new(2);
    let mut d = RcDelayedDropper::new(1_000_000_000_000);
    assert_eq!(d.delay_nanos(), 1_000_000_000_000);
    assert_eq!(d.held_len(), 0);
    d.drop_later(a.clone());
    d.drop_later(b.clone());
    d.drop_later(a.clone());
    assert_eq!(d.held_len(), 2);
}
