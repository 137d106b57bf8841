use reactive_demo::boundary::{Shown, Status, SuspenseBoundary, TransitionBoundary};
use reactive_demo::input::{InputError, NumberField};
use reactive_demo::resource::{Loaded, Phase, Resource};
use reactive_demo::signal::{Notification, SignalStore};
use reactive_demo::widgets::{
    counter_step, cycle_step, is_highlighted, load_result, next_selection, total_price, Arith, CounterAction,
};

fn note(subscriber: usize, signal: usize, value: i64) -> Notification<i64> {
    Notification { subscriber, signal, value }
}

#[test]
fn read_returns_last_write() {
    let mut store: SignalStore<i64, Arith> = SignalStore::new();
    let a = store.create(0);
    let b = store.create(7);
    store.subscribe(a, 1);
    store.subscribe(a, 2);
    store.subscribe(a, 3);
    for v in [4, -3, 9, 9, 12] {
        store.write(a, v);
    }
    assert_eq!(store.read(a), 12);
    assert_eq!(store.read(b), 7);
}

#[test]
fn read_after_write_without_subscribers() {
    let mut store: SignalStore<i64, Arith> = SignalStore::new();
    let a = store.create(5);
    assert_eq!(store.read(a), 5);
    store.write(a, -1);
    assert_eq!(store.read(a), -1);
    assert!(store.take_notifications().is_empty());
}

#[test]
fn subscriber_notified_on_each_write() {
    let mut store: SignalStore<i64, Arith> = SignalStore::new();
    let s = store.create(0);
    store.subscribe(s, 0);
    store.write(s, 1);
    store.write(s, 2);
    store.write(s, 2);
    let notes = store.take_notifications();
    assert_eq!(notes, vec![note(0, s, 1), note(0, s, 2), note(0, s, 2)]);
    assert!(store.take_notifications().is_empty());
}

#[test]
fn subscribers_notified_in_subscription_order() {
    let mut store: SignalStore<i64, Arith> = SignalStore::new();
    let s = store.create(0);
    let t = store.create(0);
    store.subscribe(s, 5);
    store.subscribe(s, 2);
    store.subscribe(t, 9);
    store.write(s, 3);
    store.write(t, 4);
    let notes = store.take_notifications();
    assert_eq!(notes, vec![note(5, s, 3), note(2, s, 3), note(9, t, 4)]);
}

#[test]
fn derived_follows_latest_values() {
    let mut store: SignalStore<i64, Arith> = SignalStore::new();
    let count = store.create(3);
    let price = store.create(10);
    let double = store.derive(vec![count], Arith::Double);
    let total = store.derive(vec![price, count], Arith::Product);
    assert_eq!(store.read_derived(double), 6);
    assert_eq!(store.read_derived(total), 30);
    store.write(count, 4);
    assert_eq!(store.read_derived(double), 8);
    assert_eq!(store.read_derived(total), 40);
    store.write(price, 11);
    store.write(price, 12);
    assert_eq!(store.read_derived(total), 48);
    assert_eq!(store.read_derived(double), 8);
}

#[test]
fn derived_wraps_on_overflow() {
    let mut store: SignalStore<i64, Arith> = SignalStore::new();
    let a = store.create(i64::MAX);
    let d = store.derive(vec![a], Arith::Double);
    assert_eq!(store.read_derived(d), -2);
}

#[test]
fn derived_without_inputs_is_zero() {
    let mut store: SignalStore<i64, Arith> = SignalStore::new();
    let d = store.derive(vec![], Arith::Product);
    assert_eq!(store.read_derived(d), 0);
}

#[test]
fn superseded_result_is_dropped() {
    let mut res: Resource<i32, ()> = Resource::new();
    let key = 0;
    let first = res.start();
    let key2 = 1;
    let second = res.start();
    assert!(res.complete(second, Ok(load_result(key2))));
    assert_eq!(res.read(), Loaded::Ready(10));
    assert!(!res.complete(first, Ok(load_result(key))));
    assert_eq!(res.read(), Loaded::Ready(10));
}

#[test]
fn stale_result_arriving_first_is_never_ready() {
    let mut res: Resource<i32, ()> = Resource::new();
    let first = res.start();
    let second = res.start();
    assert!(!res.complete(first, Ok(load_result(0))));
    assert_eq!(res.read(), Loaded::Loading);
    assert_eq!(res.phase(), Phase::Pending);
    assert!(res.complete(second, Ok(load_result(1))));
    assert_eq!(res.read(), Loaded::Ready(10));
}

#[test]
fn only_last_generation_commits() {
    let mut res: Resource<i32, ()> = Resource::new();
    let mut gens = Vec::new();
    for _ in 0..5 {
        gens.push(res.start());
    }
    assert_eq!(res.generation(), 5);
    for (i, g) in gens.iter().enumerate().rev() {
        let committed = res.complete(*g, Ok(i as i32));
        assert_eq!(committed, i == 4);
    }
    assert_eq!(res.read(), Loaded::Ready(4));
    assert!(!res.complete(5, Ok(99)));
    assert_eq!(res.read(), Loaded::Ready(4));
}

#[test]
fn refetch_keeps_previous_for_transition_readers() {
    let mut res: Resource<i32, ()> = Resource::new();
    assert_eq!(res.read(), Loaded::Loading);
    let g = res.start();
    assert!(res.complete(g, Ok(0)));
    let g = res.start();
    assert_eq!(res.phase(), Phase::Refetching(0));
    assert_eq!(res.read(), Loaded::Loading);
    assert_eq!(res.read_previous(), Loaded::Ready(0));
    assert!(res.complete(g, Ok(10)));
    assert_eq!(res.read_previous(), Loaded::Ready(10));
}

#[test]
fn failure_is_distinct_from_pending() {
    let mut res: Resource<i32, u8> = Resource::new();
    let g = res.start();
    assert!(res.complete(g, Err(3)));
    assert_eq!(res.read(), Loaded::Failed(3));
    assert_eq!(res.read_previous(), Loaded::Failed(3));
    let g = res.start();
    assert_eq!(res.phase(), Phase::Pending);
    assert!(res.complete(g, Ok(20)));
    assert_eq!(res.read(), Loaded::Ready(20));
}

#[test]
fn suspense_fallback_iff_pending() {
    let mut b: SuspenseBoundary<u8> = SuspenseBoundary::new();
    assert_eq!(b.render("x"), Shown::Content("x"));
    b.register(Status::Ready);
    b.register(Status::Pending);
    assert_eq!(b.render("x"), Shown::Fallback);
    b.begin_pass();
    b.register(Status::Ready);
    b.register(Status::Ready);
    assert_eq!(b.render("x"), Shown::Content("x"));
    b.begin_pass();
    b.register(Status::Failed(1));
    b.register(Status::Pending);
    assert_eq!(b.render("x"), Shown::Fallback);
    b.begin_pass();
    b.register(Status::Ready);
    b.register(Status::Failed(2));
    b.register(Status::Failed(1));
    assert_eq!(b.render("x"), Shown::Error(2));
}

#[test]
fn transition_keeps_content_while_pending() {
    let mut res: Resource<i32, ()> = Resource::new();
    let mut b: TransitionBoundary<i32, ()> = TransitionBoundary::new();
    let shown = |res: &Resource<i32, ()>, b: &mut TransitionBoundary<i32, ()>| {
        b.begin_pass();
        let (status, value) = match res.read() {
            Loaded::Loading => (Status::Pending, 0),
            Loaded::Ready(v) => (Status::Ready, v),
            Loaded::Failed(e) => (Status::Failed(e), 0),
        };
        b.register(status);
        b.render(value)
    };
    let g = res.start();
    assert_eq!(shown(&res, &mut b), Shown::Fallback);
    assert!(res.complete(g, Ok(load_result(0))));
    assert_eq!(shown(&res, &mut b), Shown::Content(0));
    let g = res.start();
    assert_eq!(shown(&res, &mut b), Shown::Content(0));
    assert!(res.complete(g, Ok(load_result(1))));
    assert_eq!(shown(&res, &mut b), Shown::Content(10));
}

#[test]
fn suspense_reverts_to_fallback_on_refetch() {
    let mut res: Resource<i32, ()> = Resource::new();
    let mut b: SuspenseBoundary<()> = SuspenseBoundary::new();
    let g = res.start();
    assert!(res.complete(g, Ok(0)));
    b.register(Status::Ready);
    assert_eq!(b.render(0), Shown::Content(0));
    res.start();
    b.begin_pass();
    assert_eq!(res.read(), Loaded::Loading);
    b.register(Status::Pending);
    assert_eq!(b.render(0), Shown::Fallback);
}

#[test]
fn load_result_is_ten_times_key() {
    assert_eq!(load_result(0), 0);
    assert_eq!(load_result(3), 30);
    assert_eq!(load_result(-7), -70);
}

#[test]
fn total_price_waits_for_both() {
    let r: Loaded<i32, ()> = Loaded::Ready(20);
    assert_eq!(total_price(Loaded::Ready(30), r), Loaded::Ready(600));
    assert_eq!(total_price(Loaded::Loading, r), Loaded::Loading);
    assert_eq!(total_price(r, Loaded::Loading), Loaded::Loading);
    assert_eq!(total_price(Loaded::Failed(()), Loaded::Loading), Loaded::Failed(()));
    assert_eq!(
        total_price::<()>(Loaded::Ready(i32::MAX), Loaded::Ready(i32::MAX)),
        Loaded::Ready((i32::MAX as i64) * (i32::MAX as i64))
    );
}

#[test]
fn counter_steps() {
    assert_eq!(counter_step(5, CounterAction::Add(1)), Some(6));
    assert_eq!(counter_step(5, CounterAction::Add(-1)), Some(4));
    assert_eq!(counter_step(5, CounterAction::Double), Some(10));
    assert_eq!(counter_step(5, CounterAction::Reset(1)), Some(1));
    assert_eq!(counter_step(i32::MAX, CounterAction::Add(1)), None);
    assert_eq!(counter_step(i32::MIN / 2 - 1, CounterAction::Double), None);
}

#[test]
fn highlight_on_odd_values() {
    assert!(is_highlighted(3));
    assert!(!is_highlighted(4));
    assert!(!is_highlighted(-3));
}

#[test]
fn selector_wraps_around() {
    assert_eq!(next_selection(1, 6), 2);
    assert_eq!(next_selection(6, 6), 1);
    assert_eq!(next_selection(9, 6), 4);
    assert_eq!(next_selection(1, 1), 1);
}

#[test]
fn batch_coalesces_writes() {
    let mut store: SignalStore<i64, Arith> = SignalStore::new();
    let s = store.create(0);
    let t = store.create(0);
    store.subscribe(s, 0);
    store.subscribe(s, 1);
    store.subscribe(t, 2);
    let d = store.derive(vec![s], Arith::Double);
    assert_eq!(store.read_derived(d), 0);
    store.begin_batch();
    store.write(s, 1);
    store.write(s, 2);
    store.write(t, 5);
    store.begin_batch();
    store.write(s, 3);
    assert_eq!(store.read(s), 3);
    assert_eq!(store.read_derived(d), 6);
    assert!(store.take_notifications().is_empty());
    store.end_batch();
    let notes = store.take_notifications();
    assert_eq!(notes, vec![note(0, s, 3), note(1, s, 3), note(2, t, 5)]);
    store.write(t, 6);
    assert_eq!(store.take_notifications(), vec![note(2, t, 6)]);
}

#[test]
fn number_field_keeps_last_good_value() {
    let mut f = NumberField::new();
    assert_eq!(f.value(), Ok(0));
    assert_eq!(f.input("42"), Ok(42));
    assert_eq!(f.value(), Ok(42));
    assert_eq!(f.input("4x2"), Err(InputError::InvalidDigit));
    assert_eq!(f.value(), Err(InputError::InvalidDigit));
    assert_eq!(f.last_accepted(), 42);
    assert_eq!(f.input("-17"), Ok(-17));
    assert_eq!(f.value(), Ok(-17));
    assert_eq!(f.last_accepted(), -17);
}

#[test]
fn number_field_edge_inputs() {
    let mut f = NumberField::new();
    assert_eq!(f.input(""), Err(InputError::Empty));
    assert_eq!(f.input("-"), Err(InputError::InvalidDigit));
    assert_eq!(f.input("+"), Err(InputError::InvalidDigit));
    assert_eq!(f.input(" 1"), Err(InputError::InvalidDigit));
    assert_eq!(f.input("+7"), Ok(7));
    assert_eq!(f.input("9223372036854775807"), Ok(i64::MAX));
    assert_eq!(f.input("-9223372036854775808"), Ok(i64::MIN));
    assert_eq!(f.input("9223372036854775808"), Err(InputError::TooLarge));
    assert_eq!(f.input("-9223372036854775809"), Err(InputError::TooSmall));
    assert_eq!(f.last_accepted(), i64::MIN);
}

#[test]
fn input_error_messages() {
    assert_eq!(InputError::Empty.message(), "cannot parse integer from empty string");
    assert_eq!(InputError::InvalidDigit.message(), "invalid digit found in string");
    assert_eq!(InputError::TooLarge.message(), "number too large to fit in target type");
    assert_eq!(InputError::TooSmall.message(), "number too small to fit in target type");
    assert_eq!(
        InputError::InvalidDigit.message(),
        "4x2".parse::<i64>().unwrap_err().to_string()
    );
}

#[test]
fn number_input_notifies_each_entry() {
    let mut f = NumberField::new();
    let mut store: SignalStore<i64, Arith> = SignalStore::new();
    let value = store.create(0);
    store.subscribe(value, 0);
    for text in ["1", "2", "2"] {
        let v = f.input(text).unwrap();
        store.write(value, v);
    }
    assert_eq!(store.take_notifications(), vec![note(0, value, 1), note(0, value, 2), note(0, value, 2)]);
    assert_eq!(store.read(value), 2);
}

#[test]
fn resource_status_for_boundaries() {
    let mut res: Resource<i32, u8> = Resource::new();
    assert_eq!(res.status(), Status::Pending);
    let g = res.start();
    assert_eq!(res.status(), Status::Pending);
    assert!(res.complete(g, Ok(1)));
    assert_eq!(res.status(), Status::Ready);
    res.start();
    assert_eq!(res.status(), Status::Pending);
    let g = res.start();
    assert!(res.complete(g, Err(7)));
    assert_eq!(res.status(), Status::Failed(7));
}

#[test]
fn suspense_over_two_resources() {
    let mut price: Resource<i32, ()> = Resource::new();
    let mut count: Resource<i32, ()> = Resource::new();
    let mut b: SuspenseBoundary<()> = SuspenseBoundary::new();
    let gp = price.start();
    let gc = count.start();
    assert!(price.complete(gp, Ok(load_result(2))));
    b.register(price.status());
    b.register(count.status());
    let total = total_price(price.read(), count.read());
    assert_eq!(total, Loaded::Loading);
    assert_eq!(b.render(total), Shown::Fallback);
    assert!(count.complete(gc, Ok(load_result(3))));
    b.begin_pass();
    b.register(price.status());
    b.register(count.status());
    let total = total_price(price.read(), count.read());
    assert_eq!(b.render(total), Shown::Content(Loaded::Ready(600)));
}

#[test]
fn cycle_step_wraps_like_remainder() {
    assert_eq!(cycle_step(1, 3, 17, true), 4);
    assert_eq!(cycle_step(16, 3, 17, true), 2);
    assert_eq!(cycle_step(1, 3, 17, false), -2);
    assert_eq!(cycle_step(-16, 3, 17, false), -2);
    assert_eq!(cycle_step(5, 3, -3, true), 2);
    assert_eq!(cycle_step(i32::MAX - 3, 3, 2, true), 1);
}

#[test]
fn derived_follows_new_sources() {
    let mut store: SignalStore<i64, Arith> = SignalStore::new();
    let a = store.create(3);
    let b = store.create(5);
    let d = store.derive(vec![a], Arith::Double);
    assert_eq!(store.read_derived(d), 6);
    store.redepend(d, vec![b]);
    assert_eq!(store.read_derived(d), 10);
    store.write(a, 100);
    assert_eq!(store.read_derived(d), 10);
    store.write(b, 7);
    assert_eq!(store.read_derived(d), 14);
}
