use gandi_dyndns::family::Family;
use gandi_dyndns::reconcile::Decision;
use gandi_dyndns::reconcile::ReadOutcome;
use gandi_dyndns::reconcile::Reconciler;
use gandi_dyndns::reconcile::decide;

fn strings(names: &[&str]) -> Vec<String> {
    names.iter().map(|n| n.to_string()).collect()
}

#[test]
fn mismatch_writes_and_201_counts() {
    // domain example.com, records ["home"], discovered IPv4 1.2.3.4,
    // remote A-record ["9.9.9.9"]: one write of 1.2.3.4, changed-count 1.
    let records = strings(&["home"]);
    let mut rec = Reconciler::new(&records, Some("1.2.3.4".to_string()), None);

    let target = rec.next_target().expect("one pair to process");
    assert_eq!(target.name, "home");
    assert_eq!(target.family, Family::V4);
    assert_eq!(target.family.tag(), "A");

    let outcome = ReadOutcome::Values(strings(&["9.9.9.9"]));
    assert_eq!(rec.on_read(&outcome), Decision::Update);
    assert_eq!(rec.current_write(), "1.2.3.4");
    rec.on_write_status(201);

    assert!(rec.next_target().is_none());
    assert_eq!(rec.changed_count(), 1);
}

#[test]
fn empty_remote_skips_without_write() {
    // remote A-record []: no write, changed-count 0.
    let records = strings(&["home"]);
    let mut rec = Reconciler::new(&records, Some("1.2.3.4".to_string()), None);

    rec.next_target().expect("one pair to process");
    let outcome = ReadOutcome::Values(Vec::new());
    assert_eq!(rec.on_read(&outcome), Decision::SkipEmpty);

    assert!(rec.next_target().is_none());
    assert_eq!(rec.changed_count(), 0);
}

#[test]
fn matching_remote_needs_no_write() {
    // discovered 1.2.3.4, remote A-record ["1.2.3.4"]: no write, count 0.
    let records = strings(&["home"]);
    let mut rec = Reconciler::new(&records, Some("1.2.3.4".to_string()), None);

    rec.next_target().expect("one pair to process");
    let outcome = ReadOutcome::Values(strings(&["1.2.3.4"]));
    assert_eq!(rec.on_read(&outcome), Decision::NoChange);

    assert!(rec.next_target().is_none());
    assert_eq!(rec.changed_count(), 0);
}

#[test]
fn failed_read_skips_record() {
    let records = strings(&["home"]);
    let mut rec = Reconciler::new(&records, Some("1.2.3.4".to_string()), None);

    rec.next_target().expect("one pair to process");
    assert_eq!(rec.on_read(&ReadOutcome::Missing), Decision::SkipMissing);

    assert!(rec.next_target().is_none());
    assert_eq!(rec.changed_count(), 0);
}

#[test]
fn only_first_value_is_compared() {
    // Further stored values are ignored: head matches, so nothing happens.
    let records = strings(&["home"]);
    let mut rec = Reconciler::new(&records, Some("1.2.3.4".to_string()), None);

    rec.next_target().expect("one pair to process");
    let outcome = ReadOutcome::Values(strings(&["1.2.3.4", "9.9.9.9"]));
    assert_eq!(rec.on_read(&outcome), Decision::NoChange);
    assert_eq!(rec.changed_count(), 0);
}

#[test]
fn status_200_is_not_counted() {
    // A write answered 200 instead of 201 does not raise the count.
    let records = strings(&["home"]);
    let mut rec = Reconciler::new(&records, Some("1.2.3.4".to_string()), None);

    rec.next_target().expect("one pair to process");
    let outcome = ReadOutcome::Values(strings(&["9.9.9.9"]));
    assert_eq!(rec.on_read(&outcome), Decision::Update);
    rec.on_write_status(200);

    assert!(rec.next_target().is_none());
    assert_eq!(rec.changed_count(), 0);
}

#[test]
fn count_equals_the_201_responses() {
    // Two drifted records; the provider answers 201 and then 200.
    let records = strings(&["home", "office"]);
    let mut rec = Reconciler::new(&records, Some("1.2.3.4".to_string()), None);
    let statuses = [201u16, 200u16];

    for status in statuses {
        rec.next_target().expect("a pair to process");
        let outcome = ReadOutcome::Values(strings(&["9.9.9.9"]));
        assert_eq!(rec.on_read(&outcome), Decision::Update);
        rec.on_write_status(status);
    }

    assert!(rec.next_target().is_none());
    assert_eq!(rec.changed_count(), 1);
}

#[test]
fn families_without_address_contribute_no_pairs() {
    // IPv6 discovery failed: only A records are visited, in record order,
    // and the missing family never blocks the other.
    let records = strings(&["home", "office"]);
    let mut rec = Reconciler::new(&records, Some("1.2.3.4".to_string()), None);

    let mut seen = Vec::new();
    while let Some(target) = rec.next_target() {
        seen.push((target.name.clone(), target.family));
        let outcome = ReadOutcome::Values(strings(&["1.2.3.4"]));
        assert_eq!(rec.on_read(&outcome), Decision::NoChange);
    }

    assert_eq!(
        seen,
        vec![("home".to_string(), Family::V4), ("office".to_string(), Family::V4)]
    );
}

#[test]
fn both_families_visit_v4_first() {
    let records = strings(&["home"]);
    let mut rec = Reconciler::new(
        &records,
        Some("1.2.3.4".to_string()),
        Some("2001:db8::1".to_string()),
    );

    let first = rec.next_target().expect("the A pair");
    assert_eq!((first.name.as_str(), first.family), ("home", Family::V4));
    assert_eq!(rec.on_read(&ReadOutcome::Missing), Decision::SkipMissing);

    let second = rec.next_target().expect("the AAAA pair");
    assert_eq!((second.name.as_str(), second.family), ("home", Family::V6));
    assert_eq!(second.family.tag(), "AAAA");
    let outcome = ReadOutcome::Values(strings(&["2001:db8::2"]));
    assert_eq!(rec.on_read(&outcome), Decision::Update);
    assert_eq!(rec.current_write(), "2001:db8::1");
    rec.on_write_status(201);

    assert!(rec.next_target().is_none());
    assert_eq!(rec.changed_count(), 1);
}

#[test]
fn empty_record_list_is_a_noop_run() {
    let records: Vec<String> = Vec::new();
    let mut rec = Reconciler::new(&records, Some("1.2.3.4".to_string()), None);
    assert!(rec.next_target().is_none());
    assert_eq!(rec.changed_count(), 0);
}

#[test]
fn no_discovered_address_skips_the_pair() {
    let none: Option<String> = None;
    let outcome = ReadOutcome::Values(strings(&["9.9.9.9"]));
    assert_eq!(decide(&none, &outcome), Decision::SkipNoAddress);
}

#[test]
fn second_run_writes_nothing() {
    // Idempotence: after a run whose write took effect, a second run with
    // the same discovered address decides nothing needs writing.
    let records = strings(&["home"]);
    let ip = "1.2.3.4".to_string();

    let mut first = Reconciler::new(&records, Some(ip.clone()), None);
    first.next_target().expect("one pair to process");
    assert_eq!(
        first.on_read(&ReadOutcome::Values(strings(&["9.9.9.9"]))),
        Decision::Update
    );
    let written = first.current_write();
    first.on_write_status(201);
    assert_eq!(first.changed_count(), 1);

    // The provider now stores exactly what the first run wrote.
    let mut second = Reconciler::new(&records, Some(ip), None);
    second.next_target().expect("one pair to process");
    assert_eq!(
        second.on_read(&ReadOutcome::Values(vec![written])),
        Decision::NoChange
    );
    assert!(second.next_target().is_none());
    assert_eq!(second.changed_count(), 0);
}
