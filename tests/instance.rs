use drops_client::instance::{
    decide_startup, parse_lock_record, validate_args, Event, LockProbe, LockRecord,
    StartupDecision, UsageError,
};

#[test]
fn lock_record_round_trip() {
    for r in [
        LockRecord { pid: 0, port: 0 },
        LockRecord { pid: 4321, port: 50123 },
        LockRecord { pid: u32::MAX, port: u16::MAX },
    ] {
        let text = r.to_text();
        assert_eq!(parse_lock_record(&text), Some(r));
    }
    assert_eq!(LockRecord { pid: 12, port: 8080 }.to_text(), "12\n8080");
}

#[test]
fn lock_record_rejects_bad_text() {
    assert_eq!(parse_lock_record(""), None);
    assert_eq!(parse_lock_record("123"), None);
    assert_eq!(parse_lock_record("12\n"), None);
    assert_eq!(parse_lock_record("\n80"), None);
    assert_eq!(parse_lock_record("1x\n80"), None);
    assert_eq!(parse_lock_record("4294967296\n80"), None);
    assert_eq!(parse_lock_record("1\n65536"), None);
    assert_eq!(parse_lock_record("1\n2\n"), None);
    assert_eq!(parse_lock_record("007\n0080"), Some(LockRecord { pid: 7, port: 80 }));
}

#[test]
fn arguments_are_checked() {
    assert_eq!(validate_args(&vec![]), Ok(None));
    assert_eq!(validate_args(&vec!["g".to_string()]), Ok(Some("g".to_string())));
    assert_eq!(
        validate_args(&vec!["g".to_string(), "h".to_string()]),
        Err(UsageError::TooManyArguments)
    );
}

#[test]
fn stale_lock_is_reclaimed() {
    let record = LockRecord { pid: 999_999, port: 1 };
    let d = decide_startup(LockProbe::Held { record, alive: false }, Some("g".to_string()));
    assert!(matches!(d, StartupDecision::Primary { reclaim: true }));
    assert!(matches!(decide_startup(LockProbe::Unreadable, None), StartupDecision::Primary { reclaim: true }));
    assert!(matches!(decide_startup(LockProbe::Absent, None), StartupDecision::Primary { reclaim: false }));
}

#[test]
fn later_instances_forward_to_the_first() {
    let first = LockRecord { pid: 10, port: 4000 };
    let mut primaries = 0;
    let mut received = Vec::new();
    for k in 0..5u32 {
        let probe = if k == 0 { LockProbe::Absent } else { LockProbe::Held { record: first, alive: true } };
        match decide_startup(probe, Some(format!("game{}", k))) {
            StartupDecision::Primary { .. } => primaries += 1,
            StartupDecision::Forward { record, argument } => {
                assert_eq!(record, first);
                received.push(Event::ArgsReceived(argument.unwrap()));
            }
        }
    }
    assert_eq!(primaries, 1);
    assert_eq!(received.len(), 4);
}
