//! Restarting a collector after a run attempt ends.

use opcua_tag_browser::{after_run, Backoff, Error, NextStep, RunEnd, StatusCode};

const MS: u64 = 1_000_000;

fn within(delay: u64, base: u64) -> bool {
    base / 4 * 3 <= delay && delay <= base / 4 * 5 + 1
}

#[test]
fn configuration_mistakes_end_the_run() {
    let mut backoff = Backoff::new(100 * MS, 800 * MS);
    match after_run(&mut backoff, RunEnd::Failed(Error::InsecureCredentials), false, true) {
        NextStep::Finish(Err(Error::InsecureCredentials)) => {}
        _ => panic!("expected the run to end with the credentials error"),
    }
    match after_run(&mut backoff, RunEnd::Failed(Error::ClientBuild("x".to_string())), false, true) {
        NextStep::Finish(Err(Error::ClientBuild(m))) => assert_eq!(m, "x"),
        _ => panic!("expected the run to end with the build error"),
    }
}

#[test]
fn transient_failures_restart_with_growing_delays() {
    let mut backoff = Backoff::new(100 * MS, 800 * MS);
    let failure = || RunEnd::Failed(Error::Connect { endpoint: "e".to_string(), status: StatusCode::new(0x808A_0000) });
    for base in [100 * MS, 200 * MS, 400 * MS, 800 * MS, 800 * MS] {
        match after_run(&mut backoff, failure(), false, true) {
            NextStep::Restart(delay) => assert!(within(delay, base), "{delay} not near {base}"),
            NextStep::Finish(_) => panic!("expected a restart"),
        }
    }
    // A session that had been listening resets the backoff before the delay.
    match after_run(&mut backoff, RunEnd::Disconnected, false, true) {
        NextStep::Restart(delay) => assert!(within(delay, 100 * MS), "{delay}"),
        NextStep::Finish(_) => panic!("expected a restart"),
    }
}

#[test]
fn stopping_or_nothing_to_do_ends_the_run() {
    let mut backoff = Backoff::new(100 * MS, 800 * MS);
    assert!(matches!(after_run(&mut backoff, RunEnd::Disconnected, true, true), NextStep::Finish(Ok(()))));
    assert!(matches!(after_run(&mut backoff, RunEnd::NothingToMonitor, false, true), NextStep::Finish(Ok(()))));
    assert!(matches!(
        after_run(&mut backoff, RunEnd::Failed(Error::MissingSink), false, false),
        NextStep::Finish(Err(Error::MissingSink))
    ));
    assert!(matches!(after_run(&mut backoff, RunEnd::Failed(Error::MissingSink), true, true), NextStep::Finish(Err(_))));
}
