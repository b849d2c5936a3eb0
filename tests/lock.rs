use yoinkctl::lock::{lock_text, parse_pid, should_launch, LockEvent, LockOutcome, LockStage};

/// A file system with one lock file and a set of live processes.
struct SimFs {
    file: Option<String>,
    alive: Vec<u32>,
}

impl SimFs {
    fn answer(&mut self, stage: LockStage, me: u32) -> LockEvent {
        match stage {
            LockStage::Creating { .. } => {
                if self.file.is_none() {
                    self.file = Some(lock_text(me));
                    LockEvent::Created
                } else {
                    LockEvent::Exists
                }
            }
            LockStage::ReadingOwner => LockEvent::owner_read(self.file.as_deref()),
            LockStage::CheckingOwner { pid } => LockEvent::OwnerAlive { alive: self.alive.contains(&pid) },
            LockStage::RemovingStale => {
                self.file = None;
                LockEvent::Removed
            }
            LockStage::Finished { .. } => unreachable!(),
        }
    }

    fn acquire(&mut self, me: u32) -> LockOutcome {
        let mut stage = LockStage::start();
        for _ in 0..10 {
            if let LockStage::Finished { outcome } = stage {
                return outcome;
            }
            let event = self.answer(stage, me);
            stage = stage.next(event);
        }
        panic!("attempt did not finish");
    }
}

#[test]
fn lock_text_is_decimal_pid_only() {
    assert_eq!(lock_text(1234), "1234");
    assert_eq!(lock_text(0), "0");
    assert_eq!(lock_text(u32::MAX), "4294967295");
}

#[test]
fn parse_pid_reads_trimmed_decimal() {
    assert_eq!(parse_pid("42"), Some(42));
    assert_eq!(parse_pid(" 42\n"), Some(42));
    assert_eq!(parse_pid("\t\r\n99 \n"), Some(99));
    assert_eq!(parse_pid("+7"), Some(7));
    assert_eq!(parse_pid("4294967295"), Some(u32::MAX));
    assert_eq!(parse_pid(&lock_text(31337)), Some(31337));
    assert_eq!(parse_pid("\u{3000}12\u{A0}"), Some(12));
}

#[test]
fn parse_pid_rejects_other_text() {
    assert_eq!(parse_pid(""), None);
    assert_eq!(parse_pid("   "), None);
    assert_eq!(parse_pid("abc"), None);
    assert_eq!(parse_pid("12 34"), None);
    assert_eq!(parse_pid("-5"), None);
    assert_eq!(parse_pid("+"), None);
    assert_eq!(parse_pid("4294967296"), None);
    assert_eq!(parse_pid("99999999999x"), None);
}

#[test]
fn two_sessions_one_acquires_then_lock_frees() {
    let mut fs = SimFs { file: None, alive: vec![100, 200] };
    assert_eq!(fs.acquire(100), LockOutcome::Acquired);
    assert_eq!(fs.file.as_deref(), Some("100"));
    assert_eq!(fs.acquire(200), LockOutcome::AlreadyRunning);
    assert_eq!(fs.file.as_deref(), Some("100"));
    fs.file = None;
    assert_eq!(fs.acquire(200), LockOutcome::Acquired);
    assert_eq!(fs.file.as_deref(), Some("200"));
}

#[test]
fn stale_lock_is_recovered() {
    let mut fs = SimFs { file: Some(lock_text(4242)), alive: vec![7] };
    assert_eq!(fs.acquire(7), LockOutcome::Acquired);
    assert_eq!(fs.file.as_deref(), Some("7"));
    let mut junk = SimFs { file: Some("not a pid".to_string()), alive: vec![7] };
    assert_eq!(junk.acquire(7), LockOutcome::Acquired);
}

#[test]
fn losing_the_retry_race_means_already_running() {
    let mut stage = LockStage::start();
    stage = stage.next(LockEvent::Exists);
    assert_eq!(stage, LockStage::ReadingOwner);
    stage = stage.next(LockEvent::owner_read(Some("4242\n")));
    assert_eq!(stage, LockStage::CheckingOwner { pid: 4242 });
    stage = stage.next(LockEvent::OwnerAlive { alive: false });
    assert_eq!(stage, LockStage::RemovingStale);
    stage = stage.next(LockEvent::Removed);
    assert_eq!(stage, LockStage::Creating { retried: true });
    stage = stage.next(LockEvent::Exists);
    assert_eq!(stage, LockStage::Finished { outcome: LockOutcome::AlreadyRunning });
    assert!(stage.is_finished());
}

#[test]
fn unreadable_lock_counts_as_stale() {
    let stage = LockStage::ReadingOwner.next(LockEvent::owner_read(None));
    assert_eq!(stage, LockStage::RemovingStale);
}

#[test]
fn create_errors_fail_or_decline() {
    let first = LockStage::start().next(LockEvent::CreateFailed);
    assert_eq!(first, LockStage::Finished { outcome: LockOutcome::Failed });
    let retry = LockStage::Creating { retried: true }.next(LockEvent::CreateFailed);
    assert_eq!(retry, LockStage::Finished { outcome: LockOutcome::AlreadyRunning });
    let stray = LockStage::start().next(LockEvent::Removed);
    assert_eq!(stray, LockStage::Finished { outcome: LockOutcome::Failed });
    let done = LockStage::Finished { outcome: LockOutcome::Acquired };
    assert_eq!(done.next(LockEvent::Exists), done);
    assert!(!LockStage::start().is_finished());
}

#[test]
fn daemon_launch_decision() {
    assert!(should_launch(600, 500, false));
    assert!(should_launch(500, 500, false));
    assert!(!should_launch(499, 500, false));
    assert!(!should_launch(10_000, 500, true));
}

#[test]
fn interleaved_attempts_one_wins() {
    // Every order of the two attempts' steps, up to eight steps.
    for bits in 0u32..256 {
        let mut fs = SimFs { file: None, alive: vec![1, 2] };
        let mut a = LockStage::start();
        let mut b = LockStage::start();
        for k in 0..8 {
            let a_turn = bits & (1 << k) != 0;
            if a_turn && !a.is_finished() {
                let e = fs.answer(a, 1);
                a = a.next(e);
            } else if !a_turn && !b.is_finished() {
                let e = fs.answer(b, 2);
                b = b.next(e);
            }
        }
        while !a.is_finished() {
            let e = fs.answer(a, 1);
            a = a.next(e);
        }
        while !b.is_finished() {
            let e = fs.answer(b, 2);
            b = b.next(e);
        }
        let won = LockStage::Finished { outcome: LockOutcome::Acquired };
        let lost = LockStage::Finished { outcome: LockOutcome::AlreadyRunning };
        assert!((a == won && b == lost) || (a == lost && b == won));
    }
}
