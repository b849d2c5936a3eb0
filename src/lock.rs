//! The single-instance lock: the lock file's text, and the acquisition
//! protocol as a state machine that the caller drives with file-system events.
use vstd::prelude::*;
use crate::text::{decimal, digit_char, push_decimal, trim_back, trim_front, trim_range};

verus! {

/// The lock file's text for owner `pid`: its decimal digits and nothing else.
pub open spec fn lock_text_of(pid: u32) -> Seq<char> {
    decimal(pid as nat)
}

/// The text to write into a new lock file.
pub fn lock_text(pid: u32) -> (s: String)
    ensures
        s@ == lock_text_of(pid),
{
    let mut s = String::new();
    push_decimal(&mut s, pid);
    assert(s@ =~= lock_text_of(pid));
    s
}

pub open spec fn is_digit(c: char) -> bool {
    '0' <= c <= '9'
}

/// The number that a run of decimal digits spells.
pub open spec fn digits_value(s: Seq<char>) -> int
    decreases s.len(),
{
    if s.len() == 0 {
        0
    } else {
        digits_value(s.drop_last()) * 10 + (s.last() as int - '0' as int)
    }
}

/// The digits of a lock file's text after an optional `+`.
pub open spec fn number_part(t: Seq<char>) -> Seq<char> {
    if t.len() > 0 && t[0] == '+' {
        t.subrange(1, t.len() as int)
    } else {
        t
    }
}

/// The owner recorded in a lock file's text: surrounding whitespace ignored,
/// an optional `+`, then one or more decimal digits whose value fits a `u32`.
pub open spec fn parse_pid_of(s: Seq<char>) -> Option<u32> {
    let body = number_part(trim_back(trim_front(s)));
    if body.len() > 0 && (forall|i: int| 0 <= i < body.len() ==> is_digit(#[trigger] body[i]))
        && digits_value(body) <= u32::MAX {
        Some(digits_value(body) as u32)
    } else {
        None
    }
}

proof fn lemma_digits_value_step(t: Seq<char>, k: int)
    requires
        0 <= k < t.len(),
    ensures
        digits_value(t.subrange(0, k + 1)) == digits_value(t.subrange(0, k)) * 10 + (t[k] as int
            - '0' as int),
{
    assert(t.subrange(0, k + 1).drop_last() =~= t.subrange(0, k));
}

proof fn lemma_digits_value_nonneg(t: Seq<char>)
    requires
        forall|i: int| 0 <= i < t.len() ==> is_digit(#[trigger] t[i]),
    ensures
        digits_value(t) >= 0,
    decreases t.len(),
{
    if t.len() > 0 {
        let u = t.drop_last();
        assert forall|i: int| 0 <= i < u.len() implies is_digit(#[trigger] u[i]) by {
            assert(u[i] == t[i]);
        }
        lemma_digits_value_nonneg(u);
    }
}

proof fn lemma_digits_value_monotone(t: Seq<char>, k: int)
    requires
        0 <= k <= t.len(),
        forall|i: int| 0 <= i < t.len() ==> is_digit(#[trigger] t[i]),
    ensures
        digits_value(t.subrange(0, k)) <= digits_value(t),
    decreases t.len() - k,
{
    if k < t.len() {
        lemma_digits_value_step(t, k);
        let u = t.subrange(0, k);
        assert forall|i: int| 0 <= i < u.len() implies is_digit(#[trigger] u[i]) by {
            assert(u[i] == t[i]);
        }
        lemma_digits_value_nonneg(u);
        lemma_digits_value_monotone(t, k + 1);
    } else {
        assert(t.subrange(0, k) =~= t);
    }
}

/// Reads the owner's process id out of a lock file's text.
pub fn parse_pid(text: &str) -> (r: Option<u32>)
    ensures
        r == parse_pid_of(text@),
{
    let ghost s = text@;
    let n = text.unicode_len();
    let (i, j) = trim_range(text, 0, n);
    proof {
        assert(s.subrange(0, n as int) =~= s);
    }
    let ghost trimmed = s.subrange(i as int, j as int);
    let mut start: usize = i;
    if start < j && text.get_char(start) == '+' {
        start += 1;
    }
    let ghost body = s.subrange(start as int, j as int);
    assert(body =~= number_part(trimmed));
    if start == j {
        return None;
    }
    let mut value: u64 = 0;
    let mut k: usize = start;
    proof {
        assert(body.subrange(0, 0) =~= Seq::<char>::empty());
    }
    while k < j
        invariant
            start <= k <= j <= n,
            n == s.len(),
            s == text@,
            body == s.subrange(start as int, j as int),
            body == number_part(trim_back(trim_front(s))),
            value == digits_value(body.subrange(0, k - start)),
            value <= u32::MAX,
            forall|m: int| 0 <= m < k - start ==> is_digit(#[trigger] body[m]),
        decreases j - k,
    {
        let c = text.get_char(k);
        if c < '0' || c > '9' {
            assert(!is_digit(body[k - start]));
            return None;
        }
        let d = (c as u32 - '0' as u32) as u64;
        proof {
            lemma_digits_value_step(body, k - start);
        }
        let next = value * 10 + d;
        if next > 0xffff_ffffu64 {
            proof {
                if forall|m: int| 0 <= m < body.len() ==> is_digit(#[trigger] body[m]) {
                    lemma_digits_value_monotone(body, k - start + 1);
                }
            }
            return None;
        }
        value = next;
        k += 1;
    }
    assert(body.subrange(0, (j - start) as int) =~= body);
    Some(value as u32)
}

proof fn lemma_decimal_digits(n: nat)
    ensures
        decimal(n).len() > 0,
        forall|i: int| 0 <= i < decimal(n).len() ==> is_digit(#[trigger] decimal(n)[i]),
        digits_value(decimal(n)) == n,
    decreases n,
{
    let t = decimal(n);
    assert(digit_char(n % 10) as int == n % 10 + 48);
    if n < 10 {
        assert(t.drop_last() =~= Seq::<char>::empty());
        assert(t.last() == digit_char(n));
        assert(digits_value(t) == digits_value(t.drop_last()) * 10 + (t.last() as int - '0' as int));
    } else {
        lemma_decimal_digits(n / 10);
        assert(t.drop_last() =~= decimal(n / 10));
        assert(t.last() == digit_char(n % 10));
        assert(digits_value(t) == digits_value(t.drop_last()) * 10 + (t.last() as int - '0' as int));
        assert(n == (n / 10) * 10 + n % 10);
        assert forall|i: int| 0 <= i < t.len() implies is_digit(#[trigger] t[i]) by {
            if i < t.len() - 1 {
                assert(t[i] == decimal(n / 10)[i]);
            }
        }
    }
}

/// The text written for an owner reads back as that owner.
pub proof fn lemma_lock_text_round_trip(pid: u32)
    ensures
        parse_pid_of(lock_text_of(pid)) == Some(pid),
{
    let d = decimal(pid as nat);
    lemma_decimal_digits(pid as nat);
    assert(is_digit(d[0]));
    assert(trim_front(d) == d);
    assert(is_digit(d.last()));
    assert(trim_back(d) == d);
    assert(number_part(d) == d);
}

/// How an attempt to take the lock ended.
#[derive(Clone, Copy, Debug, PartialEq, Eq, Structural)]
pub enum LockOutcome {
    /// This process now owns the lock file.
    Acquired,
    /// A live picker owns the lock, or won the race for it.
    AlreadyRunning,
    /// The lock file could not be created for another reason.
    Failed,
}

/// Where an attempt to take the lock stands; each stage names the one
/// file-system step that the caller performs next.
#[derive(Clone, Copy, Debug, PartialEq, Eq, Structural)]
pub enum LockStage {
    /// Create the lock file exclusively and write this process's id into it.
    Creating { retried: bool },
    /// Read the text of the existing lock file.
    ReadingOwner,
    /// Find out whether process `pid` is alive.
    CheckingOwner { pid: u32 },
    /// Delete the stale lock file (whether that works or not).
    RemovingStale,
    /// The attempt is over.
    Finished { outcome: LockOutcome },
}

/// What the caller observed when performing a stage's step.
#[derive(Clone, Copy, Debug, PartialEq, Eq, Structural)]
pub enum LockEvent {
    /// The exclusive create succeeded and the id was written.
    Created,
    /// The exclusive create failed because the file exists.
    Exists,
    /// The exclusive create failed for another reason.
    CreateFailed,
    /// The owner recorded in the file, or none where the file could not be
    /// read or holds no process id.
    OwnerRead { pid: Option<u32> },
    /// Whether the recorded owner is alive.
    OwnerAlive { alive: bool },
    /// The stale file was deleted, or the deletion was attempted.
    Removed,
}

/// The protocol: create; on an existing file read its owner; a live owner
/// means a picker is running; otherwise delete the stale file and create once
/// more, and a second failure means another picker won the race. An event
/// that does not answer the stage's step ends the attempt as `Failed`.
pub open spec fn lock_next(stage: LockStage, event: LockEvent) -> LockStage {
    match stage {
        LockStage::Creating { retried } => match event {
            LockEvent::Created => LockStage::Finished { outcome: LockOutcome::Acquired },
            LockEvent::Exists => if retried {
                LockStage::Finished { outcome: LockOutcome::AlreadyRunning }
            } else {
                LockStage::ReadingOwner
            },
            LockEvent::CreateFailed => if retried {
                LockStage::Finished { outcome: LockOutcome::AlreadyRunning }
            } else {
                LockStage::Finished { outcome: LockOutcome::Failed }
            },
            _ => LockStage::Finished { outcome: LockOutcome::Failed },
        },
        LockStage::ReadingOwner => match event {
            LockEvent::OwnerRead { pid } => match pid {
                Some(p) => LockStage::CheckingOwner { pid: p },
                None => LockStage::RemovingStale,
            },
            _ => LockStage::Finished { outcome: LockOutcome::Failed },
        },
        LockStage::CheckingOwner { .. } => match event {
            LockEvent::OwnerAlive { alive } => if alive {
                LockStage::Finished { outcome: LockOutcome::AlreadyRunning }
            } else {
                LockStage::RemovingStale
            },
            _ => LockStage::Finished { outcome: LockOutcome::Failed },
        },
        LockStage::RemovingStale => match event {
            LockEvent::Removed => LockStage::Creating { retried: true },
            _ => LockStage::Finished { outcome: LockOutcome::Failed },
        },
        LockStage::Finished { outcome } => LockStage::Finished { outcome },
    }
}

impl LockStage {
    /// The first stage of an attempt.
    pub fn start() -> (s: LockStage)
        ensures
            s == (LockStage::Creating { retried: false }),
    {
        LockStage::Creating { retried: false }
    }

    /// The stage after `event`.
    pub fn next(self, event: LockEvent) -> (s: LockStage)
        ensures
            s == lock_next(self, event),
    {
        match self {
            LockStage::Creating { retried } => match event {
                LockEvent::Created => LockStage::Finished { outcome: LockOutcome::Acquired },
                LockEvent::Exists => if retried {
                    LockStage::Finished { outcome: LockOutcome::AlreadyRunning }
                } else {
                    LockStage::ReadingOwner
                },
                LockEvent::CreateFailed => if retried {
                    LockStage::Finished { outcome: LockOutcome::AlreadyRunning }
                } else {
                    LockStage::Finished { outcome: LockOutcome::Failed }
                },
                _ => LockStage::Finished { outcome: LockOutcome::Failed },
            },
            LockStage::ReadingOwner => match event {
                LockEvent::OwnerRead { pid } => match pid {
                    Some(p) => LockStage::CheckingOwner { pid: p },
                    None => LockStage::RemovingStale,
                },
                _ => LockStage::Finished { outcome: LockOutcome::Failed },
            },
            LockStage::CheckingOwner { .. } => match event {
                LockEvent::OwnerAlive { alive } => if alive {
                    LockStage::Finished { outcome: LockOutcome::AlreadyRunning }
                } else {
                    LockStage::RemovingStale
                },
                _ => LockStage::Finished { outcome: LockOutcome::Failed },
            },
            LockStage::RemovingStale => match event {
                LockEvent::Removed => LockStage::Creating { retried: true },
                _ => LockStage::Finished { outcome: LockOutcome::Failed },
            },
            LockStage::Finished { outcome } => LockStage::Finished { outcome },
        }
    }

    /// Whether the attempt is over.
    pub fn is_finished(&self) -> (r: bool)
        ensures
            r == (self is Finished),
    {
        matches!(self, LockStage::Finished { .. })
    }
}

impl LockEvent {
    /// The event for a lock file whose text was read (`None`: unreadable).
    pub fn owner_read(text: Option<&str>) -> (e: LockEvent)
        ensures
            e == (LockEvent::OwnerRead {
                pid: match text {
                    Some(t) => parse_pid_of(t@),
                    None => None,
                },
            }),
    {
        match text {
            Some(t) => LockEvent::OwnerRead { pid: parse_pid(t) },
            None => LockEvent::OwnerRead { pid: None },
        }
    }
}

/// What an atomic file system answers to a stage's step, when the lock file
/// holds `file` (or is absent) and `alive` are the live processes.
pub open spec fn fs_event(stage: LockStage, file: Option<Seq<char>>, alive: Set<u32>) -> LockEvent {
    match stage {
        LockStage::Creating { .. } => if file is None {
            LockEvent::Created
        } else {
            LockEvent::Exists
        },
        LockStage::ReadingOwner => LockEvent::OwnerRead {
            pid: match file {
                Some(t) => parse_pid_of(t),
                None => None,
            },
        },
        LockStage::CheckingOwner { pid } => LockEvent::OwnerAlive { alive: alive.contains(pid) },
        _ => LockEvent::Removed,
    }
}

/// The lock file after a stage's step taken by process `me`.
pub open spec fn fs_file(stage: LockStage, file: Option<Seq<char>>, me: u32) -> Option<Seq<char>> {
    match stage {
        LockStage::Creating { .. } => if file is None {
            Some(lock_text_of(me))
        } else {
            file
        },
        LockStage::RemovingStale => None,
        _ => file,
    }
}

/// Runs an attempt by process `me` for at most `steps` steps against the
/// file system; the final stage and the lock file afterwards.
pub open spec fn run_attempt(
    stage: LockStage,
    file: Option<Seq<char>>,
    alive: Set<u32>,
    me: u32,
    steps: nat,
) -> (LockStage, Option<Seq<char>>)
    decreases steps,
{
    if steps == 0 || stage is Finished {
        (stage, file)
    } else {
        run_attempt(
            lock_next(stage, fs_event(stage, file, alive)),
            fs_file(stage, file, me),
            alive,
            me,
            (steps - 1) as nat,
        )
    }
}

/// A whole attempt to take the lock: no attempt needs more than six steps.
pub open spec fn acquire_attempt(file: Option<Seq<char>>, alive: Set<u32>, me: u32) -> (
    LockStage,
    Option<Seq<char>>,
) {
    run_attempt(LockStage::Creating { retried: false }, file, alive, me, 6)
}

/// Two pickers that try for a free lock one after the other: the first gets
/// it and the second, seeing a live owner, declines; once the first releases
/// (deletes the file), the next attempt succeeds.
pub proof fn lemma_lock_excludes_then_frees(first: u32, second: u32, alive: Set<u32>)
    requires
        alive.contains(first),
    ensures
        ({
            let (s1, f1) = acquire_attempt(None, alive, first);
            let (s2, f2) = acquire_attempt(f1, alive, second);
            let (s3, f3) = acquire_attempt(None, alive, second);
            &&& s1 == (LockStage::Finished { outcome: LockOutcome::Acquired })
            &&& f1 == Some(lock_text_of(first))
            &&& s2 == (LockStage::Finished { outcome: LockOutcome::AlreadyRunning })
            &&& f2 == f1
            &&& s3 == (LockStage::Finished { outcome: LockOutcome::Acquired })
            &&& f3 == Some(lock_text_of(second))
        }),
{
    lemma_lock_text_round_trip(first);
    reveal_with_fuel(run_attempt, 7);
}

/// A lock file left by a dead process, or holding no process id, does not
/// block: the attempt removes it and takes the lock on its single retry.
pub proof fn lemma_stale_lock_recovered(text: Seq<char>, alive: Set<u32>, me: u32)
    requires
        parse_pid_of(text) matches Some(owner) ==> !alive.contains(owner),
    ensures
        acquire_attempt(Some(text), alive, me) == (
            LockStage::Finished { outcome: LockOutcome::Acquired },
            Some(lock_text_of(me)),
        ),
{
    reveal_with_fuel(run_attempt, 7);
}

/// One step of an attempt by `me`: the stage after it (a finished attempt
/// takes no more steps).
pub open spec fn step_stage(stage: LockStage, file: Option<Seq<char>>, alive: Set<u32>) -> LockStage {
    if stage is Finished {
        stage
    } else {
        lock_next(stage, fs_event(stage, file, alive))
    }
}

/// One step of an attempt by `me`: the lock file after it.
pub open spec fn step_file(stage: LockStage, file: Option<Seq<char>>, me: u32) -> Option<Seq<char>> {
    if stage is Finished {
        file
    } else {
        fs_file(stage, file, me)
    }
}

/// Attempts by `a` and `b` whose steps interleave as `schedule` says (`true`:
/// `a` takes its next step); the two stages and the lock file afterwards.
pub open spec fn run_pair(
    sa: LockStage,
    sb: LockStage,
    file: Option<Seq<char>>,
    alive: Set<u32>,
    a: u32,
    b: u32,
    schedule: Seq<bool>,
) -> (LockStage, LockStage, Option<Seq<char>>)
    decreases schedule.len(),
{
    if schedule.len() == 0 {
        (sa, sb, file)
    } else {
        let rest = schedule.subrange(1, schedule.len() as int);
        if schedule[0] {
            run_pair(step_stage(sa, file, alive), sb, step_file(sa, file, a), alive, a, b, rest)
        } else {
            run_pair(sa, step_stage(sb, file, alive), step_file(sb, file, b), alive, a, b, rest)
        }
    }
}

/// Where an attempt stands that lost to a live owner `winner`.
pub open spec fn losing(s: LockStage, winner: u32) -> bool {
    s == (LockStage::Creating { retried: false }) || s == LockStage::ReadingOwner || s == (
    LockStage::CheckingOwner { pid: winner }) || s == (LockStage::Finished {
        outcome: LockOutcome::AlreadyRunning,
    })
}

/// The states that two attempts on a free lock can reach together.
pub open spec fn pair_ok(sa: LockStage, sb: LockStage, file: Option<Seq<char>>, a: u32, b: u32) -> bool {
    ||| file is None && sa == (LockStage::Creating { retried: false }) && sb == (
    LockStage::Creating { retried: false })
    ||| file == Some(lock_text_of(a)) && sa == (LockStage::Finished {
        outcome: LockOutcome::Acquired,
    }) && losing(sb, a)
    ||| file == Some(lock_text_of(b)) && sb == (LockStage::Finished {
        outcome: LockOutcome::Acquired,
    }) && losing(sa, b)
}

proof fn lemma_pair_ok_steps(
    sa: LockStage,
    sb: LockStage,
    file: Option<Seq<char>>,
    alive: Set<u32>,
    a: u32,
    b: u32,
    schedule: Seq<bool>,
)
    requires
        alive.contains(a),
        alive.contains(b),
        pair_ok(sa, sb, file, a, b),
    ensures
        ({
            let (fa, fb, ff) = run_pair(sa, sb, file, alive, a, b, schedule);
            pair_ok(fa, fb, ff, a, b)
        }),
    decreases schedule.len(),
{
    lemma_lock_text_round_trip(a);
    lemma_lock_text_round_trip(b);
    if schedule.len() > 0 {
        let rest = schedule.subrange(1, schedule.len() as int);
        if schedule[0] {
            lemma_pair_ok_steps(step_stage(sa, file, alive), sb, step_file(sa, file, a), alive, a, b, rest);
        } else {
            lemma_pair_ok_steps(sa, step_stage(sb, file, alive), step_file(sb, file, b), alive, a, b, rest);
        }
    }
}

/// Two live pickers that try for a free lock at the same time, their steps
/// interleaved in any order: at no point do both hold it, and once both
/// attempts are over exactly one has acquired it and the file names it.
pub proof fn lemma_concurrent_attempts_exclude(alive: Set<u32>, a: u32, b: u32, schedule: Seq<bool>)
    requires
        alive.contains(a),
        alive.contains(b),
    ensures
        ({
            let start = LockStage::Creating { retried: false };
            let (fa, fb, ff) = run_pair(start, start, None, alive, a, b, schedule);
            let won = LockStage::Finished { outcome: LockOutcome::Acquired };
            let lost = LockStage::Finished { outcome: LockOutcome::AlreadyRunning };
            &&& !(fa == won && fb == won)
            &&& (fa is Finished && fb is Finished) ==> (fa == won && fb == lost && ff == Some(
                lock_text_of(a),
            )) || (fb == won && fa == lost && ff == Some(lock_text_of(b)))
        }),
{
    let start = LockStage::Creating { retried: false };
    lemma_pair_ok_steps(start, start, None, alive, a, b, schedule);
}

/// Whether the daemon launches a picker on a hotkey press: only once
/// `debounce_ms` have passed since the last launch, and only while no live
/// picker holds the lock.
pub fn should_launch(elapsed_ms: u64, debounce_ms: u64, picker_running: bool) -> (r: bool)
    ensures
        r == (elapsed_ms >= debounce_ms && !picker_running),
{
    elapsed_ms >= debounce_ms && !picker_running
}

} // verus!
