use vstd::prelude::*;

use crate::decimal::{decimal_text, decimal_value, is_decimal, is_digit, parse_decimal};

verus! {

/// What the lock file records of the primary instance: its process id and
/// the local port on which it takes forwarded requests.
#[derive(Debug, Clone, Copy, PartialEq, Eq, Structural)]
pub struct LockRecord {
    pub pid: u32,
    pub port: u16,
}

/// `p` is the position of the first line break of `s`.
pub open spec fn first_break(s: Seq<char>, p: int) -> bool {
    &&& 0 <= p < s.len()
    &&& s[p] == '\n'
    &&& forall|m: int| 0 <= m < p ==> s[m] != '\n'
}

/// The record that a lock file's text holds: the decimal pid, a line break,
/// the decimal port, and nothing else.
pub open spec fn lock_record_of(s: Seq<char>) -> Option<LockRecord> {
    if exists|p: int| first_break(s, p) {
        let p = choose|p: int| first_break(s, p);
        let a = s.subrange(0, p);
        let b = s.subrange(p + 1, s.len() as int);
        if is_decimal(a) && decimal_value(a) <= u32::MAX && is_decimal(b) && decimal_value(b)
            <= u16::MAX {
            Some(LockRecord { pid: decimal_value(a) as u32, port: decimal_value(b) as u16 })
        } else {
            None
        }
    } else {
        None
    }
}

/// Why the command line was refused.
#[derive(Debug, Clone, PartialEq, Eq, Structural)]
pub enum UsageError {
    /// More than one argument was given.
    TooManyArguments,
}

/// What the lock file showed at start-up.
#[derive(Debug, Clone, PartialEq, Eq, Structural)]
pub enum LockProbe {
    /// There is no lock file.
    Absent,
    /// There is a lock file, but it holds no readable record.
    Unreadable,
    /// The lock file names a process, which is or is not running.
    Held { record: LockRecord, alive: bool },
}

/// What a starting instance does.
#[derive(Debug, Clone)]
pub enum StartupDecision {
    /// Take the lock and run; `reclaim` says that a stale lock file is to be
    /// replaced.
    Primary { reclaim: bool },
    /// Hand the argument, if any, to the running primary and exit.
    Forward { record: LockRecord, argument: Option<String> },
}

/// An event of the primary's receiving loop.
#[derive(Debug, Clone)]
pub enum Event {
    /// A second instance forwarded this game name-id.
    ArgsReceived(String),
    /// Nothing arrived this round.
    Yield,
}

/// The decision for a start with this lock file and this argument.
pub open spec fn startup_decision(probe: LockProbe, argument: Option<String>) -> StartupDecision {
    match probe {
        LockProbe::Absent => StartupDecision::Primary { reclaim: false },
        LockProbe::Unreadable => StartupDecision::Primary { reclaim: true },
        LockProbe::Held { record, alive } => if alive {
            StartupDecision::Forward { record, argument }
        } else {
            StartupDecision::Primary { reclaim: true }
        },
    }
}

impl LockRecord {
    /// The text of the lock file for this record.
    pub fn to_text(&self) -> (r: String)
        ensures
            lock_record_of(r@) == Some(*self),
    {
        let mut s = decimal_text(self.pid as u64);
        let ghost a = s@;
        s.append("\n");
        let b = decimal_text(self.port as u64);
        s.append(b.as_str());
        proof {
            reveal_strlit("\n");
            let t = s@;
            let p = a.len() as int;
            assert(t[p] == '\n');
            assert forall|m: int| 0 <= m < p implies t[m] != '\n' by {
                assert(t[m] == a[m]);
                assert(is_digit(a[m]));
            }
            assert(first_break(t, p));
            let q = choose|q: int| first_break(t, q);
            if q < p {
                assert(t[q] == a[q]);
                assert(is_digit(a[q]));
            }
            assert(q == p);
            assert(t.subrange(0, p) =~= a);
            assert(t.subrange(p + 1, t.len() as int) =~= b@);
        }
        s
    }
}

/// The record that a lock file's text holds, if it holds one.
pub fn parse_lock_record(text: &str) -> (r: Option<LockRecord>)
    ensures
        r == lock_record_of(text@),
{
    let n = text.unicode_len();
    let mut p: usize = 0;
    while p < n && text.get_char(p) != '\n'
        invariant
            n == text@.len(),
            p <= n,
            forall|m: int| 0 <= m < p ==> text@[m] != '\n',
        decreases n - p,
    {
        p = p + 1;
    }
    if p == n {
        assert(!exists|q: int| first_break(text@, q));
        return None;
    }
    proof {
        assert(first_break(text@, p as int));
        let q = choose|q: int| first_break(text@, q);
        if q < p {
        } else if q > p {
        }
        assert(q == p);
    }
    let a = text.substring_char(0, p);
    let b = text.substring_char(p + 1, n);
    let pid = parse_decimal(a, 0xffff_ffff);
    let port = parse_decimal(b, 0xffff);
    proof {
        assert(a@ == text@.subrange(0, p as int));
        assert(b@ == text@.subrange(p + 1, text@.len() as int));
    }
    if let Some(pid) = pid {
        if let Some(port) = port {
            assert(decimal_value(a@) <= u32::MAX);
            assert(decimal_value(b@) <= u16::MAX);
            return Some(LockRecord { pid: pid as u32, port: port as u16 });
        }
    }
    None
}

/// The single argument of a command line (the program name left out): none,
/// one game name-id, or a usage error where there are more.
pub fn validate_args(args: &Vec<String>) -> (r: Result<Option<String>, UsageError>)
    ensures
        args@.len() == 0 ==> r == Ok::<Option<String>, UsageError>(None),
        args@.len() == 1 ==> r == Ok::<Option<String>, UsageError>(Some(args@[0])),
        args@.len() > 1 ==> r == Err::<Option<String>, UsageError>(UsageError::TooManyArguments),
{
    if args.len() > 1 {
        Err(UsageError::TooManyArguments)
    } else if args.len() == 1 {
        Ok(Some(args[0].clone()))
    } else {
        Ok(None)
    }
}

/// Decides whether this instance becomes the primary or forwards its
/// argument: a lock file that names a running process is obeyed; one that
/// is absent, unreadable or stale is not.
pub fn decide_startup(probe: LockProbe, argument: Option<String>) -> (r: StartupDecision)
    ensures
        r == startup_decision(probe, argument),
        probe matches LockProbe::Held { alive: false, .. } ==> r matches StartupDecision::Primary {
            reclaim: true,
        },
{
    match probe {
        LockProbe::Absent => StartupDecision::Primary { reclaim: false },
        LockProbe::Unreadable => StartupDecision::Primary { reclaim: true },
        LockProbe::Held { record, alive } => if alive {
            StartupDecision::Forward { record, argument }
        } else {
            StartupDecision::Primary { reclaim: true }
        },
    }
}

/// The lock file that the `k`-th of several instances, started one after
/// another with none running before and all staying alive, finds: none for
/// the first, the first one's record for every later one.
pub open spec fn probe_seen(first: LockRecord, k: int) -> LockProbe {
    if k == 0 {
        LockProbe::Absent
    } else {
        LockProbe::Held { record: first, alive: true }
    }
}

/// Of several instances started one after another while none runs, exactly
/// one becomes the primary: the first. Every other one forwards its own
/// argument to the primary's record, so the primary receives one request
/// from each of the others.
pub proof fn lemma_single_primary(records: Seq<LockRecord>, args: Seq<Option<String>>)
    requires
        records.len() == args.len(),
        records.len() >= 1,
    ensures
        startup_decision(probe_seen(records[0], 0), args[0]) is Primary,
        forall|k: int|
            1 <= k < records.len() ==> #[trigger] startup_decision(probe_seen(records[0], k), args[k])
                == (StartupDecision::Forward { record: records[0], argument: args[k] }),
        forall|k: int|
            0 <= k < records.len() && (#[trigger] startup_decision(probe_seen(records[0], k), args[k]) is Primary)
                ==> k == 0,
{
}

} // verus!
