//! One writer at a time, and never a worktree wedged for good.

use sheep::lock::{
    holder, is_stale, still_ours, token, Attempt, Busy, Hold, HoldAction, HoldEvent, BEAT, POLL,
    STALE_AFTER,
};
use std::collections::BTreeMap;

fn secs(n: u64) -> u128 {
    n as u128 * 1_000_000_000
}

fn millis(n: u64) -> u128 {
    n as u128 * 1_000_000
}

/// A directory of lock files: what each says, and when it was stamped.
struct Locks {
    files: BTreeMap<String, (String, u128)>,
    now: u128,
    /// Nothing may be renamed here.
    read_only: bool,
    tries: u32,
    /// The lock that is released at this time.
    released: Option<(u128, String)>,
}

impl Locks {
    fn new() -> Self {
        Locks {
            files: BTreeMap::new(),
            now: secs(1_000_000),
            read_only: false,
            tries: 0,
            released: None,
        }
    }

    fn hold(&mut self, worktree: &str, wait: u128) -> Result<String, Busy> {
        let mine = token(42, self.tries as u64, 0);
        let mut hold = Hold::new("/w/state", worktree, wait, &mine);
        let started = self.now;
        let mut action = HoldAction::Create;
        loop {
            if let Some((at, path)) = self.released.clone() {
                if self.now >= at {
                    self.files.remove(&path);
                }
            }
            self.tries += 1;
            assert!(self.tries < 10_000, "spinning");
            let event = match action {
                HoldAction::Create => HoldEvent::Tried(self.create(&hold.path, &mine)),
                HoldAction::Look => {
                    HoldEvent::Looked(self.files.get(&hold.path).map(|f| (self.now, f.1)))
                }
                HoldAction::Break(to) => {
                    let freed = !self.read_only;
                    if freed {
                        assert_ne!(to, hold.path);
                        self.files.remove(&hold.path);
                    }
                    HoldEvent::Broke(freed)
                }
                HoldAction::Clock => {
                    self.now += 1;
                    let body = self.files.get(&hold.path).map(|f| f.0.clone());
                    HoldEvent::Waited(self.now - started, body)
                }
                HoldAction::SleepThenCreate(n) => {
                    self.now += n;
                    HoldEvent::Tried(self.create(&hold.path, &mine))
                }
                HoldAction::Held => return Ok(hold.path),
                HoldAction::GiveUp(busy) => return Err(busy),
                HoldAction::Fail(e) => panic!("{e}"),
            };
            action = hold.step(event);
        }
    }

    fn create(&mut self, path: &str, mine: &str) -> Attempt {
        if self.files.contains_key(path) {
            return Attempt::Taken;
        }
        self.files.insert(path.to_string(), (mine.to_string(), self.now));
        Attempt::Created
    }

    fn forge(&mut self, body: &str, stamped: u128) {
        self.files.insert("/w/state/locks/w.lock".to_string(), (body.to_string(), stamped));
    }
}

#[test]
fn a_second_holder_is_refused_while_the_first_is_alive() {
    let mut locks = Locks::new();
    let held = locks.hold("w", millis(50)).expect("first holder");
    let busy = locks.hold("w", millis(80)).expect_err("the lock must not be handed out twice");
    assert!(busy.waited >= millis(80));
    assert!(busy.text("0.1").contains("another Sheep process is writing this worktree's history"));
    locks.files.remove(&held);
    locks.hold("w", millis(50)).expect("released on drop");
}

#[test]
fn two_worktrees_do_not_block_each_other() {
    let mut locks = Locks::new();
    locks.hold("a", millis(50)).expect("a");
    locks.hold("b", millis(50)).expect("b");
}

#[test]
fn a_waiter_gets_the_lock_as_soon_as_it_is_released() {
    let mut locks = Locks::new();
    let held = locks.hold("w", millis(50)).expect("first holder");
    let free_at = locks.now + millis(60);
    locks.released = Some((free_at, held));
    locks.hold("w", secs(5)).expect("the lock must come free");
    assert!(locks.now < free_at + POLL * 2, "within a poll of being released");
}

#[test]
fn debris_from_a_killed_process_does_not_wedge_the_lock_for_ever() {
    // A lock file nobody is stamping is exactly what a killed `sheep watch`
    // leaves behind.
    let mut locks = Locks::new();
    locks.forge("pid 999999 · long gone", locks.now - (STALE_AFTER + secs(5)));
    let taken = locks.hold("w", millis(50)).expect("a lock nobody holds must be breakable");
    assert_eq!(taken, "/w/state/locks/w.lock");
}

#[test]
fn a_lock_that_is_still_being_stamped_is_not_stale() {
    let mut locks = Locks::new();
    assert!(BEAT < STALE_AFTER);
    locks.forge("pid 1", locks.now - BEAT);
    assert!(!is_stale(locks.now, locks.now - BEAT), "a live holder must keep its lock fresh");
    locks.hold("w", millis(50)).expect_err("a lock being stamped must not be broken");
}

#[test]
fn a_lock_stamped_in_the_future_is_still_breakable() {
    // A backwards clock step leaves debris whose timestamp no heartbeat can
    // ever reach.
    let mut locks = Locks::new();
    locks.forge("pid 999999 · from a clock that ran ahead", locks.now + secs(3600));
    let taken = locks
        .hold("w", millis(300))
        .expect("a lock stamped in the future must not wedge the worktree for ever");
    assert_eq!(taken, "/w/state/locks/w.lock");
}

#[test]
fn a_clock_a_second_or_two_ahead_is_not_a_dead_holder() {
    let mut locks = Locks::new();
    locks.forge("pid 4242 · alive, on a slightly fast clock", locks.now + secs(2));
    assert!(!is_stale(locks.now, locks.now + secs(2)), "a small lead is a live holder, not debris");
    let busy = locks.hold("w", millis(80)).expect_err("a live holder's lock must not be taken");
    assert_eq!(busy.holder, "pid 4242 · alive, on a slightly fast clock");
}

#[test]
fn a_lock_that_cannot_be_broken_gives_up_instead_of_spinning() {
    let mut locks = Locks::new();
    locks.forge("pid 999999 · long gone", locks.now - (STALE_AFTER + secs(5)));
    locks.read_only = true;
    let busy = locks.hold("w", millis(200)).expect_err("the lock must not have been handed out");
    assert_eq!(busy.path, "/w/state/locks/w.lock");
    assert!(locks.tries < 200, "it waits between tries: {}", locks.tries);
}

#[test]
fn a_lock_file_says_who_holds_it() {
    assert_eq!(token(7, 9, 2), "pid 7 · 9·2");
    assert_eq!(holder("  pid 7 · 9·2\n").as_deref(), Some("pid 7 · 9·2"));
    assert_eq!(holder(" \n"), None);
    assert!(still_ours(&Some("pid 7 · 9·2".to_string()), "pid 7 · 9·2"));
    assert!(!still_ours(&Some("pid 8".to_string()), "pid 7 · 9·2"));
    assert!(!still_ours(&None, "pid 7 · 9·2"));
}
