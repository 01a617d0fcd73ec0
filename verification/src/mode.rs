//! Balancer membership modes and the per-target transition decision.
//!
//! A target is one `(cluster, port, pod IP)` tuple under health-check
//! management. Given the probe outcome and the mode currently believed to be
//! applied on the balancer, `decide` picks the transition for this cycle:
//! establish a baseline record, issue a mutation, or skip (the debounce).

use vstd::prelude::*;

verus! {

/// Membership mode requested from the external balancer.
///
/// `Unset` is the balancer's `"none"` mode: no decision has been applied yet.
#[derive(Clone, Copy, PartialEq, Eq, Structural, Debug)]
pub enum Mode {
    Unset,
    Accept,
    Drain,
}

/// What the reconciler does for one target in one cycle.
#[derive(Clone, Copy, PartialEq, Eq, Structural, Debug)]
pub enum Decision {
    /// No prior record: write a baseline `Unset` record, call nothing.
    Baseline,
    /// Issue the external mutation with this mode, then persist it.
    Mutate(Mode),
    /// Debounced: the target is already drained, call and write nothing.
    Skip,
}

/// The transition function of the mode state machine.
pub open spec fn decide_spec(reachable: bool, prior: Option<Mode>) -> Decision {
    match prior {
        None => Decision::Baseline,
        Some(current) => {
            if reachable {
                Decision::Mutate(Mode::Accept)
            } else if current != Mode::Drain {
                Decision::Mutate(Mode::Drain)
            } else {
                Decision::Skip
            }
        },
    }
}

/// Decide the transition for one target from the probe outcome and the mode
/// currently believed applied (`None` when the target was never observed).
///
/// A reachable target always mutates to `Accept`, even when the stored mode
/// is already `Accept`, so that a mutation missed or reverted externally is
/// healed. An unreachable target mutates to `Drain` once; further unreachable
/// probes of a drained target are skipped.
pub fn decide(reachable: bool, prior: Option<Mode>) -> (d: Decision)
    ensures
        d == decide_spec(reachable, prior),
{
    match prior {
        None => Decision::Baseline,
        Some(current) => {
            if reachable {
                Decision::Mutate(Mode::Accept)
            } else if current != Mode::Drain {
                Decision::Mutate(Mode::Drain)
            } else {
                Decision::Skip
            }
        },
    }
}

/// A target observed reachable always triggers an `Accept` mutation, whatever
/// mode is stored for it — including `Accept` itself (self-healing).
pub proof fn lemma_reachable_always_mutates(prior: Mode)
    ensures
        decide_spec(true, Some(prior)) == Decision::Mutate(Mode::Accept),
{
}

/// Once a target is recorded as drained, an unreachable probe decides no
/// further external call (the debounce).
pub proof fn lemma_drained_unreachable_skips()
    ensures
        decide_spec(false, Some(Mode::Drain)) == Decision::Skip,
{
}

/// The word the balancer API and the state store use for each mode.
pub open spec fn mode_word(m: Mode) -> Seq<char> {
    match m {
        Mode::Unset => "none"@,
        Mode::Accept => "accept"@,
        Mode::Drain => "drain"@,
    }
}

/// Render a mode as the word the balancer API and the state store use.
pub fn mode_str(m: Mode) -> (r: String)
    ensures
        r@ == mode_word(m),
{
    match m {
        Mode::Unset => "none".to_owned(),
        Mode::Accept => "accept".to_owned(),
        Mode::Drain => "drain".to_owned(),
    }
}

/// Which mode a stored word denotes; `None` for any other word.
pub open spec fn parse_mode_word(s: Seq<char>) -> Option<Mode> {
    if s == "none"@ {
        Some(Mode::Unset)
    } else if s == "accept"@ {
        Some(Mode::Accept)
    } else if s == "drain"@ {
        Some(Mode::Drain)
    } else {
        None
    }
}

/// Read a stored mode word back; any other word is rejected.
pub fn parse_mode(s: &String) -> (r: Option<Mode>)
    ensures
        r == parse_mode_word(s@),
{
    if *s == "none".to_owned() {
        Some(Mode::Unset)
    } else if *s == "accept".to_owned() {
        Some(Mode::Accept)
    } else if *s == "drain".to_owned() {
        Some(Mode::Drain)
    } else {
        None
    }
}

/// Rendering a mode and reading it back yields the same mode.
pub proof fn lemma_mode_word_roundtrip(m: Mode)
    ensures
        parse_mode_word(mode_word(m)) == Some(m),
{
    reveal_strlit("none");
    reveal_strlit("accept");
    reveal_strlit("drain");
    assert("none"@.len() == 4);
    assert("accept"@.len() == 6);
    assert("drain"@.len() == 5);
}

} // verus!
