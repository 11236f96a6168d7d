use vstd::prelude::*;

verus! {

/// What the driver of a node does next.
#[derive(Debug, Clone, Copy, PartialEq, Eq)]
pub enum Action {
    /// Run the node's time-driven work now.
    Tick,
    /// Hand the oldest buffered message to the node.
    Dispatch,
    /// Wait for input until the given moment at the latest.
    WaitUntil(u64),
    /// Wait for input, with nothing due meanwhile.
    WaitForever,
}

/// The node has time-driven work due at `now`.
pub open spec fn is_due(deadline: Option<u64>, now: u64) -> bool {
    deadline matches Some(d) && now >= d
}

/// The driver's choice at `now`, given the node's next deadline and whether a
/// message is buffered: work that is due comes first, so that retries go on
/// under steady input; then buffered input; and only then a wait, bounded by
/// the deadline if there is one.
pub fn next_action(deadline: Option<u64>, now: u64, buffered: bool) -> (a: Action)
    ensures
        is_due(deadline, now) ==> a == Action::Tick,
        !is_due(deadline, now) && buffered ==> a == Action::Dispatch,
        !is_due(deadline, now) && !buffered ==> a == match deadline {
            Some(d) => Action::WaitUntil(d),
            None => Action::WaitForever,
        },
{
    match deadline {
        Some(d) if now >= d => Action::Tick,
        _ => if buffered {
            Action::Dispatch
        } else {
            match deadline {
                Some(d) => Action::WaitUntil(d),
                None => Action::WaitForever,
            }
        },
    }
}

} // verus!
