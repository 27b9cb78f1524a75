//! Verdicts of the side-by-side comparison of the two pipelines.
use vstd::prelude::*;

verus! {

/// Which pipeline had the lower 99th-percentile latency.
#[derive(Debug, Clone, Copy, PartialEq, Eq, Structural)]
pub enum Winner {
    Async,
    Threaded,
    Tie,
    /// A summary lacked the figure.
    NotAvailable,
}

/// The verdict for two p99 figures, lower being better; `None` marks a figure
/// missing from its summary.
pub fn p99_winner(async_p99: Option<u64>, threaded_p99: Option<u64>) -> (w: Winner)
    ensures
        w == match (async_p99, threaded_p99) {
            (Some(a), Some(t)) => if a < t {
                Winner::Async
            } else if t < a {
                Winner::Threaded
            } else {
                Winner::Tie
            },
            _ => Winner::NotAvailable,
        },
{
    match (async_p99, threaded_p99) {
        (Some(a), Some(t)) => {
            if a < t {
                Winner::Async
            } else if t < a {
                Winner::Threaded
            } else {
                Winner::Tie
            }
        },
        _ => Winner::NotAvailable,
    }
}

/// The label printed for a verdict.
pub fn winner_label(w: Winner) -> (s: &'static str)
    ensures
        s@ == match w {
            Winner::Async => "Async"@,
            Winner::Threaded => "Threaded"@,
            Winner::Tie => "Tie"@,
            Winner::NotAvailable => "N/A"@,
        },
{
    match w {
        Winner::Async => "Async",
        Winner::Threaded => "Threaded",
        Winner::Tie => "Tie",
        Winner::NotAvailable => "N/A",
    }
}

} // verus!
