//! A Wikipedia recent-changes event, borrowed from its raw JSON text.
use vstd::prelude::*;
use vstd::std_specs::convert::FromSpecImpl;

verus! {

/// A single Wikipedia recent-changes SSE event.
///
/// Every string field borrows from the raw payload the event was read from;
/// reading an event allocates nothing for its string data.
#[derive(Debug, Clone)]
pub struct WikiEvent<'a> {
    /// The username of the editor who made this change.
    pub user: &'a str,
    /// `true` when the edit was made by an automated bot account.
    pub bot: bool,
    /// The hostname of the wiki server (e.g. `"en.wikipedia.org"`).
    pub server_name: &'a str,
    /// The short wiki database name (e.g. `"enwiki"`).
    pub wiki: &'a str,
    /// The title of the page that was edited.
    pub title: &'a str,
    /// Unix timestamp of the edit in seconds; `None` when the payload omits it.
    pub timestamp: Option<i64>,
    /// The event type (e.g. `"edit"`, `"new"`, `"log"`).
    pub event_type: &'a str,
}

/// Scheduling priority derived from the `bot` flag of a [`WikiEvent`].
///
/// Human edits pre-empt bot edits; in degraded mode bot events are dropped.
#[derive(Debug, Clone, Copy, PartialEq, Eq, Structural)]
pub enum Priority {
    /// Edit made by a human editor: routed to the high-priority channel.
    Human,
    /// Edit made by a bot account: routed to the low-priority channel.
    Bot,
}

/// The priority of an event with the given `bot` flag.
pub open spec fn priority_of(bot: bool) -> Priority {
    if bot {
        Priority::Bot
    } else {
        Priority::Human
    }
}

impl<'a> From<&WikiEvent<'a>> for Priority {
    fn from(event: &WikiEvent<'a>) -> (p: Priority) {
        if event.bot {
            Priority::Bot
        } else {
            Priority::Human
        }
    }
}

impl<'a> FromSpecImpl<&WikiEvent<'a>> for Priority {
    open spec fn obeys_from_spec() -> bool {
        true
    }

    open spec fn from_spec(event: &WikiEvent<'a>) -> Priority {
        priority_of(event.bot)
    }
}

} // verus!
