//! The event kind chosen when the transformer starts.
use vstd::prelude::*;
use crate::text::text_eq;

verus! {

/// Which schema the payloads are read with, and which rows are written.
#[derive(Debug, PartialEq, Eq, Clone, Copy)]
pub enum EventTypes {
    Search,
    Result,
    Click,
    Visit,
}

/// The selector that a command-line word names, if any.
pub open spec fn selector_of(s: Seq<char>) -> Option<EventTypes> {
    if s == "search"@ {
        Some(EventTypes::Search)
    } else if s == "result"@ {
        Some(EventTypes::Result)
    } else if s == "click"@ {
        Some(EventTypes::Click)
    } else if s == "visit"@ {
        Some(EventTypes::Visit)
    } else {
        None
    }
}

impl EventTypes {
    /// Reads one of the four exact words `search`, `result`, `click`, `visit`.
    pub fn parse(s: &str) -> (r: Option<EventTypes>)
        ensures
            r == selector_of(s@),
    {
        if text_eq(s, "search") {
            Some(EventTypes::Search)
        } else if text_eq(s, "result") {
            Some(EventTypes::Result)
        } else if text_eq(s, "click") {
            Some(EventTypes::Click)
        } else if text_eq(s, "visit") {
            Some(EventTypes::Visit)
        } else {
            None
        }
    }
}

impl std::str::FromStr for EventTypes {
    type Err = ();

    fn from_str(s: &str) -> Result<EventTypes, ()> {
        match EventTypes::parse(s) {
            Some(t) => Ok(t),
            None => Err(()),
        }
    }
}

} // verus!
