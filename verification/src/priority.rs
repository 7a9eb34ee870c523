//! The priority of an activity and its text form.

use crate::error::ParseError;
use crate::text::{chars_of, same_chars};
use vstd::prelude::*;

verus! {

/// How much an activity matters.
#[derive(Clone, Copy, Debug, PartialEq, Eq, Structural)]
pub enum Priority {
    Low,
    Normal,
    Important,
}

impl Priority {
    /// The text form of a priority: its capitalized name.
    pub open spec fn name(self) -> Seq<char> {
        match self {
            Priority::Low => "Low"@,
            Priority::Normal => "Normal"@,
            Priority::Important => "Important"@,
        }
    }

    /// The priority that `text` names, if it is exactly one of the three
    /// names. Neither case nor surrounding space is forgiven.
    pub open spec fn from_name(text: Seq<char>) -> Option<Priority> {
        if text == "Low"@ {
            Some(Priority::Low)
        } else if text == "Normal"@ {
            Some(Priority::Normal)
        } else if text == "Important"@ {
            Some(Priority::Important)
        } else {
            None
        }
    }

    /// Reading the name of a priority gives that priority back.
    pub proof fn lemma_name_round_trip(self)
        ensures
            Priority::from_name(self.name()) == Some(self),
    {
        reveal_strlit("Low");
        reveal_strlit("Normal");
        reveal_strlit("Important");
        assert("Low"@.len() == 3);
        assert("Normal"@.len() == 6);
        assert("Important"@.len() == 9);
    }

    /// A text names at most one priority, and then it is that priority's name.
    pub proof fn lemma_from_name_is_name(text: Seq<char>)
        ensures
            Priority::from_name(text) matches Some(p) ==> p.name() == text,
    {
    }

    /// Reads a priority from the characters of its name.
    pub fn from_chars(text: &Vec<char>) -> (result: Result<Priority, ParseError>)
        ensures
            result == match Priority::from_name(text@) {
                Some(priority) => Ok::<Priority, ParseError>(priority),
                None => Err(ParseError::InvalidPriority),
            },
    {
        if same_chars(text, &chars_of("Low")) {
            Ok(Priority::Low)
        } else if same_chars(text, &chars_of("Normal")) {
            Ok(Priority::Normal)
        } else if same_chars(text, &chars_of("Important")) {
            Ok(Priority::Important)
        } else {
            Err(ParseError::InvalidPriority)
        }
    }

    /// Reads a priority from its name.
    pub fn from_str(text: &str) -> (result: Result<Priority, ParseError>)
        ensures
            result == match Priority::from_name(text@) {
                Some(priority) => Ok::<Priority, ParseError>(priority),
                None => Err(ParseError::InvalidPriority),
            },
    {
        Priority::from_chars(&chars_of(text))
    }

    /// Writes a priority as its name.
    pub fn to_string(&self) -> (text: String)
        ensures
            text@ == self.name(),
    {
        match self {
            Priority::Low => "Low".to_owned(),
            Priority::Normal => "Normal".to_owned(),
            Priority::Important => "Important".to_owned(),
        }
    }
}

impl std::str::FromStr for Priority {
    type Err = ParseError;

    /// Reads a priority from its name, as `str::parse` asks for it.
    fn from_str(text: &str) -> (result: Result<Priority, ParseError>)
        ensures
            result == match Priority::from_name(text@) {
                Some(priority) => Ok::<Priority, ParseError>(priority),
                None => Err(ParseError::InvalidPriority),
            },
    {
        Priority::from_chars(&chars_of(text))
    }
}

} // verus!
