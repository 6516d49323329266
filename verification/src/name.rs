//! The rules an app name must follow.
use vstd::prelude::*;

use crate::report::{list_chars, listed_chars};
use crate::text::{bad_chars, char_is_digit, find_bad_chars, is_digit};

verus! {

/// What is wrong with an app name, as plain values.
pub enum NameFault {
    Empty,
    NotAsciiAlphanumeric { bad_chars: Seq<char> },
    StartsWithDigit { name: Seq<char> },
}

/// Why an app name was refused.
#[derive(Debug, PartialEq, Eq)]
pub enum Invalid {
    /// The name is empty.
    Empty,
    /// The name holds characters other than ASCII letters, digits, `-` and `_`.
    NotAsciiAlphanumeric { bad_chars: Vec<char> },
    /// The name starts with a digit.
    StartsWithDigit { name: String },
}

impl View for Invalid {
    type V = NameFault;

    open spec fn view(&self) -> NameFault {
        match self {
            Invalid::Empty => NameFault::Empty,
            Invalid::NotAsciiAlphanumeric { bad_chars } => NameFault::NotAsciiAlphanumeric {
                bad_chars: bad_chars@,
            },
            Invalid::StartsWithDigit { name } => NameFault::StartsWithDigit { name: name@ },
        }
    }
}

/// The sentence that says what is wrong with an app name.
pub open spec fn name_fault_text(fault: NameFault) -> Seq<char> {
    match fault {
        NameFault::Empty => "Name can't be empty."@,
        NameFault::NotAsciiAlphanumeric { bad_chars } =>
            "Name may only hold ASCII letters, digits, `-` and `_`, not "@ + listed_chars(bad_chars)
                + "."@,
        NameFault::StartsWithDigit { name } => "Name \""@ + name
            + "\" starts with a digit, which isn't allowed."@,
    }
}

impl Invalid {
    /// The sentence that says what is wrong.
    pub fn describe(&self) -> (text: String)
        ensures
            text@ == name_fault_text(self@),
    {
        match self {
            Invalid::Empty => "Name can't be empty.".to_owned(),
            Invalid::NotAsciiAlphanumeric { bad_chars } => {
                let mut text = "Name may only hold ASCII letters, digits, `-` and `_`, not ".to_owned();
                let listed = list_chars(bad_chars);
                text.append(listed.as_str());
                text.append(".");
                text
            },
            Invalid::StartsWithDigit { name } => {
                let mut text = "Name \"".to_owned();
                text.append(name.as_str());
                text.append("\" starts with a digit, which isn't allowed.");
                text
            },
        }
    }
}

/// What is wrong with an app name, if anything: checked in this order, emptiness,
/// characters outside ASCII letters, digits, `-` and `_`, and a leading digit.
pub open spec fn name_fault(name: Seq<char>) -> Option<NameFault> {
    if name.len() == 0 {
        Some(NameFault::Empty)
    } else if bad_chars(name).len() > 0 {
        Some(NameFault::NotAsciiAlphanumeric { bad_chars: bad_chars(name) })
    } else if is_digit(name[0]) {
        Some(NameFault::StartsWithDigit { name })
    } else {
        None
    }
}

/// Hands `name` back when it is a valid app name.
pub fn validate(name: String) -> (r: Result<String, Invalid>)
    ensures
        match r {
            Ok(n) => n@ == name@ && name_fault(name@) is None,
            Err(e) => name_fault(name@) == Some(e@),
        },
{
    let text = name.as_str();
    if text.unicode_len() == 0 {
        return Err(Invalid::Empty);
    }
    let bad = find_bad_chars(text);
    if bad.len() > 0 {
        return Err(Invalid::NotAsciiAlphanumeric { bad_chars: bad });
    }
    if char_is_digit(text.get_char(0)) {
        let owned = text.to_owned();
        return Err(Invalid::StartsWithDigit { name: owned });
    }
    Ok(name)
}

} // verus!
