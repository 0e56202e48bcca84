//! Taking a command line apart before it is launched.

use vstd::prelude::*;
use vstd::string::StringExecFns;
use crate::text::{split_whitespace, texts, words_of};

verus! {

/// Splits `command` into the program and its arguments. A command
/// without a word cannot be launched.
pub fn command_words(command: &str) -> (parts: Result<Vec<String>, String>)
    ensures
        match parts {
            Ok(words) => words@.len() > 0 && texts(words@) == words_of(command@),
            Err(complaint) => words_of(command@).len() == 0 && complaint@ == "Empty command"@,
        },
{
    let words = split_whitespace(command);
    if words.len() == 0 {
        return Err(String::from_str("Empty command"));
    }
    Ok(words)
}

} // verus!
