//! Process configuration: the client token and the optional input path.

use vstd::prelude::*;

verus! {

/// What the surrounding program needs to start: the chat service's
/// client token, and the input file or pipe path (standard input when
/// absent). How these are collected (flags, environment) is outside
/// the library.
#[derive(Debug)]
pub struct Config {
    pub token: String,
    pub file: Option<String>,
}

/// Choose the client token: an explicitly given one wins over one
/// found in the environment; `None` when neither is present.
pub fn get_token(arg: Option<String>, env: Option<String>) -> (r: Option<String>)
    ensures
        arg is Some ==> r == arg,
        arg is None ==> r == env,
{
    match arg {
        Some(token) => Some(token),
        None => env,
    }
}

} // verus!
