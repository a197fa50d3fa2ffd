//! The settings the surrounding program reads from its configuration file.

use vstd::prelude::*;

verus! {

/// How to reach the billing service: the command that prints the API key,
/// and the account instance the requests go to. Loading the file and running
/// the command are the caller's work; the values arrive here as plain text.
#[derive(Debug, Clone)]
pub struct Config {
    pub mite_api_key_command: String,
    pub mite_api_instance: String,
}

} // verus!
