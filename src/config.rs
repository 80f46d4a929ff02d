//! The client's stored settings.

use vstd::prelude::*;
use crate::text::{trim, trimmed};

verus! {

#[derive(Debug, Clone, PartialEq, Eq)]
pub struct Config {
    pub username: String,
}

/// The username given at the prompt, trimmed; none when nothing but white
/// space was entered.
pub fn normalize_username(input: &str) -> (r: Option<String>)
    ensures
        trimmed(input@).len() == 0 ==> r is None,
        trimmed(input@).len() > 0 ==> (r matches Some(name) && name@ == trimmed(input@)),
{
    let t = trim(input);
    if t.is_empty() {
        None
    } else {
        Some(t.to_owned())
    }
}

} // verus!
