//! Commands that extensions add to the command line.
use vstd::prelude::*;

verus! {

/// The extension commands that plugins add: (name, description).
pub fn list_help() -> (r: Vec<(String, String)>)
    ensures
        r@.len() == 2,
        r@[0].0@ == "ext_plugin1324"@,
        r@[0].1@ == "User extension plugin 1"@,
        r@[1].0@ == "ext_plugin2"@,
        r@[1].1@ == "User extension plugin 2"@,
{
    let mut v: Vec<(String, String)> = Vec::new();
    v.push((String::from_str("ext_plugin1324"), String::from_str("User extension plugin 1")));
    v.push((String::from_str("ext_plugin2"), String::from_str("User extension plugin 2")));
    v
}

} // verus!
