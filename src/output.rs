//! Text shown to the user around an activation.
use vstd::prelude::*;
use vstd::string::*;

verus! {

/// The question asked before installing a missing version.
pub open spec fn install_prompt_text(version: Seq<char>, plugin: Seq<char>) -> Seq<char> {
    "anvs: Node.js "@ + version + " is not installed. Install it using "@ + plugin + "?"@
}

pub fn install_prompt(version: &str, plugin: &str) -> (r: String)
    ensures
        r@ == install_prompt_text(version@, plugin@),
{
    let mut s = String::from_str("anvs: Node.js ");
    s.append(version);
    s.append(" is not installed. Install it using ");
    s.append(plugin);
    s.append("?");
    s
}

} // verus!
