//! What the editor's server computes: the output of running a script, and
//! the live console's answer to a message.

use vstd::prelude::*;
use crate::atom::UrcmCtx;
use crate::text::{same_text, views};

verus! {

/// The output lines of running `code`: a start line, the code, an end line.
pub open spec fn script_output(code: Seq<char>) -> Seq<Seq<char>> {
    seq!["📝 Esecuzione script..."@, "Codice: "@ + code, "✅ Eseguito"@]
}

/// Runs a script in a fresh context and reports what happened.
pub fn execute_script(code: &str) -> (out: Vec<String>)
    ensures
        views(out@) == script_output(code@),
{
    let _ctx = UrcmCtx::new(());
    let mut out: Vec<String> = Vec::new();
    out.push(String::from_str("📝 Esecuzione script..."));
    let mut line = String::from_str("Codice: ");
    line.append(code);
    out.push(line);
    out.push(String::from_str("✅ Eseguito"));
    proof {
        assert(views(out@) =~= script_output(code@));
    }
    out
}

/// The console's answer to a text message: `pong` to `ping`, nothing to
/// anything else.
pub fn console_reply(text: &str) -> (r: Option<&'static str>)
    ensures
        text@ == "ping"@ ==> (r matches Some(p) && p@ == "pong"@),
        text@ != "ping"@ ==> r is None,
{
    if same_text(text, "ping") {
        Some("pong")
    } else {
        None
    }
}

} // verus!
