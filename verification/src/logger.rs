//! The format of the log file's lines.
use vstd::prelude::*;

verus! {

/// One line of the log: the level in brackets, a space, the message, and a
/// line break.
pub fn log_line(level: &str, msg: &str) -> (line: String)
    ensures
        line@ == seq!['['] + level@ + seq![']', ' '] + msg@ + seq!['\n'],
{
    let mut line = String::from_str("[");
    line.append(level);
    line.append("] ");
    line.append(msg);
    line.append("\n");
    proof {
        reveal_strlit("[");
        reveal_strlit("] ");
        reveal_strlit("\n");
        assert("["@ =~= seq!['[']);
        assert("] "@ =~= seq![']', ' ']);
        assert("\n"@ =~= seq!['\n']);
    }
    line
}

} // verus!
