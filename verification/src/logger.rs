//! The format of the log file's lines.

use vstd::prelude::*;
use vstd::string::*;

verus! {

/// The line written to the log for a message at `level`.
pub open spec fn log_line(level: Seq<char>, msg: Seq<char>) -> Seq<char> {
    "["@ + level + "] "@ + msg + "\n"@
}

/// Appends the log line `[level] msg` and a line break to `out`.
pub fn write_line(out: &mut String, level: &str, msg: &str)
    ensures
        final(out)@ == old(out)@ + log_line(level@, msg@),
{
    out.append("[");
    out.append(level);
    out.append("] ");
    out.append(msg);
    out.append("\n");
    assert(out@ =~= old(out)@ + log_line(level@, msg@));
}

} // verus!
