//! Reading the resident set size out of `/proc/self/status`.

use vstd::prelude::*;

use crate::text::{chars_of, has_prefix, runs_of, starts_with, texts_of, words, CharClass};

verus! {

/// The size field of a `VmRSS:` line: its second word.
pub open spec fn vmrss_field(line: Seq<char>) -> Option<Seq<char>> {
    if has_prefix(line, "VmRSS:"@) && words(line).len() > 1 {
        Some(words(line)[1])
    } else {
        None
    }
}

/// Reads the size text (in kB) of a `VmRSS:` line of a process status.
pub fn vmrss_kb_text(line: &str) -> (r: Option<String>)
    ensures
        match r {
            Some(t) => vmrss_field(line@) == Some(t@),
            None => vmrss_field(line@) is None,
        },
{
    let v = chars_of(line);
    let pre = chars_of("VmRSS:");
    if !starts_with(&v, &pre) {
        return None;
    }
    let ws = runs_of(line, CharClass::Space);
    if ws.len() > 1 {
        assert(texts_of(ws@)[1] == ws@[1]@);
        Some(ws[1].clone())
    } else {
        None
    }
}

} // verus!
