use vstd::prelude::*;
use vstd::string::StringExecFns;

use crate::json::push_char;

verus! {

/// WGSL source `a` followed by a line break and then `b`: how the shared
/// field evaluator is prefixed to each compute or render shader.
pub fn concat_wgsl(a: &str, b: &str) -> (s: String)
    ensures
        s@ == a@ + seq!['\n'] + b@,
{
    let mut s = String::from_str(a);
    push_char(&mut s, '\n');
    s.append(b);
    s
}

} // verus!
