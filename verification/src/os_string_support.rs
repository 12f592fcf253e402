//! Joining argument lists into a single string.

use vstd::prelude::*;
use vstd::string::StringExecFns;
use crate::strutil::join_chars;

verus! {

/// Join the strings of `vector` with `seperator` between neighbours.
pub fn join_os_string(vector: &Vec<String>, seperator: &str) -> (r: String)
    ensures
        r@ == join_chars(vector.deep_view(), seperator@),
{
    let ghost parts = vector.deep_view();
    let mut buffer = String::new();
    let mut i: usize = 0;
    while i < vector.len()
        invariant
            i <= vector.len(),
            parts == vector.deep_view(),
            parts.len() == vector.len(),
            forall|k: int| 0 <= k < vector.len() ==> parts[k] == vector@[k]@,
            buffer@ == join_chars(parts.take(i as int), seperator@),
        decreases vector.len() - i,
    {
        if i > 0 {
            buffer.append(seperator);
        }
        buffer.append(vector[i].as_str());
        proof {
            assert(parts.take(i + 1).drop_last() =~= parts.take(i as int));
            assert(parts.take(i + 1).last() == parts[i as int]);
            if i == 0 {
                assert(join_chars(parts.take(1), seperator@) == parts[0]);
                assert(buffer@ =~= parts[0]);
            }
        }
        i += 1;
    }
    proof {
        assert(parts.take(vector.len() as int) =~= parts);
    }
    buffer
}

} // verus!
