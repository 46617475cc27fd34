//! The decisions behind seeding the bundled subagents into the agents
//! directory: which bundled files are subagent definitions, and which
//! destinations need writing. Reading and writing the files is the
//! caller's part.

use vstd::prelude::*;

use crate::text::{chars_of, occurs_at, occurs_at_exec};

verus! {

/// The file name has the extension `md`: it ends with `.md` and has a
/// stem before the dot (so `.md` alone is a hidden file, not markdown).
pub open spec fn is_markdown_name(name: Seq<char>) -> bool {
    name.len() >= 4 && occurs_at(name, seq!['.', 'm', 'd'], name.len() - 3)
}

/// Whether the bundled file `name` is a subagent definition to seed.
pub fn has_md_extension(name: &str) -> (b: bool)
    ensures
        b == is_markdown_name(name@),
{
    let v = chars_of(name);
    if v.len() < 4 {
        return false;
    }
    let ext: Vec<char> = vec!['.', 'm', 'd'];
    assert(ext@ == seq!['.', 'm', 'd']);
    occurs_at_exec(v.as_slice(), ext.as_slice(), v.len() - 3)
}

/// Whether a destination holding `existing` (nothing when it is absent)
/// must be written to hold `new_bytes`: only when it differs.
pub fn needs_write(existing: Option<&[u8]>, new_bytes: &[u8]) -> (b: bool)
    ensures
        b == match existing {
            Some(e) => e@ != new_bytes@,
            None => true,
        },
{
    match existing {
        None => true,
        Some(e) => {
            if e.len() != new_bytes.len() {
                assert(e@.len() != new_bytes@.len());
                return true;
            }
            let mut i: usize = 0;
            while i < e.len()
                invariant
                    i <= e.len(),
                    e.len() == new_bytes.len(),
                    existing == Some(e),
                    forall|j: int| 0 <= j < i ==> e@[j] == new_bytes@[j],
                decreases e.len() - i,
            {
                if e[i] != new_bytes[i] {
                    assert(e@[i as int] != new_bytes@[i as int]);
                    assert(e@ != new_bytes@);
                    return true;
                }
                i += 1;
            }
            assert(e@ =~= new_bytes@);
            false
        },
    }
}

} // verus!
