//! Validation of client-supplied upload names.
//!
//! An uploaded file may only be written under a single plain name inside
//! the storage root; this module is the sole defense against
//! directory-traversal writes escaping that root.

use vstd::prelude::*;
use vstd::string::StrSliceExecFns;

verus! {

/// A client-supplied name is safe exactly when it is one plain path
/// component: non-empty, free of directory separators, and neither the
/// current-directory component `.` nor the parent-directory component `..`.
pub open spec fn valid_upload_name(s: Seq<char>) -> bool {
    &&& s.len() > 0
    &&& !s.contains('/')
    &&& s != seq!['.']
    &&& s != seq!['.', '.']
}

/// Decide whether `path` is a safe single-component upload name.
pub fn path_is_valid(path: &str) -> (valid: bool)
    ensures
        valid == valid_upload_name(path@),
{
    let len: usize = path.unicode_len();
    if len == 0 {
        return false;
    }
    let mut i: usize = 0;
    let mut dots_only: bool = true;
    while i < len
        invariant
            len == path@.len(),
            0 < len,
            i <= len,
            forall|j: int| 0 <= j < i ==> path@[j] != '/',
            dots_only <==> (forall|j: int| 0 <= j < i ==> path@[j] == '.'),
        decreases len - i,
    {
        let c = path.get_char(i);
        if c == '/' {
            proof {
                assert(path@.contains('/')) by {
                    assert(path@[i as int] == '/');
                }
            }
            return false;
        }
        if c != '.' {
            dots_only = false;
        }
        i += 1;
    }
    if dots_only && len <= 2 {
        proof {
            if len == 1 {
                assert(path@ =~= seq!['.']);
            } else {
                assert(path@ =~= seq!['.', '.']);
            }
        }
        false
    } else {
        proof {
            assert(!path@.contains('/')) by {
                if path@.contains('/') {
                    let j = choose|j: int| 0 <= j < path@.len() && path@[j] == '/';
                    assert(path@[j] != '/');
                }
            }
            if path@ == seq!['.'] {
                assert(path@[0] == '.');
                assert(dots_only);
            }
            if path@ == seq!['.', '.'] {
                assert(path@[0] == '.');
                assert(path@[1] == '.');
                assert(dots_only);
            }
        }
        true
    }
}

/// Law: any candidate that contains a directory separator, and the parent
/// component `..` itself, is rejected.
pub proof fn lemma_traversal_rejected(s: Seq<char>)
    requires
        s.contains('/') || s == seq!['.', '.'],
    ensures
        !valid_upload_name(s),
{
}

/// Law: every non-empty candidate that is a plain name — no separator,
/// and not a `.` or `..` component — is accepted.
pub proof fn lemma_plain_name_accepted(s: Seq<char>)
    requires
        s.len() > 0,
        !s.contains('/'),
        s != seq!['.'],
        s != seq!['.', '.'],
    ensures
        valid_upload_name(s),
{
}

} // verus!
