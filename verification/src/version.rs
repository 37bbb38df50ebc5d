//! The migration guard: module versions and their ordering.

use vstd::prelude::*;
use crate::error::MigrationError;

verus! {

/// The name and version of the code that owns the stored state.
#[derive(Debug, Clone, PartialEq, Eq)]
pub struct ModuleVersion {
    pub name: String,
    pub version: String,
}

/// The mathematical value of a [`ModuleVersion`].
pub struct VersionView {
    pub name: Seq<char>,
    pub version: Seq<char>,
}

impl View for ModuleVersion {
    type V = VersionView;

    open spec fn view(&self) -> VersionView {
        VersionView { name: self.name@, version: self.version@ }
    }
}

/// `a` and `b` agree on their first `k` characters.
pub open spec fn agree_up_to(a: Seq<char>, b: Seq<char>, k: int) -> bool {
    &&& 0 <= k <= a.len()
    &&& k <= b.len()
    &&& forall|j: int| 0 <= j < k ==> a[j] == b[j]
}

/// `a` comes strictly before `b` in lexicographic order by code point: at the
/// first position where they differ `a` has the smaller character, or `a` is a
/// proper prefix of `b`. Versions are compared as raw text, so `"10"` comes
/// before `"9"`.
pub open spec fn lex_less(a: Seq<char>, b: Seq<char>) -> bool {
    exists|k: int| #[trigger]
        agree_up_to(a, b, k) && k < b.len() && (k == a.len() || (a[k] as int) < (b[k] as int))
}

/// The outcome of the migration guard on a stored version and a candidate.
pub open spec fn check_migration_spec(current: VersionView, candidate: VersionView) -> Result<
    (),
    MigrationError,
> {
    if current.name != candidate.name {
        Err(MigrationError::WrongModule)
    } else if !lex_less(current.version, candidate.version) {
        Err(MigrationError::NotNewer)
    } else {
        Ok(())
    }
}

/// Whether `a` comes strictly before `b` in lexicographic order.
pub fn precedes(a: &str, b: &str) -> (r: bool)
    ensures
        r == lex_less(a@, b@),
{
    let la: usize = a.unicode_len();
    let lb: usize = b.unicode_len();
    let mut i: usize = 0;
    while i < la && i < lb
        invariant
            la == a@.len(),
            lb == b@.len(),
            agree_up_to(a@, b@, i as int),
        decreases la - i,
    {
        let ca: char = a.get_char(i);
        let cb: char = b.get_char(i);
        if ca != cb {
            let r: bool = ca < cb;
            proof {
                if !r {
                    assert forall|k: int| #[trigger] agree_up_to(a@, b@, k) implies !(k < b@.len()
                        && (k == a@.len() || (a@[k] as int) < (b@[k] as int))) by {
                        if k > i {
                            assert(a@[i as int] == b@[i as int]);
                        }
                    }
                }
            }
            return r;
        }
        i = i + 1;
    }
    proof {
        if i < lb {
            assert(agree_up_to(a@, b@, i as int));
        } else {
            assert forall|k: int| #[trigger] agree_up_to(a@, b@, k) implies !(k < b@.len() && (k
                == a@.len() || (a@[k] as int) < (b@[k] as int))) by {}
        }
    }
    i < lb
}

/// Decides whether the stored state of module `current` may be taken over by
/// the code `candidate`: the names must be equal and the candidate's version
/// strictly greater, as text.
pub fn check_migration(current: &ModuleVersion, candidate: &ModuleVersion) -> (r: Result<
    (),
    MigrationError,
>)
    ensures
        r == check_migration_spec(current@, candidate@),
{
    if current.name != candidate.name {
        return Err(MigrationError::WrongModule);
    }
    if !precedes(current.version.as_str(), candidate.version.as_str()) {
        return Err(MigrationError::NotNewer);
    }
    Ok(())
}

} // verus!
