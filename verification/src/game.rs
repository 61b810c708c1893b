//! The decisions of the simulated-game runner: which path to launch and
//! which process image to terminate.

use vstd::prelude::*;
use vstd::string::{StrSliceExecFns, StringExecFns};

verus! {

/// A path separator as the simulated-game paths use it: either direction.
pub open spec fn is_sep(c: char) -> bool {
    c == '/' || c == '\\'
}

/// The process image name of an executable path: the suffix after the last
/// path separator, or the whole path when it holds none.
pub open spec fn spec_image_name(s: Seq<char>) -> Seq<char>
    decreases s.len(),
{
    if s.len() == 0 {
        Seq::empty()
    } else if is_sep(s.last()) {
        Seq::empty()
    } else {
        spec_image_name(s.drop_last()).push(s.last())
    }
}

/// When everything from `cut` on is separator-free and `cut` sits right after
/// a separator (or at the start), the image name is exactly that suffix.
proof fn lemma_image_name_suffix(s: Seq<char>, cut: int)
    requires
        0 <= cut <= s.len(),
        cut == 0 || is_sep(s[cut - 1]),
        forall|k: int| cut <= k < s.len() ==> !is_sep(s[k]),
    ensures
        spec_image_name(s) == s.subrange(cut, s.len() as int),
    decreases s.len(),
{
    if s.len() == 0 {
        assert(spec_image_name(s) =~= s.subrange(cut, s.len() as int));
    } else if cut == s.len() {
        assert(is_sep(s.last()));
        assert(spec_image_name(s) =~= s.subrange(cut, s.len() as int));
    } else {
        assert(!is_sep(s.last()));
        let p = s.drop_last();
        lemma_image_name_suffix(p, cut);
        assert(p.subrange(cut, p.len() as int) =~= s.subrange(cut, s.len() as int - 1));
        assert(s.subrange(cut, s.len() as int) =~= s.subrange(cut, s.len() as int - 1).push(
            s.last(),
        ));
    }
}

/// Decides the launch action for a simulated game: the full path of the
/// executable to start, from the game directory and the executable name as
/// the platform's storage lays them out. The caller checks existence and
/// spawns the process.
pub fn run_simulated_game(path: &str, executable_name: &str) -> (r: String)
    ensures
        r@ == path@ + "\\"@ + executable_name@,
{
    let mut target = String::from_str(path);
    target.append("\\");
    target.append(executable_name);
    assert(target@ =~= path@ + "\\"@ + executable_name@);
    target
}

/// Decides the kill action for a running simulated game: the system's
/// process-termination command wants the process image name, not the path, so
/// this computes the last path component of `exec_name`. The caller performs
/// the actual termination with it.
pub fn stop_simulated_game(exec_name: &str) -> (r: String)
    ensures
        r@ == spec_image_name(exec_name@),
{
    let n = exec_name.unicode_len();
    let mut cut: usize = 0;
    let mut i: usize = 0;
    while i < n
        invariant
            n == exec_name@.len(),
            cut <= i <= n,
            forall|k: int| cut <= k < i ==> !is_sep(exec_name@[k]),
            cut == 0 || is_sep(exec_name@[cut - 1]),
        decreases n - i,
    {
        let c = exec_name.get_char(i);
        if c == '/' || c == '\\' {
            cut = i + 1;
        }
        i = i + 1;
    }
    let tail = exec_name.substring_char(cut, n);
    proof {
        lemma_image_name_suffix(exec_name@, cut as int);
    }
    String::from_str(tail)
}

} // verus!
