//! Where a VI lives on disk. A VI can sit directly in a file or inside a
//! container format — a packed library (`.lvlibp`) or a VI library (`.llb`) —
//! and the file the OS sees is then the container, while LabVIEW is handed
//! the full inner path.

use vstd::prelude::*;
use vstd::string::{StrSliceExecFns, StringExecFns};
use crate::strutil::chars_ends_with;

verus! {

/// The characters after the last `/`: the file name component of a path.
pub open spec fn last_component_len(p: Seq<char>) -> int
    decreases p.len(),
{
    if p.len() == 0 {
        0
    } else if p.last() == '/' {
        0
    } else {
        1 + last_component_len(p.drop_last())
    }
}

/// A component length is never negative.
pub proof fn lemma_last_component_nonneg(p: Seq<char>)
    ensures
        last_component_len(p) >= 0,
    decreases p.len(),
{
    if p.len() > 0 && p.last() != '/' {
        lemma_last_component_nonneg(p.drop_last());
    }
}

/// A run of non-separator characters closing the path is its last component.
proof fn lemma_last_component_len(p: Seq<char>, j: int)
    requires
        0 <= j <= p.len(),
        forall|k: int| j <= k < p.len() ==> p[k] != '/',
        j == 0 || p[j - 1] == '/',
    ensures
        last_component_len(p) == p.len() - j,
    decreases p.len(),
{
    if j < p.len() {
        lemma_last_component_len(p.drop_last(), j);
    } else if p.len() > 0 {
        assert(p.last() == '/');
    }
}

/// The file-name extension: what follows the last `.` of the last component,
/// provided something precedes that dot within the component. `None` where
/// the component has no such dot.
pub open spec fn extension_of(p: Seq<char>) -> Option<Seq<char>>
    decreases p.len(),
{
    if p.len() == 0 || p.last() == '/' {
        None
    } else if p.last() == '.' {
        if last_component_len(p) >= 2 {
            Some(Seq::empty())
        } else {
            None
        }
    } else {
        match extension_of(p.drop_last()) {
            Some(e) => Some(e.push(p.last())),
            None => None,
        }
    }
}

/// Whether a path's file name carries one of the container extensions.
pub open spec fn has_container_ext(p: Seq<char>) -> bool {
    (chars_ends_with(p, ".llb"@) && last_component_len(p) > 4) || (chars_ends_with(p, ".lvlibp"@)
        && last_component_len(p) > 7)
}

/// The longest ancestor of `p`, itself included, whose file name carries a
/// container extension, the ancestors being cut at `/` boundaries; `p` when
/// none does.
pub open spec fn container_upto(p: Seq<char>, j: int) -> Seq<char>
    decreases j + 1,
{
    if j < 0 {
        p
    } else if (j == p.len() || p[j] == '/') && has_container_ext(p.take(j)) {
        p.take(j)
    } else {
        container_upto(p, j - 1)
    }
}

/// The file on disk that contains the VI at this path.
pub open spec fn container_of(p: Seq<char>) -> Seq<char> {
    container_upto(p, p.len() as int)
}

/// Whether the prefix of `p` of length `j` names a container.
fn prefix_is_container(p: &str, j: usize) -> (r: bool)
    requires
        j <= p@.len(),
    ensures
        r == has_container_ext(p@.take(j as int)),
{
    let ghost prefix = p@.take(j as int);
    // Measure the last component of the prefix.
    let mut start: usize = j;
    while start > 0 && p.get_char(start - 1) != '/'
        invariant
            0 <= start <= j <= p@.len(),
            prefix == p@.take(j as int),
            forall|k: int| start <= k < j ==> prefix[k] != '/',
        decreases start,
    {
        start -= 1;
    }
    proof {
        lemma_last_component_len(prefix, start as int);
    }
    let comp_len = j - start;
    if comp_len > 4 {
        let mut is_llb = true;
        let ghost llb = ".llb"@;
        proof {
            reveal_strlit(".llb");
        }
        if p.get_char(j - 4) != '.' || p.get_char(j - 3) != 'l' || p.get_char(j - 2) != 'l'
            || p.get_char(j - 1) != 'b' {
            is_llb = false;
        }
        proof {
            assert(prefix.len() == j);
            if is_llb {
                assert(prefix.skip(j - 4) =~= llb);
            } else {
                assert(prefix.skip(j - 4) != llb) by {
                    if prefix.skip(j - 4) == llb {
                        assert(prefix.skip(j - 4)[0] == llb[0]);
                        assert(prefix.skip(j - 4)[1] == llb[1]);
                        assert(prefix.skip(j - 4)[2] == llb[2]);
                        assert(prefix.skip(j - 4)[3] == llb[3]);
                    }
                }
            }
        }
        if is_llb {
            return true;
        }
    }
    if comp_len > 7 {
        let mut is_lvlibp = true;
        let ghost lvlibp = ".lvlibp"@;
        proof {
            reveal_strlit(".lvlibp");
        }
        if p.get_char(j - 7) != '.' || p.get_char(j - 6) != 'l' || p.get_char(j - 5) != 'v'
            || p.get_char(j - 4) != 'l' || p.get_char(j - 3) != 'i' || p.get_char(j - 2) != 'b'
            || p.get_char(j - 1) != 'p' {
            is_lvlibp = false;
        }
        proof {
            if is_lvlibp {
                assert(prefix.skip(j - 7) =~= lvlibp);
            } else {
                assert(prefix.skip(j - 7) != lvlibp) by {
                    if prefix.skip(j - 7) == lvlibp {
                        assert(prefix.skip(j - 7)[0] == lvlibp[0]);
                        assert(prefix.skip(j - 7)[1] == lvlibp[1]);
                        assert(prefix.skip(j - 7)[2] == lvlibp[2]);
                        assert(prefix.skip(j - 7)[3] == lvlibp[3]);
                        assert(prefix.skip(j - 7)[4] == lvlibp[4]);
                        assert(prefix.skip(j - 7)[5] == lvlibp[5]);
                        assert(prefix.skip(j - 7)[6] == lvlibp[6]);
                    }
                }
            }
        }
        if is_lvlibp {
            return true;
        }
    }
    proof {
        reveal_strlit(".llb");
        reveal_strlit(".lvlibp");
        if chars_ends_with(prefix, ".llb"@) && last_component_len(prefix) > 4 {
            assert(prefix.skip(j - 4)[0] == prefix[j - 4]);
            assert(prefix.skip(j - 4)[1] == prefix[j - 3]);
            assert(prefix.skip(j - 4)[2] == prefix[j - 2]);
            assert(prefix.skip(j - 4)[3] == prefix[j - 1]);
        }
        if chars_ends_with(prefix, ".lvlibp"@) && last_component_len(prefix) > 7 {
            assert(prefix.skip(j - 7)[0] == prefix[j - 7]);
            assert(prefix.skip(j - 7)[1] == prefix[j - 6]);
            assert(prefix.skip(j - 7)[2] == prefix[j - 5]);
            assert(prefix.skip(j - 7)[3] == prefix[j - 4]);
            assert(prefix.skip(j - 7)[4] == prefix[j - 3]);
            assert(prefix.skip(j - 7)[5] == prefix[j - 2]);
            assert(prefix.skip(j - 7)[6] == prefix[j - 1]);
        }
    }
    false
}

/// Identify the container a VI path points into: the deepest ancestor whose
/// file name ends in a container extension, or the path itself.
pub fn get_file_container(vi: &str) -> (r: String)
    ensures
        r@ == container_of(vi@),
{
    let n = vi.unicode_len();
    let mut j: usize = n;
    loop
        invariant
            0 <= j <= n,
            n == vi@.len(),
            container_of(vi@) == container_upto(vi@, j as int),
        decreases j + 1,
    {
        let boundary = j == n || vi.get_char(j) == '/';
        if boundary && prefix_is_container(vi, j) {
            return vi.substring_char(0, j).to_owned();
        }
        if j == 0 {
            assert(container_upto(vi@, -1) == vi@);
            return vi.to_owned();
        }
        j -= 1;
    }
}

/// VILocation represents the location of a VI on disk: the path as the user
/// gave it, and the file that actually holds it, which differs when the VI
/// sits inside a library container.
#[derive(Clone, Debug)]
pub struct VILocation {
    container: String,
    vi: String,
}

impl VILocation {
    /// The path the user gave.
    pub closed spec fn spec_vi(self) -> Seq<char> {
        self.vi@
    }

    /// The file on disk holding the VI.
    pub closed spec fn spec_container(self) -> Seq<char> {
        self.container@
    }

    /// Record a VI path and identify its container.
    pub fn new(vi_path: &str) -> (r: Self)
        ensures
            r.spec_vi() == vi_path@,
            r.spec_container() == container_of(vi_path@),
    {
        VILocation { container: get_file_container(vi_path), vi: vi_path.to_owned() }
    }

    /// The file the OS must see for the launch to make sense.
    pub fn container(&self) -> (r: &str)
        ensures
            r@ == self.spec_container(),
    {
        self.container.as_str()
    }

    /// The path handed to LabVIEW on its command line: the full VI path.
    pub fn labview_parameter(&self) -> (r: String)
        ensures
            r@ == self.spec_vi(),
    {
        self.vi.clone()
    }
}

} // verus!
