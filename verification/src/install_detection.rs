//! Install detection: recognising LabVIEW install directories by name and
//! recording them. A directory like `LabVIEW-2019-64` names its version
//! between the first and second dash and its bitness in the two digits after
//! that; only 64-bit installs are recorded on this platform. Reading the
//! directory itself is the caller's job; the parsing and bookkeeping live
//! here.

use vstd::prelude::*;
use vstd::string::StrSliceExecFns;
use crate::installs::{Bitness, LabviewInstall, SystemLabviewInstalls, major_of};

verus! {

/// An ASCII decimal digit.
pub open spec fn is_digit_char(c: char) -> bool {
    48 <= c as u32 <= 57
}

/// The name spells `labview-` at position `s`, any letter case accepted.
pub open spec fn labview_prefix_at(name: Seq<char>, s: int) -> bool {
    &&& 0 <= s
    &&& s + 8 <= name.len()
    &&& (name[s] == 'l' || name[s] == 'L')
    &&& (name[s + 1] == 'a' || name[s + 1] == 'A')
    &&& (name[s + 2] == 'b' || name[s + 2] == 'B')
    &&& (name[s + 3] == 'v' || name[s + 3] == 'V')
    &&& (name[s + 4] == 'i' || name[s + 4] == 'I')
    &&& (name[s + 5] == 'e' || name[s + 5] == 'E')
    &&& (name[s + 6] == 'w' || name[s + 6] == 'W')
    &&& name[s + 7] == '-'
}

/// The first `-` at or after `from`; the length when none follows.
pub open spec fn first_dash(name: Seq<char>, from: int) -> int
    decreases name.len() - from,
{
    if from >= name.len() {
        name.len() as int
    } else if name[from] == '-' {
        from
    } else {
        first_dash(name, from + 1)
    }
}

/// What the pattern captures at position `s`: the version text up to the
/// next dash, and the two digits after that dash — if all of that is there.
pub open spec fn lv_match_at(name: Seq<char>, s: int) -> Option<(Seq<char>, Seq<char>)> {
    if labview_prefix_at(name, s) {
        let d = first_dash(name, s + 8);
        if d + 2 < name.len() && is_digit_char(name[d + 1]) && is_digit_char(name[d + 2]) {
            Some((name.subrange(s + 8, d), name.subrange(d + 1, d + 3)))
        } else {
            None
        }
    } else {
        None
    }
}

/// The leftmost match of the pattern at or after `s`.
pub open spec fn lv_first_match(name: Seq<char>, s: int) -> Option<(Seq<char>, Seq<char>)>
    decreases name.len() - s,
{
    if s >= name.len() {
        None
    } else if lv_match_at(name, s) is Some {
        lv_match_at(name, s)
    } else {
        lv_first_match(name, s + 1)
    }
}

/// A directory name parsed: the version capture, for a name whose bitness
/// digits say 64. Anything else is no install directory.
pub open spec fn parsed_folder_name(name: Seq<char>) -> Option<(Seq<char>, Bitness)> {
    match lv_first_match(name, 0) {
        Some((ver, dig)) => if dig == "64"@ {
            Some((ver, Bitness::X64))
        } else {
            None
        },
        None => None,
    }
}

/// Decide `lv_match_at` for one position, and hand out the captures.
fn match_at(name: &str, s: usize, n: usize) -> (r: Option<(String, bool)>)
    requires
        n == name@.len(),
        s < n,
    ensures
        match r {
            Some((ver, is64)) => lv_match_at(name@, s as int) matches Some(p) && p.0 == ver@ && (
            is64 == (p.1 == "64"@)),
            None => lv_match_at(name@, s as int) is None,
        },
{
    proof {
        reveal_strlit("64");
        assert("64"@.len() == 2);
    }
    if n - s < 8 {
        return None;
    }
    let c0 = name.get_char(s);
    let c1 = name.get_char(s + 1);
    let c2 = name.get_char(s + 2);
    let c3 = name.get_char(s + 3);
    let c4 = name.get_char(s + 4);
    let c5 = name.get_char(s + 5);
    let c6 = name.get_char(s + 6);
    let c7 = name.get_char(s + 7);
    let is_prefix = (c0 == 'l' || c0 == 'L') && (c1 == 'a' || c1 == 'A') && (c2 == 'b' || c2
        == 'B') && (c3 == 'v' || c3 == 'V') && (c4 == 'i' || c4 == 'I') && (c5 == 'e' || c5 == 'E')
        && (c6 == 'w' || c6 == 'W') && c7 == '-';
    if !is_prefix {
        return None;
    }
    let mut d: usize = s + 8;
    while d < n && name.get_char(d) != '-'
        invariant
            s + 8 <= d <= n,
            n == name@.len(),
            first_dash(name@, s + 8) == first_dash(name@, d as int),
        decreases n - d,
    {
        d += 1;
    }
    assert(first_dash(name@, s + 8) == d);
    if n - d < 3 {
        return None;
    }
    let d1 = name.get_char(d + 1);
    let d2 = name.get_char(d + 2);
    if !(d1 as u32 >= 48 && d1 as u32 <= 57 && d2 as u32 >= 48 && d2 as u32 <= 57) {
        return None;
    }
    let version = name.substring_char(s + 8, d).to_owned();
    let is64 = d1 == '6' && d2 == '4';
    proof {
        let dig = name@.subrange(d + 1, d + 3);
        if is64 {
            assert(dig =~= "64"@);
        } else {
            if dig == "64"@ {
                assert(dig[0] == '6' && dig[1] == '4');
            }
        }
    }
    Some((version, is64))
}

/// Takes a folder name and either returns a tuple of LabVIEW version and
/// bitness, or nothing where the pattern does not match or the install is
/// not 64 bit.
pub fn parse_labview_from_folder_name(name: &str) -> (r: Option<(String, Bitness)>)
    ensures
        match r {
            Some((ver, bit)) => parsed_folder_name(name@) matches Some(p) && p.0 == ver@ && p.1
                == bit,
            None => parsed_folder_name(name@) is None,
        },
{
    let n = name.unicode_len();
    let mut s: usize = 0;
    while s < n
        invariant
            0 <= s <= n,
            n == name@.len(),
            lv_first_match(name@, 0) == lv_first_match(name@, s as int),
        decreases n - s,
    {
        match match_at(name, s, n) {
            Some((version, is64)) => {
                if is64 {
                    return Some((version, Bitness::X64));
                } else {
                    return None;
                }
            },
            None => {
                s += 1;
            },
        }
    }
    None
}

/// One entry of the install directory, as the caller read it from disk.
#[derive(Clone, Debug)]
pub struct DirEntry {
    /// The entry's own name.
    pub file_name: String,
    /// Its full path.
    pub path: String,
    /// Whether it is a directory.
    pub is_dir: bool,
}

/// The key a directory entry would be recorded under, if any: the major
/// version of the parsed name, and the bitness.
pub open spec fn entry_key(e: DirEntry) -> Option<(Seq<char>, Bitness)> {
    if e.is_dir {
        match parsed_folder_name(e.file_name@) {
            Some((ver, bit)) => Some((major_of(ver), bit)),
            None => None,
        }
    } else {
        None
    }
}

/// The install recorded for an entry carries the parsed version, the parsed
/// bitness, and the entry's path.
pub open spec fn entry_install_matches(e: DirEntry, inst: LabviewInstall) -> bool {
    &&& e.is_dir
    &&& parsed_folder_name(e.file_name@) matches Some(p) && inst.version@ == p.0 && inst.bitness
        == p.1 && inst.path@ == e.path@
}

/// Scan the given directory entries for LabVIEW installs and record their
/// details: every subdirectory whose name parses is recorded under its major
/// version and bitness, a later entry replacing an earlier one under the
/// same key.
pub fn detect_installations(entries: &Vec<DirEntry>) -> (r: SystemLabviewInstalls)
    ensures
        r.wf(),
        forall|k: (Seq<char>, Bitness)|
            r.as_map().dom().contains(k) <==> exists|i: int|
                0 <= i < entries@.len() && entry_key(#[trigger] entries@[i]) == Some(k),
        forall|i: int|
            0 <= i < entries@.len() && (#[trigger] entry_key(entries@[i])) is Some && (forall|
                l: int,
            |
                i < l < entries@.len() ==> entry_key(#[trigger] entries@[l]) != entry_key(
                    entries@[i],
                )) ==> entry_install_matches(
                entries@[i],
                r.as_map()[entry_key(entries@[i]).unwrap()],
            ),
{
    let mut system = SystemLabviewInstalls::new();
    let n = entries.len();
    let mut i: usize = 0;
    while i < n
        invariant
            0 <= i <= n,
            n == entries@.len(),
            system.wf(),
            forall|k: (Seq<char>, Bitness)|
                system.as_map().dom().contains(k) <==> exists|j: int|
                    0 <= j < i && entry_key(#[trigger] entries@[j]) == Some(k),
            forall|j: int|
                0 <= j < i && (#[trigger] entry_key(entries@[j])) is Some && (forall|l: int|
                    j < l < i ==> entry_key(#[trigger] entries@[l]) != entry_key(entries@[j]))
                    ==> entry_install_matches(
                    entries@[j],
                    system.as_map()[entry_key(entries@[j]).unwrap()],
                ),
        decreases n - i,
    {
        let entry = &entries[i];
        let ghost prior = system;
        if entry.is_dir {
            match parse_labview_from_folder_name(entry.file_name.as_str()) {
                Some((version, bitness)) => {
                    let install = LabviewInstall { path: entry.path.clone(), version, bitness };
                    let ghost k0 = (major_of(install.version@), install.bitness);
                    assert(entry_key(entries@[i as int]) == Some(k0));
                    system.add_install(install);
                    proof {
                        assert forall|k: (Seq<char>, Bitness)|
                            system.as_map().dom().contains(k) <==> exists|j: int|
                                0 <= j < i + 1 && entry_key(#[trigger] entries@[j]) == Some(
                                    k,
                                ) by {
                            if k == k0 {
                                assert(entry_key(entries@[i as int]) == Some(k));
                            } else {
                                assert(system.as_map().dom().contains(k) == prior.as_map(
                                ).dom().contains(k));
                            }
                        }
                    }
                },
                None => {
                    assert(entry_key(entries@[i as int]) is None);
                },
            }
        } else {
            assert(entry_key(entries@[i as int]) is None);
        }
        i += 1;
    }
    system
}

} // verus!
