//! Bookkeeping of the LabVIEW installations found on a system: each install's
//! version, bitness and directory, stored sorted by major version and bitness
//! so the newest install can serve as the default.

use vstd::prelude::*;
use crate::strutil::{chars_lt, str_eq, str_lt};
use vstd::string::{StrSliceExecFns, StringExecFns};

verus! {

/// An error from scanning the system for installations.
#[derive(Debug)]
pub enum LabviewInstallError {
    /// The install directory could not be scanned; carries its path.
    DirectoryError(String),
}

/// Whether a LabVIEW install is 64 bit or 32 bit.
#[derive(Copy, Clone, Debug, PartialEq, Hash, Eq, PartialOrd, Ord, Structural)]
pub enum Bitness {
    X86,
    X64,
}

/// The text a bitness shows to people: `32bit` or `64bit`.
pub open spec fn bitness_chars(b: Bitness) -> Seq<char> {
    match b {
        Bitness::X64 => "64bit"@,
        Bitness::X86 => "32bit"@,
    }
}

impl Bitness {
    /// The human-readable form of the bitness.
    pub fn display_string(&self) -> (r: String)
        ensures
            r@ == bitness_chars(*self),
    {
        match self {
            Bitness::X64 => String::from_str("64bit"),
            Bitness::X86 => String::from_str("32bit"),
        }
    }
}

/// The version text up to the first space: `2011 SP1` counts as `2011`.
pub open spec fn major_of(s: Seq<char>) -> Seq<char>
    decreases s.len(),
{
    if s.len() == 0 {
        s
    } else if s[0] == ' ' {
        Seq::empty()
    } else {
        seq![s[0]] + major_of(s.skip(1))
    }
}

/// A space-free prefix closed by a space (or the end) is the major version.
proof fn lemma_major_prefix(s: Seq<char>, i: int)
    requires
        0 <= i <= s.len(),
        forall|k: int| 0 <= k < i ==> s[k] != ' ',
        i == s.len() || s[i] == ' ',
    ensures
        major_of(s) == s.take(i),
    decreases i,
{
    if i == 0 {
        assert(s.take(0) =~= Seq::<char>::empty());
    } else {
        lemma_major_prefix(s.skip(1), i - 1);
        assert(s.take(i) =~= seq![s[0]] + s.skip(1).take(i - 1));
    }
}

/// One path component appended to a base path, the way `PathBuf::push` does
/// it: an absolute component replaces the base, otherwise a single separator
/// stands between them.
pub open spec fn joined_path(base: Seq<char>, comp: Seq<char>) -> Seq<char> {
    if comp.len() > 0 && comp[0] == '/' {
        comp
    } else if base.len() == 0 {
        comp
    } else if base.last() == '/' {
        base + comp
    } else {
        base + seq!['/'] + comp
    }
}

/// Append one component to a path.
pub fn path_join(base: &str, comp: &str) -> (r: String)
    ensures
        r@ == joined_path(base@, comp@),
{
    let clen = comp.unicode_len();
    if clen > 0 && comp.get_char(0) == '/' {
        return comp.to_owned();
    }
    let blen = base.unicode_len();
    if blen == 0 {
        return comp.to_owned();
    }
    let mut out = base.to_owned();
    if base.get_char(blen - 1) != '/' {
        out.append("/");
        proof {
            reveal_strlit("/");
            assert("/"@ =~= seq!['/']);
        }
    }
    out.append(comp);
    assert(out@ =~= joined_path(base@, comp@));
    out
}

/// One install of LabVIEW on this system.
#[derive(Debug, PartialEq)]
pub struct LabviewInstall {
    /// The install directory.
    pub path: String,
    /// The full version text, service pack included.
    pub version: String,
    pub bitness: Bitness,
}

impl Clone for LabviewInstall {
    fn clone(&self) -> (r: Self)
        ensures
            r == *self,
    {
        LabviewInstall {
            path: self.path.clone(),
            version: self.version.clone(),
            bitness: self.bitness,
        }
    }
}

impl LabviewInstall {
    /// The major version: the version text before any service-pack suffix.
    pub fn major_version(&self) -> (r: String)
        ensures
            r@ == major_of(self.version@),
    {
        let v = self.version.as_str();
        let n = v.unicode_len();
        let mut i: usize = 0;
        while i < n && v.get_char(i) != ' '
            invariant
                0 <= i <= n,
                n == v@.len(),
                forall|k: int| 0 <= k < i ==> v@[k] != ' ',
            decreases n - i,
        {
            i += 1;
        }
        proof {
            lemma_major_prefix(v@, i as int);
        }
        v.substring_char(0, i).to_owned()
    }

    /// The path of `vi` relative to the install's `vi.lib/G CLI Tools`
    /// directory, where bundled tools live.
    pub fn relative_path(&self, vi: &str) -> (r: String)
        ensures
            r@ == joined_path(
                joined_path(joined_path(self.path@, "vi.lib"@), "G CLI Tools"@),
                vi@,
            ),
    {
        let mut actual = path_join(self.path.as_str(), "vi.lib");
        actual = path_join(actual.as_str(), "G CLI Tools");
        path_join(actual.as_str(), vi)
    }

    /// The LabVIEW executable inside the install directory.
    pub fn application_path(&self) -> (r: String)
        ensures
            r@ == joined_path(self.path@, "labview"@),
    {
        path_join(self.path.as_str(), "labview")
    }
}

/// One line of the printed install details.
pub open spec fn details_line(i: LabviewInstall) -> Seq<char> {
    i.version@ + ", "@ + bitness_chars(i.bitness) + " ("@ + i.path@ + ")\n"@
}

/// The printed details of a list of installs, one line each.
pub open spec fn details_chars(installs: Seq<LabviewInstall>) -> Seq<char>
    decreases installs.len(),
{
    if installs.len() == 0 {
        Seq::empty()
    } else {
        details_chars(installs.drop_last()) + details_line(installs.last())
    }
}

/// The sort key an install is stored under: major version, then bitness,
/// 32 bit before 64 bit.
pub open spec fn install_key(e: (String, LabviewInstall)) -> (Seq<char>, Bitness) {
    (e.0@, e.1.bitness)
}

/// The key an install itself sorts under: its major version and bitness.
pub open spec fn install_sort_key(i: LabviewInstall) -> (Seq<char>, Bitness) {
    (major_of(i.version@), i.bitness)
}

/// The installs are held in strictly increasing key order.
pub open spec fn installs_sorted(s: Seq<LabviewInstall>) -> bool {
    forall|i: int, j: int|
        0 <= i < j < s.len() ==> key_lt(
            install_sort_key(#[trigger] s[i]),
            install_sort_key(#[trigger] s[j]),
        )
}

/// Strict order on install keys.
pub open spec fn key_lt(a: (Seq<char>, Bitness), b: (Seq<char>, Bitness)) -> bool {
    chars_lt(a.0, b.0) || (a.0 == b.0 && a.1 == Bitness::X86 && b.1 == Bitness::X64)
}

/// `chars_lt` never relates a sequence to itself.
proof fn lemma_chars_lt_irreflexive(a: Seq<char>)
    ensures
        !chars_lt(a, a),
    decreases a.len(),
{
    if a.len() > 0 {
        lemma_chars_lt_irreflexive(a.skip(1));
    }
}

/// Two character sequences are equal, or one is `chars_lt` the other.
proof fn lemma_chars_lt_connected(a: Seq<char>, b: Seq<char>)
    requires
        a != b,
    ensures
        chars_lt(a, b) || chars_lt(b, a),
    decreases a.len(),
{
    if a.len() == 0 && b.len() == 0 {
        assert(a =~= b);
    } else if a.len() == 0 || b.len() == 0 {
    } else if a[0] as u32 != b[0] as u32 {
    } else {
        assert(a[0] == b[0]) by {
            vstd::utf8::char_u32_cast(a[0], a[0] as u32);
            vstd::utf8::char_u32_cast(b[0], b[0] as u32);
        }
        if a.skip(1) == b.skip(1) {
            assert(a.skip(1).len() == a.len() - 1);
            assert(b.skip(1).len() == b.len() - 1);
            assert(a.len() == b.len());
            assert forall|i: int| 0 <= i < a.len() implies a[i] == b[i] by {
                if i > 0 {
                    assert(a.skip(1)[i - 1] == b.skip(1)[i - 1]);
                }
            }
            assert(a =~= b);
        } else {
            lemma_chars_lt_connected(a.skip(1), b.skip(1));
        }
    }
}

/// `chars_lt` carries over chains.
proof fn lemma_chars_lt_transitive(a: Seq<char>, b: Seq<char>, c: Seq<char>)
    requires
        chars_lt(a, b),
        chars_lt(b, c),
    ensures
        chars_lt(a, c),
    decreases a.len(),
{
    if b.len() == 0 || c.len() == 0 {
    } else if a.len() == 0 {
    } else {
        if a[0] as u32 == b[0] as u32 && b[0] as u32 == c[0] as u32 {
            lemma_chars_lt_transitive(a.skip(1), b.skip(1), c.skip(1));
        }
    }
}

/// Strict order on keys carries over chains.
proof fn lemma_key_lt_transitive(a: (Seq<char>, Bitness), b: (Seq<char>, Bitness), c: (Seq<char>, Bitness))
    requires
        key_lt(a, b),
        key_lt(b, c),
    ensures
        key_lt(a, c),
{
    if chars_lt(a.0, b.0) && chars_lt(b.0, c.0) {
        lemma_chars_lt_transitive(a.0, b.0, c.0);
    }
}

/// Stores the system's installed LabVIEW versions, one per major version and
/// bitness, sorted by that key.
pub struct SystemLabviewInstalls {
    versions: Vec<(String, LabviewInstall)>,
}

impl SystemLabviewInstalls {
    /// The stored entries are keyed by their install's major version and held
    /// in strictly increasing key order.
    pub closed spec fn wf(self) -> bool {
        &&& forall|i: int|
            0 <= i < self.versions@.len() ==> (#[trigger] self.versions@[i]).0@ == major_of(
                self.versions@[i].1.version@,
            )
        &&& forall|i: int, j: int|
            0 <= i < j < self.versions@.len() ==> key_lt(
                install_key(#[trigger] self.versions@[i]),
                install_key(#[trigger] self.versions@[j]),
            )
    }

    /// The installs in key order.
    pub closed spec fn spec_installs(self) -> Seq<LabviewInstall> {
        self.versions@.map_values(|e: (String, LabviewInstall)| e.1)
    }

    /// The stored versions as a map from key to install.
    pub closed spec fn as_map(self) -> Map<(Seq<char>, Bitness), LabviewInstall> {
        Map::new(
            |k: (Seq<char>, Bitness)|
                exists|i: int|
                    0 <= i < self.versions@.len() && install_key(#[trigger] self.versions@[i])
                        == k,
            |k: (Seq<char>, Bitness)|
                {
                    let i = choose|i: int|
                        0 <= i < self.versions@.len() && install_key(#[trigger] self.versions@[i])
                            == k;
                    self.versions@[i].1
                },
        )
    }

    /// The recorded installs stand in strictly increasing key order, so the
    /// printed details and the default follow from what was added.
    pub proof fn lemma_installs_sorted(self)
        requires
            self.wf(),
        ensures
            installs_sorted(self.spec_installs()),
    {
        assert forall|i: int, j: int|
            0 <= i < j < self.spec_installs().len() implies key_lt(
            install_sort_key(#[trigger] self.spec_installs()[i]),
            install_sort_key(#[trigger] self.spec_installs()[j]),
        ) by {
            assert(install_key(self.versions@[i]) == install_sort_key(self.spec_installs()[i]));
            assert(install_key(self.versions@[j]) == install_sort_key(self.spec_installs()[j]));
        }
    }

    /// A key occurs at most once in a well-formed store.
    proof fn lemma_key_unique(self, i: int, j: int)
        requires
            self.wf(),
            0 <= i < self.versions@.len(),
            0 <= j < self.versions@.len(),
            install_key(self.versions@[i]) == install_key(self.versions@[j]),
        ensures
            i == j,
    {
        if i < j || j < i {
            let k = install_key(self.versions@[i]);
            lemma_chars_lt_irreflexive(k.0);
        }
    }

    /// Create an empty record, to be populated by detection.
    pub fn new() -> (r: Self)
        ensures
            r.wf(),
            r.as_map() == Map::<(Seq<char>, Bitness), LabviewInstall>::empty(),
            r.spec_installs() == Seq::<LabviewInstall>::empty(),
    {
        let r = SystemLabviewInstalls { versions: Vec::new() };
        proof {
            assert(r.as_map() =~= Map::<(Seq<char>, Bitness), LabviewInstall>::empty());
            assert(r.spec_installs() =~= Seq::<LabviewInstall>::empty());
        }
        r
    }

    /// Decide `key_lt` on two keys.
    fn key_lt_exec(a_major: &String, a_bit: Bitness, b_major: &String, b_bit: Bitness) -> (r: bool)
        ensures
            r == key_lt((a_major@, a_bit), (b_major@, b_bit)),
    {
        if str_lt(a_major.as_str(), b_major.as_str()) {
            true
        } else if str_eq(a_major.as_str(), b_major.as_str()) {
            match (a_bit, b_bit) {
                (Bitness::X86, Bitness::X64) => true,
                _ => false,
            }
        } else {
            false
        }
    }

    /// Record the provided install, keyed by major version and bitness; a
    /// second install under the same key replaces the first.
    pub fn add_install(&mut self, install: LabviewInstall)
        requires
            old(self).wf(),
        ensures
            final(self).wf(),
            final(self).as_map() == old(self).as_map().insert(
                (major_of(install.version@), install.bitness),
                install,
            ),
            (if old(self).as_map().dom().contains(install_sort_key(install)) {
                exists|p: int|
                    {
                        &&& 0 <= p < old(self).spec_installs().len()
                        &&& install_sort_key(#[trigger] old(self).spec_installs()[p])
                            == install_sort_key(install)
                        &&& final(self).spec_installs() == old(self).spec_installs().update(
                            p,
                            install,
                        )
                    }
            } else {
                exists|p: int|
                    {
                        &&& 0 <= p <= old(self).spec_installs().len()
                        &&& final(self).spec_installs() == old(self).spec_installs().insert(
                            p,
                            install,
                        )
                    }
            }),
    {
        let major = install.major_version();
        let bit = install.bitness;
        let ghost newkey = (major@, install.bitness);
        let n = self.versions.len();
        let mut idx: usize = 0;
        while idx < n && Self::key_lt_exec(&self.versions[idx].0, self.versions[idx].1.bitness, &major, bit)
            invariant
                0 <= idx <= n,
                n == self.versions@.len(),
                newkey == (major@, install.bitness),
                bit == install.bitness,
                forall|k: int|
                    0 <= k < idx ==> key_lt(install_key(#[trigger] self.versions@[k]), newkey),
            decreases n - idx,
    {
            idx += 1;
        }
        if idx < n && str_eq(self.versions[idx].0.as_str(), major.as_str())
            && self.versions[idx].1.bitness == bit {
            // Same key: replace the stored install.
            let ghost old_seq = self.versions@;
            self.versions[idx] = (major, install);
            proof {
                assert(install_key(old_seq[idx as int]) == newkey);
                assert forall|i: int, j: int|
                    0 <= i < j < self.versions@.len() implies key_lt(
                    install_key(#[trigger] self.versions@[i]),
                    install_key(#[trigger] self.versions@[j]),
                ) by {
                    assert(install_key(self.versions@[i]) == install_key(old_seq[i]));
                    assert(install_key(self.versions@[j]) == install_key(old_seq[j]));
                }
                assert forall|k: (Seq<char>, Bitness)|
                    self.as_map().dom().contains(k) <==> old(self).as_map().insert(
                        newkey,
                        install,
                    ).dom().contains(k) by {
                    if k == newkey {
                        assert(install_key(self.versions@[idx as int]) == k);
                    } else {
                        assert forall|i: int|
                            0 <= i < old_seq.len() && install_key(old_seq[i]) == k implies
                            install_key(self.versions@[i]) == k by {}
                        assert forall|i: int|
                            0 <= i < self.versions@.len() && install_key(self.versions@[i]) == k
                            implies install_key(old_seq[i]) == k by {}
                    }
                }
                assert forall|k: (Seq<char>, Bitness)| #[trigger]
                    self.as_map().dom().contains(k) implies self.as_map()[k] == old(
                    self,
                ).as_map().insert(newkey, install)[k] by {
                    let i = choose|i: int|
                        0 <= i < self.versions@.len() && install_key(#[trigger] self.versions@[i])
                            == k;
                    if k == newkey {
                        self.lemma_key_unique(i, idx as int);
                    } else {
                        assert(i != idx);
                        assert(install_key(old_seq[i]) == k);
                        let j = choose|j: int|
                            0 <= j < old_seq.len() && install_key(#[trigger] old_seq[j]) == k;
                        old(self).lemma_key_unique(i, j);
                    }
                }
                assert(self.as_map() =~= old(self).as_map().insert(newkey, install));
                // The stored sequence changed by one replacement.
                assert(newkey == install_sort_key(install));
                assert(install_sort_key(old(self).spec_installs()[idx as int]) == newkey);
                assert(old(self).as_map().dom().contains(install_sort_key(install)));
                assert(self.spec_installs() =~= old(self).spec_installs().update(
                    idx as int,
                    install,
                ));
            }
        } else {
            // New key: insert it where the scan stopped, keeping the order.
            let ghost old_seq = self.versions@;
            proof {
                if idx < n {
                    let cur = install_key(old_seq[idx as int]);
                    assert(cur != newkey);
                    assert(!key_lt(cur, newkey));
                    if cur.0 != newkey.0 {
                        lemma_chars_lt_connected(cur.0, newkey.0);
                    }
                    assert(key_lt(newkey, cur));
                    assert forall|k: int| idx < k < n implies key_lt(
                        newkey,
                        install_key(#[trigger] old_seq[k]),
                    ) by {
                        lemma_key_lt_transitive(newkey, cur, install_key(old_seq[k]));
                    }
                }
            }
            self.versions.insert(idx, (major, install));
            proof {
                let new_seq = self.versions@;
                assert(new_seq == old_seq.insert(idx as int, ((major, install))));
                assert forall|k: int| 0 <= k < new_seq.len() implies (#[trigger] new_seq[k]).0@
                    == major_of(new_seq[k].1.version@) by {
                    if k < idx {
                        assert(new_seq[k] == old_seq[k]);
                    } else if k > idx {
                        assert(new_seq[k] == old_seq[k - 1]);
                    }
                }
                assert forall|i: int, j: int| 0 <= i < j < new_seq.len() implies key_lt(
                    install_key(#[trigger] new_seq[i]),
                    install_key(#[trigger] new_seq[j]),
                ) by {
                    let cur_i = if i < idx {
                        old_seq[i]
                    } else if i == idx {
                        (major, install)
                    } else {
                        old_seq[i - 1]
                    };
                    assert(new_seq[i] == cur_i);
                    let cur_j = if j < idx {
                        old_seq[j]
                    } else if j == idx {
                        (major, install)
                    } else {
                        old_seq[j - 1]
                    };
                    assert(new_seq[j] == cur_j);
                    if i == idx {
                        // newkey < every key at and after idx in the old order
                        assert(key_lt(newkey, install_key(old_seq[j - 1])));
                    } else if j == idx {
                        assert(key_lt(install_key(old_seq[i]), newkey));
                    } else if i < idx && j > idx {
                        assert(key_lt(install_key(old_seq[i]), install_key(old_seq[j - 1])));
                    }
                }
                assert forall|k: (Seq<char>, Bitness)|
                    self.as_map().dom().contains(k) <==> old(self).as_map().insert(
                        newkey,
                        install,
                    ).dom().contains(k) by {
                    if k == newkey {
                        assert(install_key(new_seq[idx as int]) == k);
                    } else {
                        assert forall|i: int|
                            0 <= i < old_seq.len() && install_key(old_seq[i]) == k implies
                            exists|j: int|
                                0 <= j < new_seq.len() && install_key(#[trigger] new_seq[j]) == k
                            by {
                            if i < idx {
                                assert(install_key(new_seq[i]) == k);
                            } else {
                                assert(install_key(new_seq[i + 1]) == k);
                            }
                        }
                        assert forall|j: int|
                            0 <= j < new_seq.len() && install_key(new_seq[j]) == k implies
                            exists|i: int|
                                0 <= i < old_seq.len() && install_key(#[trigger] old_seq[i]) == k
                            by {
                            if j < idx {
                                assert(install_key(old_seq[j]) == k);
                            } else {
                                assert(j != idx);
                                assert(install_key(old_seq[j - 1]) == k);
                            }
                        }
                    }
                }
                assert forall|k: (Seq<char>, Bitness)| #[trigger]
                    self.as_map().dom().contains(k) implies self.as_map()[k] == old(
                    self,
                ).as_map().insert(newkey, install)[k] by {
                    let i = choose|i: int|
                        0 <= i < new_seq.len() && install_key(#[trigger] new_seq[i]) == k;
                    if k == newkey {
                        self.lemma_key_unique(i, idx as int);
                    } else {
                        assert(i != idx);
                        let iold: int = if i < idx {
                            i
                        } else {
                            i - 1
                        };
                        assert(install_key(old_seq[iold]) == k);
                        let j = choose|j: int|
                            0 <= j < old_seq.len() && install_key(#[trigger] old_seq[j]) == k;
                        old(self).lemma_key_unique(iold, j);
                    }
                }
                assert(self.as_map() =~= old(self).as_map().insert(newkey, install));
                // The key is new: nothing in the old store carried it.
                assert(newkey == install_sort_key(install));
                assert(!old(self).as_map().dom().contains(newkey)) by {
                    if old(self).as_map().dom().contains(newkey) {
                        let j = choose|j: int|
                            0 <= j < old_seq.len() && install_key(#[trigger] old_seq[j])
                                == newkey;
                        if j < idx {
                            lemma_chars_lt_irreflexive(newkey.0);
                        } else if j == idx {
                            assert(install_key(old_seq[idx as int]) != newkey);
                        } else {
                            assert(key_lt(
                                install_key(old_seq[idx as int]),
                                install_key(old_seq[j]),
                            ));
                        }
                    }
                }
                assert(self.spec_installs() =~= old(self).spec_installs().insert(
                    idx as int,
                    install,
                ));
            }
        }
    }

    /// Retrieve an installed version matching the requested version text and
    /// bitness; service packs of a major version match their base version.
    pub fn get_version(&self, version: &str, bitness: Bitness) -> (r: Option<&LabviewInstall>)
        requires
            self.wf(),
        ensures
            match r {
                Some(inst) => self.as_map().dom().contains((version@, bitness)) && *inst
                    == self.as_map()[(version@, bitness)],
                None => !self.as_map().dom().contains((version@, bitness)),
            },
    {
        let n = self.versions.len();
        let mut i: usize = 0;
        while i < n
            invariant
                0 <= i <= n,
                n == self.versions@.len(),
                self.wf(),
                forall|k: int|
                    0 <= k < i ==> install_key(#[trigger] self.versions@[k]) != (version@, bitness),
            decreases n - i,
        {
            let entry = &self.versions[i];
            if str_eq(entry.0.as_str(), version) && entry.1.bitness == bitness {
                proof {
                    let j = choose|j: int|
                        0 <= j < self.versions@.len() && install_key(
                            #[trigger] self.versions@[j],
                        ) == (version@, bitness);
                    self.lemma_key_unique(i as int, j);
                }
                return Some(&entry.1);
            }
            i += 1;
        }
        None
    }

    /// Provides a string output which can be printed to show the install
    /// details, one line per recorded install, in key order.
    pub fn print_details(&self) -> (r: String)
        ensures
            r@ == "Detected LabVIEW versions:\n"@ + details_chars(self.spec_installs()),
    {
        let ghost installs = self.spec_installs();
        let mut output = String::from_str("Detected LabVIEW versions:\n");
        let mut i: usize = 0;
        while i < self.versions.len()
            invariant
                0 <= i <= self.versions@.len(),
                installs == self.spec_installs(),
                installs.len() == self.versions@.len(),
                forall|k: int| 0 <= k < installs.len() ==> installs[k] == self.versions@[k].1,
                output@ == "Detected LabVIEW versions:\n"@ + details_chars(
                    installs.take(i as int),
                ),
            decreases self.versions@.len() - i,
        {
            let inst = &self.versions[i].1;
            output.append(inst.version.as_str());
            output.append(", ");
            let b = inst.bitness.display_string();
            output.append(b.as_str());
            output.append(" (");
            output.append(inst.path.as_str());
            output.append(")\n");
            proof {
                assert(installs.take(i + 1).drop_last() =~= installs.take(i as int));
                assert(installs.take(i + 1).last() == installs[i as int]);
                assert(output@ =~= "Detected LabVIEW versions:\n"@ + details_chars(
                    installs.take(i + 1),
                ));
            }
            i += 1;
        }
        proof {
            assert(installs.take(installs.len() as int) =~= installs);
        }
        output
    }

    /// The default version: the latest one recorded, that is, the install
    /// under the greatest key.
    pub fn get_default(&self) -> (r: Option<&LabviewInstall>)
        requires
            self.wf(),
        ensures
            match r {
                Some(inst) => {
                    &&& self.spec_installs().len() > 0
                    &&& *inst == self.spec_installs().last()
                    &&& exists|k: (Seq<char>, Bitness)|
                        {
                            &&& #[trigger] self.as_map().dom().contains(k)
                            &&& *inst == self.as_map()[k]
                            &&& forall|k2: (Seq<char>, Bitness)|
                                self.as_map().dom().contains(k2) ==> k2 == k || key_lt(k2, k)
                        }
                },
                None => self.spec_installs().len() == 0 && self.as_map().dom() == Set::<
                    (Seq<char>, Bitness),
                >::empty(),
            },
    {
        let n = self.versions.len();
        if n == 0 {
            proof {
                assert(self.as_map().dom() =~= Set::<(Seq<char>, Bitness)>::empty());
            }
            None
        } else {
            proof {
                let top = install_key(self.versions@[n - 1]);
                assert(self.as_map().dom().contains(top));
                let j = choose|j: int|
                    0 <= j < self.versions@.len() && install_key(#[trigger] self.versions@[j])
                        == top;
                self.lemma_key_unique(j, n - 1);
                assert(self.as_map()[top] == self.versions@[n - 1].1);
                assert forall|k2: (Seq<char>, Bitness)|
                    self.as_map().dom().contains(k2) implies k2 == top || key_lt(k2, top) by {
                    let i = choose|i: int|
                        0 <= i < self.versions@.len() && install_key(#[trigger] self.versions@[i])
                            == k2;
                    if i < n - 1 {
                        assert(key_lt(
                            install_key(self.versions@[i]),
                            install_key(self.versions@[n - 1]),
                        ));
                    }
                }
            }
            Some(&self.versions[n - 1].1)
        }
    }
}

} // verus!
