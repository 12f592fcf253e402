//! Deciding how to launch: the child's command-line arguments, the choice
//! between launching a VI under LabVIEW and a built executable, the fallback
//! lookup of a VI inside the install's bundled tools, and the selection of an
//! installed LabVIEW version. The launching itself — processes, the
//! filesystem — is the caller's; every decision is made here, on plain
//! values.

use vstd::prelude::*;
use vstd::string::{StrSliceExecFns, StringExecFns};
use crate::installs::{Bitness, LabviewInstall, SystemLabviewInstalls, joined_path};
use crate::labview_error::LabVIEWError;
use crate::strutil::{dec_chars, str_eq, u64_to_string};
use crate::vi_location::{VILocation, extension_of, last_component_len, container_of};

verus! {

/// The arguments the child is launched with: the unattended flag unless
/// dialogs are allowed, then the separator and the port marker.
pub open spec fn launch_args_chars(port: int, allow_dialogs: bool) -> Seq<Seq<char>> {
    let base = seq!["--"@, "-p:"@ + dec_chars(port)];
    if allow_dialogs {
        base
    } else {
        seq!["-unattended"@] + base
    }
}

/// Build the child's launch arguments for this port.
pub fn create_args(port: u16, allow_dialogs: bool) -> (r: Vec<String>)
    ensures
        r.deep_view() == launch_args_chars(port as int, allow_dialogs),
{
    let mut args: Vec<String> = Vec::new();
    if !allow_dialogs {
        args.push(String::from_str("-unattended"));
    }
    args.push(String::from_str("--"));
    let mut port_arg = String::from_str("-p:");
    let port_text = u64_to_string(port as u64);
    port_arg.append(port_text.as_str());
    args.push(port_arg);
    proof {
        assert(args.deep_view() =~= launch_args_chars(port as int, allow_dialogs));
    }
    args
}

/// Uses the version string to select an installed LabVIEW: the requested
/// version and bitness where recorded, otherwise the default, which is the
/// latest install; nothing where none is recorded at all.
pub fn find_install(
    version_string: &Option<String>,
    bitness: Bitness,
    system_installs: &SystemLabviewInstalls,
) -> (r: Option<LabviewInstall>)
    requires
        system_installs.wf(),
    ensures
        match version_string {
            Some(v) => {
                if system_installs.as_map().dom().contains((v@, bitness)) {
                    r matches Some(inst) && inst == system_installs.as_map()[(v@, bitness)]
                } else if system_installs.spec_installs().len() > 0 {
                    r matches Some(inst) && inst == system_installs.spec_installs().last()
                } else {
                    r is None
                }
            },
            None => {
                if system_installs.spec_installs().len() > 0 {
                    r matches Some(inst) && inst == system_installs.spec_installs().last()
                } else {
                    r is None
                }
            },
        },
{
    let selected = match version_string {
        Some(version) => {
            match system_installs.get_version(version.as_str(), bitness) {
                Some(install) => Some(install),
                None => system_installs.get_default(),
            }
        },
        None => system_installs.get_default(),
    };
    match selected {
        Some(install) => Some(install.clone()),
        None => None,
    }
}

/// How the launch target is to be started.
#[derive(Debug, PartialEq)]
pub enum LaunchMethod {
    /// A `.vi`: find an installed LabVIEW and have it open the VI.
    LabviewVi,
    /// An `.exe`: start the file itself.
    Executable,
    /// No extension at all: assume a VI, with `.vi` to be appended first.
    AppendViExtension,
    /// Any other extension is not launchable; it is carried for the report.
    UnknownExtension(String),
}

/// A run of extension-free characters closing the path pins `extension_of`:
/// it is decided at the first `.` or `/` from the end.
proof fn lemma_extension_scan(p: Seq<char>, i: int)
    requires
        0 <= i <= p.len(),
        forall|k: int| i <= k < p.len() ==> p[k] != '.' && p[k] != '/',
        i == 0 || p[i - 1] == '.' || p[i - 1] == '/',
    ensures
        extension_of(p) == (if i == 0 || p[i - 1] == '/' {
            None::<Seq<char>>
        } else if last_component_len(p.take(i)) >= 2 {
            Some(p.skip(i))
        } else {
            None::<Seq<char>>
        }),
    decreases p.len() - i,
{
    if p.len() > i {
        lemma_extension_scan(p.drop_last(), i);
        assert(p.drop_last().take(i) =~= p.take(i));
        if i > 0 && p[i - 1] == '.' && last_component_len(p.take(i)) >= 2 {
            assert(p.drop_last().skip(i).push(p.last()) =~= p.skip(i));
        }
    } else {
        if i > 0 && p[i - 1] == '.' {
            assert(p.take(i) =~= p);
            assert(p.skip(i) =~= Seq::<char>::empty());
        }
    }
}

/// Read the launch target's extension, as the file system would see it.
pub fn path_extension(path: &str) -> (r: Option<String>)
    ensures
        match r {
            Some(e) => extension_of(path@) matches Some(x) && x == e@,
            None => extension_of(path@) is None,
        },
{
    let n = path.unicode_len();
    let mut i: usize = n;
    while i > 0 && path.get_char(i - 1) != '.' && path.get_char(i - 1) != '/'
        invariant
            0 <= i <= n,
            n == path@.len(),
            forall|k: int| i <= k < n ==> path@[k] != '.' && path@[k] != '/',
        decreases i,
    {
        i -= 1;
    }
    proof {
        lemma_extension_scan(path@, i as int);
    }
    if i == 0 || path.get_char(i - 1) == '/' {
        return None;
    }
    // The dot must not open its component: measure the component's length.
    proof {
        assert(path@.take(i as int).last() == path@[i - 1]);
        assert(path@.take(i as int).drop_last() =~= path@.take(i - 1));
        if i >= 2 && path@[i - 2] != '/' {
            assert(path@.take(i - 1).last() == path@[i - 2]);
            assert(path@.take(i - 1).drop_last() =~= path@.take(i - 2));
            crate::vi_location::lemma_last_component_nonneg(path@.take(i - 2));
            assert(last_component_len(path@.take(i - 1)) >= 1);
            assert(last_component_len(path@.take(i as int)) >= 2);
        } else {
            if i < 2 {
                assert(path@.take(i - 1).len() == 0);
                assert(last_component_len(path@.take(i - 1)) == 0);
                assert(last_component_len(path@.take(i as int)) == 1);
            } else {
                assert(path@.take(i - 1).last() == '/');
                assert(last_component_len(path@.take(i - 1)) == 0);
                assert(last_component_len(path@.take(i as int)) == 1);
            }
        }
    }
    if i >= 2 && path.get_char(i - 2) != '/' {
        Some(path.substring_char(i, n).to_owned())
    } else {
        None
    }
}

/// Decide the launch method from the target's extension.
pub fn plan_launch(to_launch: &str) -> (r: LaunchMethod)
    ensures
        match extension_of(to_launch@) {
            Some(e) => if e == "vi"@ {
                r == LaunchMethod::LabviewVi
            } else if e == "exe"@ {
                r == LaunchMethod::Executable
            } else {
                r matches LaunchMethod::UnknownExtension(x) && x@ == e
            },
            None => r == LaunchMethod::AppendViExtension,
        },
{
    match path_extension(to_launch) {
        Some(extension) => {
            if str_eq(extension.as_str(), "vi") {
                LaunchMethod::LabviewVi
            } else if str_eq(extension.as_str(), "exe") {
                LaunchMethod::Executable
            } else {
                LaunchMethod::UnknownExtension(extension)
            }
        },
        None => LaunchMethod::AppendViExtension,
    }
}

/// Choose where the VI to launch really lives, the existence checks already
/// made by the caller: the given location where its container exists on
/// disk; failing that, the same VI inside the install's bundled tools, where
/// that exists; otherwise the launch fails, naming the missing VI.
pub fn choose_vi_location(
    launch_vi: &str,
    install: &LabviewInstall,
    primary_exists: bool,
    relative_exists: bool,
) -> (r: Result<VILocation, LabVIEWError>)
    ensures
        match r {
            Ok(v) => {
                if primary_exists {
                    v.spec_vi() == launch_vi@ && v.spec_container() == container_of(launch_vi@)
                } else {
                    let rel = joined_path(
                        joined_path(joined_path(install.path@, "vi.lib"@), "G CLI Tools"@),
                        launch_vi@,
                    );
                    relative_exists && v.spec_vi() == rel && v.spec_container() == container_of(
                        rel,
                    )
                }
            },
            Err(e) => !primary_exists && !relative_exists && (e matches
            LabVIEWError::ViDoesNotExist(missing) && missing@ == launch_vi@),
        },
{
    if primary_exists {
        Ok(VILocation::new(launch_vi))
    } else if relative_exists {
        let relative = install.relative_path(launch_vi);
        Ok(VILocation::new(relative.as_str()))
    } else {
        Err(LabVIEWError::ViDoesNotExist(launch_vi.to_owned()))
    }
}

} // verus!
