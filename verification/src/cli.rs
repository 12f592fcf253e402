//! The command-line interface: the option grammar, its parse into a
//! `Configuration`, and the split of trailing arguments destined for the
//! launched application.
//!
//! The grammar: option tokens may precede the launch target; `-v`/`--verbose`,
//! `--x64`, `--kill`, `--allow-dialogs` (alias `--allowDialogs`) and
//! `--no-launch` are switches; `--lv-ver`, `--arch`, `--connect-timeout`
//! (alias `--timeout`) and `--kill-timeout` take the following token as their
//! value, the timeouts as decimal milliseconds. The first other token that
//! does not look like an option, or the token after a bare `--`, is the
//! launch target; everything beyond it is left for the application.

use vstd::prelude::*;
use vstd::utf8::encode_utf8;
use crate::installs::Bitness;
use crate::strutil::{str_eq, parsed_u64, parse_u64_bytes};
use vstd::string::StrSliceExecFns;

verus! {

/// Milliseconds to wait for the application to connect when no timeout is
/// given.
pub const DEFAULT_CONNECT_TIMEOUT_MS: u64 = 60000;

/// Milliseconds of grace before a requested kill when no timeout is given.
pub const DEFAULT_KILL_TIMEOUT_MS: u64 = 10000;

/// The options as the token scan collects them, before defaults apply.
pub struct RawCli {
    pub verbose: bool,
    pub lv_ver: Option<Seq<char>>,
    pub arch: Option<Seq<char>>,
    pub x64: bool,
    pub connect_timeout: Option<int>,
    pub kill: bool,
    pub kill_timeout: Option<int>,
    pub allow_dialogs: bool,
    pub no_launch: bool,
    pub to_launch: Seq<char>,
}

/// The scan's starting point: nothing seen yet.
pub open spec fn initial_raw() -> RawCli {
    RawCli {
        verbose: false,
        lv_ver: None,
        arch: None,
        x64: false,
        connect_timeout: None,
        kill: false,
        kill_timeout: None,
        allow_dialogs: false,
        no_launch: false,
        to_launch: Seq::empty(),
    }
}

/// What kind of token the scan sees.
#[derive(Copy, Clone, Debug, PartialEq, Eq, Structural)]
pub enum TokenKind {
    /// `-v` or `--verbose`.
    SwitchVerbose,
    /// `--x64`.
    SwitchX64,
    /// `--kill`.
    SwitchKill,
    /// `--allow-dialogs` or its alias `--allowDialogs`.
    SwitchAllowDialogs,
    /// `--no-launch`.
    SwitchNoLaunch,
    /// `--lv-ver`, taking the next token as its value.
    ValueLvVer,
    /// `--arch`, taking the next token as its value.
    ValueArch,
    /// `--connect-timeout` or its alias `--timeout`.
    ValueConnectTimeout,
    /// `--kill-timeout`.
    ValueKillTimeout,
    /// A bare `--`: the next token is the launch target.
    Separator,
    /// Any other token that looks like an option.
    UnknownOption,
    /// The launch target.
    Target,
}

/// Classify one token of the command line.
pub open spec fn spec_classify(t: Seq<char>) -> TokenKind {
    if t == "-v"@ || t == "--verbose"@ {
        TokenKind::SwitchVerbose
    } else if t == "--x64"@ {
        TokenKind::SwitchX64
    } else if t == "--kill"@ {
        TokenKind::SwitchKill
    } else if t == "--allow-dialogs"@ || t == "--allowDialogs"@ {
        TokenKind::SwitchAllowDialogs
    } else if t == "--no-launch"@ {
        TokenKind::SwitchNoLaunch
    } else if t == "--lv-ver"@ {
        TokenKind::ValueLvVer
    } else if t == "--arch"@ {
        TokenKind::ValueArch
    } else if t == "--connect-timeout"@ || t == "--timeout"@ {
        TokenKind::ValueConnectTimeout
    } else if t == "--kill-timeout"@ {
        TokenKind::ValueKillTimeout
    } else if t == "--"@ {
        TokenKind::Separator
    } else if t.len() > 0 && t[0] == '-' {
        TokenKind::UnknownOption
    } else {
        TokenKind::Target
    }
}

/// Decide a token's kind.
fn classify(t: &str) -> (k: TokenKind)
    ensures
        k == spec_classify(t@),
{
    if str_eq(t, "-v") || str_eq(t, "--verbose") {
        TokenKind::SwitchVerbose
    } else if str_eq(t, "--x64") {
        TokenKind::SwitchX64
    } else if str_eq(t, "--kill") {
        TokenKind::SwitchKill
    } else if str_eq(t, "--allow-dialogs") || str_eq(t, "--allowDialogs") {
        TokenKind::SwitchAllowDialogs
    } else if str_eq(t, "--no-launch") {
        TokenKind::SwitchNoLaunch
    } else if str_eq(t, "--lv-ver") {
        TokenKind::ValueLvVer
    } else if str_eq(t, "--arch") {
        TokenKind::ValueArch
    } else if str_eq(t, "--connect-timeout") || str_eq(t, "--timeout") {
        TokenKind::ValueConnectTimeout
    } else if str_eq(t, "--kill-timeout") {
        TokenKind::ValueKillTimeout
    } else if str_eq(t, "--") {
        TokenKind::Separator
    } else if !t.is_empty() && t.get_char(0) == '-' {
        TokenKind::UnknownOption
    } else {
        TokenKind::Target
    }
}

/// The token scan: options update the accumulator, the launch target closes
/// it. `None` is a command line the program rejects: an unknown option, an
/// option missing its value, a timeout that is not a number, or no launch
/// target at all.
pub open spec fn parse_cli(toks: Seq<Seq<char>>, acc: RawCli) -> Option<RawCli>
    decreases toks.len(),
{
    if toks.len() == 0 {
        None
    } else {
        match spec_classify(toks[0]) {
            TokenKind::SwitchVerbose => parse_cli(toks.skip(1), RawCli { verbose: true, ..acc }),
            TokenKind::SwitchX64 => parse_cli(toks.skip(1), RawCli { x64: true, ..acc }),
            TokenKind::SwitchKill => parse_cli(toks.skip(1), RawCli { kill: true, ..acc }),
            TokenKind::SwitchAllowDialogs => parse_cli(
                toks.skip(1),
                RawCli { allow_dialogs: true, ..acc },
            ),
            TokenKind::SwitchNoLaunch => parse_cli(toks.skip(1), RawCli { no_launch: true, ..acc }),
            TokenKind::ValueLvVer => if toks.len() >= 2 {
                parse_cli(toks.skip(2), RawCli { lv_ver: Some(toks[1]), ..acc })
            } else {
                None
            },
            TokenKind::ValueArch => if toks.len() >= 2 {
                parse_cli(toks.skip(2), RawCli { arch: Some(toks[1]), ..acc })
            } else {
                None
            },
            TokenKind::ValueConnectTimeout => if toks.len() >= 2 {
                match parsed_u64(encode_utf8(toks[1])) {
                    Some(v) => parse_cli(toks.skip(2), RawCli { connect_timeout: Some(v), ..acc }),
                    None => None,
                }
            } else {
                None
            },
            TokenKind::ValueKillTimeout => if toks.len() >= 2 {
                match parsed_u64(encode_utf8(toks[1])) {
                    Some(v) => parse_cli(toks.skip(2), RawCli { kill_timeout: Some(v), ..acc }),
                    None => None,
                }
            } else {
                None
            },
            TokenKind::Separator => if toks.len() >= 2 {
                Some(RawCli { to_launch: toks[1], ..acc })
            } else {
                None
            },
            TokenKind::UnknownOption => None,
            TokenKind::Target => Some(RawCli { to_launch: toks[0], ..acc }),
        }
    }
}

/// The scan of a whole argument list, the program name skipped.
pub open spec fn parsed_args(args: Seq<Seq<char>>) -> Option<RawCli> {
    parse_cli(args.skip(1), initial_raw())
}

/// The only architecture values the program accepts.
pub open spec fn arch_ok(raw: RawCli) -> bool {
    raw.arch is None || raw.arch == Some("64"@) || raw.arch == Some("32"@)
}

/// The bitness the options select: `--arch` wins over `--x64`; 32 bit is the
/// default.
pub open spec fn spec_bitness(raw: RawCli) -> Bitness {
    match raw.arch {
        Some(a) => if a == "64"@ {
            Bitness::X64
        } else {
            Bitness::X86
        },
        None => if raw.x64 {
            Bitness::X64
        } else {
            Bitness::X86
        },
    }
}

/// The connect timeout in milliseconds, after the default applies.
pub open spec fn spec_connect_timeout(raw: RawCli) -> int {
    match raw.connect_timeout {
        Some(v) => v,
        None => DEFAULT_CONNECT_TIMEOUT_MS as int,
    }
}

/// The kill request: a grace period only when `--kill` was given.
pub open spec fn spec_kill(raw: RawCli) -> Option<int> {
    if raw.kill {
        match raw.kill_timeout {
            Some(v) => Some(v),
            None => Some(DEFAULT_KILL_TIMEOUT_MS as int),
        }
    } else {
        None
    }
}

/// The settings the rest of the program runs under.
pub struct Configuration {
    /// The file to launch: a VI or a built executable.
    pub to_launch: String,
    pub verbose: bool,
    pub lv_version_string: Option<String>,
    pub bitness: Bitness,
    /// Milliseconds to wait for the application to connect.
    pub connect_timeout: u64,
    /// When set, the grace period in milliseconds before the launched
    /// process is killed once the run is over.
    pub kill: Option<u64>,
    /// Allows LabVIEW to show dialogs by removing the unattended flag.
    pub allow_dialogs: bool,
    /// Dont launch anything if this is true.
    pub no_launch: bool,
}

/// A configuration agrees with what a scan collected, defaults included.
pub open spec fn configuration_matches(raw: RawCli, c: Configuration) -> bool {
    &&& c.to_launch@ == raw.to_launch
    &&& c.verbose == raw.verbose
    &&& match (c.lv_version_string, raw.lv_ver) {
        (Some(s), Some(v)) => s@ == v,
        (None, None) => true,
        _ => false,
    }
    &&& c.bitness == spec_bitness(raw)
    &&& c.connect_timeout == spec_connect_timeout(raw)
    &&& match (c.kill, spec_kill(raw)) {
        (Some(a), Some(b)) => a == b,
        (None, None) => true,
        _ => false,
    }
    &&& c.allow_dialogs == raw.allow_dialogs
    &&& c.no_launch == raw.no_launch
}

impl Configuration {
    /// Load configuration from an arguement array; the first entry is the
    /// program's own name. The caller owes a command line the grammar
    /// accepts, with an `--arch` value of `32` or `64` if one is given.
    pub fn from_arg_array(args: Vec<String>) -> (r: Configuration)
        requires
            args@.len() >= 1,
            parsed_args(args.deep_view()) is Some,
            arch_ok(parsed_args(args.deep_view()).unwrap()),
        ensures
            configuration_matches(parsed_args(args.deep_view()).unwrap(), r),
    {
        match Self::try_from_arg_array(args) {
            Some(configuration) => configuration,
            None => vstd::pervasive::unreached(),
        }
    }

    /// Load configuration from an arguement array, refusing what the grammar
    /// refuses: a command line with no launch target, a broken option, or an
    /// `--arch` value that is neither `32` nor `64` yields nothing.
    #[verifier::rlimit(100)]
    pub fn try_from_arg_array(args: Vec<String>) -> (r: Option<Configuration>)
        ensures
            match r {
                Some(c) => args@.len() >= 1 && (parsed_args(args.deep_view()) matches Some(raw)
                    && arch_ok(raw) && configuration_matches(raw, c)),
                None => args@.len() < 1 || parsed_args(args.deep_view()) is None || !arch_ok(
                    parsed_args(args.deep_view()).unwrap(),
                ),
            },
    {
        if args.len() < 1 {
            return None;
        }
        let ghost toks = args.deep_view();
        let ghost goal = parse_cli(toks.skip(1), initial_raw());
        let mut verbose = false;
        let mut lv_ver: Option<String> = None;
        let mut arch: Option<String> = None;
        let mut x64 = false;
        let mut connect_timeout: Option<u64> = None;
        let mut kill = false;
        let mut kill_timeout: Option<u64> = None;
        let mut allow_dialogs = false;
        let mut no_launch = false;
        let ghost mut acc: RawCli = initial_raw();
        let n = args.len();
        let mut i: usize = 1;
        loop
            invariant
                1 <= i <= n,
                n == args@.len(),
                toks == args.deep_view(),
                toks.len() == n,
                forall|k: int| 0 <= k < n ==> toks[k] == args@[k]@,
                goal == parse_cli(toks.skip(1), initial_raw()),
                parse_cli(toks.skip(i as int), acc) == goal,
                acc.verbose == verbose,
                match (lv_ver, acc.lv_ver) {
                    (Some(s), Some(v)) => s@ == v,
                    (None, None) => true,
                    _ => false,
                },
                match (arch, acc.arch) {
                    (Some(s), Some(v)) => s@ == v,
                    (None, None) => true,
                    _ => false,
                },
                acc.x64 == x64,
                match (connect_timeout, acc.connect_timeout) {
                    (Some(a), Some(b)) => a == b,
                    (None, None) => true,
                    _ => false,
                },
                acc.kill == kill,
                match (kill_timeout, acc.kill_timeout) {
                    (Some(a), Some(b)) => a == b,
                    (None, None) => true,
                    _ => false,
                },
                acc.allow_dialogs == allow_dialogs,
                acc.no_launch == no_launch,
            decreases n - i,
        {
            if i == n {
                proof {
                    assert(toks.skip(i as int).len() == 0);
                }
                return None;
            }
            let ghost rest = toks.skip(i as int);
            proof {
                assert(rest[0] == toks[i as int]);
                assert(rest.skip(1) =~= toks.skip(i + 1));
                if i + 2 <= n {
                    assert(rest.skip(2) =~= toks.skip(i + 2));
                    assert(rest[1] == toks[i + 1]);
                }
            }
            let t = &args[i];
            match classify(t.as_str()) {
                TokenKind::SwitchVerbose => {
                    verbose = true;
                    proof {
                        acc = RawCli { verbose: true, ..acc };
                    }
                    i += 1;
                },
                TokenKind::SwitchX64 => {
                    x64 = true;
                    proof {
                        acc = RawCli { x64: true, ..acc };
                    }
                    i += 1;
                },
                TokenKind::SwitchKill => {
                    kill = true;
                    proof {
                        acc = RawCli { kill: true, ..acc };
                    }
                    i += 1;
                },
                TokenKind::SwitchAllowDialogs => {
                    allow_dialogs = true;
                    proof {
                        acc = RawCli { allow_dialogs: true, ..acc };
                    }
                    i += 1;
                },
                TokenKind::SwitchNoLaunch => {
                    no_launch = true;
                    proof {
                        acc = RawCli { no_launch: true, ..acc };
                    }
                    i += 1;
                },
                TokenKind::ValueLvVer => {
                    if i + 1 >= n {
                        return None;
                    }
                    lv_ver = Some(args[i + 1].clone());
                    proof {
                        acc = RawCli { lv_ver: Some(toks[i + 1]), ..acc };
                    }
                    i += 2;
                },
                TokenKind::ValueArch => {
                    if i + 1 >= n {
                        return None;
                    }
                    arch = Some(args[i + 1].clone());
                    proof {
                        acc = RawCli { arch: Some(toks[i + 1]), ..acc };
                    }
                    i += 2;
                },
                TokenKind::ValueConnectTimeout => {
                    if i + 1 >= n {
                        return None;
                    }
                    let v = match parse_u64_bytes(args[i + 1].as_str().as_bytes()) {
                        Some(v) => v,
                        None => {
                            return None;
                        },
                    };
                    connect_timeout = Some(v);
                    proof {
                        acc = RawCli { connect_timeout: Some(v as int), ..acc };
                    }
                    i += 2;
                },
                TokenKind::ValueKillTimeout => {
                    if i + 1 >= n {
                        return None;
                    }
                    let v = match parse_u64_bytes(args[i + 1].as_str().as_bytes()) {
                        Some(v) => v,
                        None => {
                            return None;
                        },
                    };
                    kill_timeout = Some(v);
                    proof {
                        acc = RawCli { kill_timeout: Some(v as int), ..acc };
                    }
                    i += 2;
                },
                TokenKind::Separator => {
                    if i + 1 >= n {
                        return None;
                    }
                    let to_launch = args[i + 1].clone();
                    proof {
                        assert(goal == Some(RawCli { to_launch: toks[i + 1], ..acc }));
                    }
                    if !Self::arch_valid(&arch) {
                        return None;
                    }
                    return Some(Self::assemble(
                        to_launch,
                        verbose,
                        lv_ver,
                        arch,
                        x64,
                        connect_timeout,
                        kill,
                        kill_timeout,
                        allow_dialogs,
                        no_launch,
                        Ghost(goal.unwrap()),
                    ));
                },
                TokenKind::UnknownOption => {
                    return None;
                },
                TokenKind::Target => {
                    let to_launch = t.clone();
                    proof {
                        assert(goal == Some(RawCli { to_launch: toks[i as int], ..acc }));
                    }
                    if !Self::arch_valid(&arch) {
                        return None;
                    }
                    return Some(Self::assemble(
                        to_launch,
                        verbose,
                        lv_ver,
                        arch,
                        x64,
                        connect_timeout,
                        kill,
                        kill_timeout,
                        allow_dialogs,
                        no_launch,
                        Ghost(goal.unwrap()),
                    ));
                },
            }
        }
    }

    /// Whether the collected arch value is one the program accepts.
    fn arch_valid(arch: &Option<String>) -> (r: bool)
        ensures
            r == match arch {
                Some(a) => a@ == "64"@ || a@ == "32"@,
                None => true,
            },
    {
        match arch {
            Some(a) => str_eq(a.as_str(), "64") || str_eq(a.as_str(), "32"),
            None => true,
        }
    }

    /// Apply defaults and the bitness choice to the collected options.
    fn assemble(
        to_launch: String,
        verbose: bool,
        lv_ver: Option<String>,
        arch: Option<String>,
        x64: bool,
        connect_timeout: Option<u64>,
        kill: bool,
        kill_timeout: Option<u64>,
        allow_dialogs: bool,
        no_launch: bool,
        raw: Ghost<RawCli>,
    ) -> (r: Configuration)
        requires
            arch_ok(raw@),
            to_launch@ == raw@.to_launch,
            verbose == raw@.verbose,
            match (lv_ver, raw@.lv_ver) {
                (Some(s), Some(v)) => s@ == v,
                (None, None) => true,
                _ => false,
            },
            match (arch, raw@.arch) {
                (Some(s), Some(v)) => s@ == v,
                (None, None) => true,
                _ => false,
            },
            x64 == raw@.x64,
            match (connect_timeout, raw@.connect_timeout) {
                (Some(a), Some(b)) => a == b,
                (None, None) => true,
                _ => false,
            },
            kill == raw@.kill,
            match (kill_timeout, raw@.kill_timeout) {
                (Some(a), Some(b)) => a == b,
                (None, None) => true,
                _ => false,
            },
            allow_dialogs == raw@.allow_dialogs,
            no_launch == raw@.no_launch,
        ensures
            configuration_matches(raw@, r),
    {
        let bitness = match &arch {
            Some(a) => {
                if str_eq(a.as_str(), "64") {
                    Bitness::X64
                } else {
                    Bitness::X86
                }
            },
            None => {
                if x64 {
                    Bitness::X64
                } else {
                    Bitness::X86
                }
            },
        };
        let connect_timeout = match connect_timeout {
            Some(v) => v,
            None => DEFAULT_CONNECT_TIMEOUT_MS,
        };
        let kill = if kill {
            match kill_timeout {
                Some(v) => Some(v),
                None => Some(DEFAULT_KILL_TIMEOUT_MS),
            }
        } else {
            None
        };
        Configuration {
            to_launch,
            verbose,
            lv_version_string: lv_ver,
            bitness,
            connect_timeout,
            kill,
            allow_dialogs,
            no_launch,
        }
    }
}

/// The tail of the argument list past the first bare `--`: what is handed to
/// the launched application. Empty when no `--` occurs.
pub open spec fn spec_program_arguments(args: Seq<Seq<char>>) -> Seq<Seq<char>>
    decreases args.len(),
{
    if args.len() == 0 {
        Seq::empty()
    } else if args[0] == "--"@ {
        args.skip(1)
    } else {
        spec_program_arguments(args.skip(1))
    }
}

/// A `--` at `j`, with none before it, cuts the list there.
proof fn lemma_program_arguments_cut(args: Seq<Seq<char>>, j: int)
    requires
        0 <= j <= args.len(),
        forall|k: int| 0 <= k < j ==> args[k] != "--"@,
        j == args.len() || args[j] == "--"@,
    ensures
        spec_program_arguments(args) == if j == args.len() {
            Seq::<Seq<char>>::empty()
        } else {
            args.skip(j + 1)
        },
    decreases j,
{
    if j == 0 {
        if args.len() > 0 && args[0] != "--"@ {
            lemma_program_arguments_cut(args.skip(1), 0);
            assert(args.skip(1).skip(1) =~= args.skip(2));
        }
    } else {
        lemma_program_arguments_cut(args.skip(1), j - 1);
        if j < args.len() {
            assert(args.skip(1).skip(j) =~= args.skip(j + 1));
        }
    }
}

/// Extract the arguments that are going to be passed to the application.
pub fn program_arguments(main_args: &Vec<String>) -> (r: Vec<String>)
    ensures
        r.deep_view() == spec_program_arguments(main_args.deep_view()),
{
    let ghost toks = main_args.deep_view();
    let n = main_args.len();
    let mut j: usize = 0;
    while j < n && !str_eq(main_args[j].as_str(), "--")
        invariant
            0 <= j <= n,
            n == main_args@.len(),
            toks == main_args.deep_view(),
            toks.len() == n,
            forall|k: int| 0 <= k < n ==> toks[k] == main_args@[k]@,
            forall|k: int| 0 <= k < j ==> toks[k] != "--"@,
        decreases n - j,
    {
        j += 1;
    }
    proof {
        lemma_program_arguments_cut(toks, j as int);
    }
    let mut r: Vec<String> = Vec::new();
    if j == n {
        proof {
            assert(r.deep_view() =~= spec_program_arguments(toks));
        }
        return r;
    }
    let mut k: usize = j + 1;
    while k < n
        invariant
            j + 1 <= k <= n,
            n == main_args@.len(),
            toks == main_args.deep_view(),
            toks.len() == n,
            forall|m: int| 0 <= m < n ==> toks[m] == main_args@[m]@,
            spec_program_arguments(toks) == toks.skip(j + 1),
            r@.len() == k - j - 1,
            forall|m: int| 0 <= m < r@.len() ==> (#[trigger] r@[m])@ == toks[j + 1 + m],
        decreases n - k,
    {
        r.push(main_args[k].clone());
        k += 1;
    }
    proof {
        assert forall|m: int| 0 <= m < r@.len() implies r.deep_view()[m] == toks.skip(j + 1)[m]
            by {
            assert(r.deep_view()[m] == r@[m]@);
        }
        assert(r.deep_view() =~= toks.skip(j + 1));
    }
    r
}

} // verus!
