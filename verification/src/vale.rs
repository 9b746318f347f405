//! The external-tool manager: every decision around the linter executable.
//!
//! Which executable an invocation uses, whether an update must be
//! downloaded and from which URL, what arguments each subcommand gets, and
//! how the tool's output channels are read — all of it is stated here over
//! plain values. The spawning, downloading and extracting themselves happen
//! outside the library and feed these functions their inputs.

use vstd::prelude::*;

use crate::error::Error;
use crate::text::{
    has_prefix, rfind_char, spec_trim, str_eq, str_starts_with, str_trim, strip_prefix_of,
};

verus! {

/// A parsed semantic version: the numeric triple with its pre-release and
/// build metadata texts.
#[derive(Debug, Clone)]
pub struct Version {
    pub major: u64,
    pub minor: u64,
    pub patch: u64,
    pub pre: String,
    pub build: String,
}

impl View for Version {
    type V = (int, int, int, Seq<char>, Seq<char>);

    open spec fn view(&self) -> (int, int, int, Seq<char>, Seq<char>) {
        (self.major as int, self.minor as int, self.patch as int, self.pre@, self.build@)
    }
}

/// What strict semantic-version parsing makes of a text: its components,
/// or nothing when the text is no version. A function of the text alone.
pub uninterp spec fn sem_version(s: Seq<char>) -> Option<(int, int, int, Seq<char>, Seq<char>)>;

/// Relies on semver::Version::parse: strict parsing into major, minor,
/// patch, pre-release and build metadata, carried over field for field.
#[verifier::external_body]
fn parse_semver(s: &str) -> (r: Result<Version, String>)
    ensures
        match r {
            Ok(v) => sem_version(s@) == Some(v@),
            Err(_) => sem_version(s@) is None,
        },
{
    match semver::Version::parse(s) {
        Ok(v) => Ok(
            Version {
                major: v.major,
                minor: v.minor,
                patch: v.patch,
                pre: v.pre.as_str().to_string(),
                build: v.build.as_str().to_string(),
            },
        ),
        Err(e) => Err(e.to_string()),
    }
}

/// Two parsed versions are the same in every component, the equality
/// `semver::Version` derives.
pub fn versions_equal(a: &Version, b: &Version) -> (r: bool)
    ensures
        r == (a@ == b@),
{
    a.major == b.major && a.minor == b.minor && a.patch == b.patch && a.pre == b.pre && a.build
        == b.build
}

/// The platform half of the release tag.
pub open spec fn spec_platform(os: Seq<char>) -> Seq<char> {
    if os == "windows"@ {
        "Windows"@
    } else if os == "macos"@ {
        "macOS"@
    } else {
        "Linux"@
    }
}

/// The architecture half of the release tag.
pub open spec fn spec_cpu(cpu: Seq<char>) -> Seq<char> {
    if cpu == "x86_64"@ {
        "64-bit"@
    } else if cpu == "arm"@ || cpu == "aarch64"@ {
        "arm64"@
    } else {
        "386"@
    }
}

/// The platform/architecture tag a release archive is published under.
pub open spec fn spec_vale_arch(os: Seq<char>, cpu: Seq<char>) -> Seq<char> {
    spec_platform(os) + "_"@ + spec_cpu(cpu)
}

/// The release tag for a host, from the OS and CPU names the platform
/// reports.
pub fn vale_arch(os: &str, cpu: &str) -> (r: String)
    ensures
        r@ == spec_vale_arch(os@, cpu@),
{
    let mut out: String = if str_eq(os, "windows") {
        "Windows".to_owned()
    } else if str_eq(os, "macos") {
        "macOS".to_owned()
    } else {
        "Linux".to_owned()
    };
    out.append("_");
    if str_eq(cpu, "x86_64") {
        out.append("64-bit");
    } else if str_eq(cpu, "arm") || str_eq(cpu, "aarch64") {
        out.append("arm64");
    } else {
        out.append("386");
    }
    out
}

/// A release tag of the Windows platform: the tag opens with the platform
/// name.
pub open spec fn is_windows_arch(arch: Seq<char>) -> bool {
    has_prefix(arch, "Windows"@)
}

/// The directory part of a path: what stands before the final separator;
/// empty for a bare file name, the root for a file directly under it.
pub open spec fn spec_parent(p: Seq<char>) -> Seq<char> {
    let i = rfind_char(p, '/');
    if i < 0 {
        Seq::empty()
    } else if i == 0 {
        "/"@
    } else {
        p.subrange(0, i)
    }
}

/// The directory a file lives in, used as the working directory of lint
/// runs so relative configuration paths resolve.
pub fn parent_dir(p: &str) -> (r: String)
    ensures
        r@ == spec_parent(p@),
{
    proof {
        crate::text::lemma_rfind_char(p@, '/');
    }
    match crate::text::str_rfind(p, '/') {
        Some(i) => {
            if i == 0 {
                "/".to_owned()
            } else {
                crate::text::substr(p, 0, i)
            }
        },
        None => String::new(),
    }
}

/// One invocation of the external tool, ready to spawn: the executable,
/// the working directory to run it in, if any, and its arguments in order.
#[derive(Debug, Clone)]
pub struct ToolCommand {
    pub exe: String,
    pub cwd: Option<String>,
    pub args: Vec<String>,
}

/// Whether an update must be installed, and what to report either way.
#[derive(Debug, Clone)]
pub enum InstallPlan {
    /// Download the archive at `url` — a zip on the Windows platform tag,
    /// a gzip tarball otherwise — and extract it into the managed
    /// directory.
    Install { version: String, url: String, zip: bool, status: String },
    /// Nothing to do.
    UpToDate { status: String },
}

/// The run planned a download of exactly the published version's archive
/// for this platform, with the install report to show on success.
pub open spec fn spec_install_planned(
    r: &Result<InstallPlan, Error>,
    latest: Seq<char>,
    arch: Seq<char>,
) -> bool {
    match r {
        Ok(InstallPlan::Install { version, url, zip, status }) => version@ == latest && url@
            == spec_asset_url(latest, arch) && *zip == is_windows_arch(arch) && status@ == "Vale v"@
            + latest + " installed."@,
        _ => false,
    }
}

/// The manager of the external linter: where its executables stand and
/// the fixed arguments every structured run gets.
#[derive(Debug, Clone)]
pub struct ValeManager {
    pub managed_exe: String,
    pub managed_bin: String,
    pub args: Vec<String>,
    pub arch: String,
    pub fallback_exe: String,
}

/// Which executable an invocation resolves to: the managed installation
/// when it exists, else the discovered fallback unless the caller asked
/// for managed-only resolution, else nothing.
pub open spec fn spec_exe_path(
    m: ValeManager,
    managed_only: bool,
    managed_exists: bool,
    fallback_exists: bool,
) -> Option<Seq<char>> {
    if managed_exists {
        Some(m.managed_exe@)
    } else if fallback_exists && !managed_only {
        Some(m.fallback_exe@)
    } else {
        None
    }
}

/// Law: executable resolution precedence. A managed installation always
/// wins; with only a fallback discoverable and resolution not forced to
/// managed-only, the fallback is used; with neither, resolution fails.
pub proof fn lemma_exe_resolution(
    m: ValeManager,
    managed_only: bool,
    managed_exists: bool,
    fallback_exists: bool,
)
    ensures
        managed_exists ==> spec_exe_path(m, managed_only, managed_exists, fallback_exists)
            == Some(m.managed_exe@),
        !managed_exists && fallback_exists && !managed_only ==> spec_exe_path(
            m,
            managed_only,
            managed_exists,
            fallback_exists,
        ) == Some(m.fallback_exe@),
        !managed_exists && !fallback_exists ==> spec_exe_path(
            m,
            managed_only,
            managed_exists,
            fallback_exists,
        ) is None,
{
}

/// The result failed with the distinguished not-installed message.
pub open spec fn not_installed_err<T>(r: Result<T, Error>) -> bool {
    match r {
        Err(Error::Msg(m)) => m@ == "Vale is not installed."@,
        _ => false,
    }
}

/// The result failed with a semantic-version parse error.
pub open spec fn semver_err<T>(r: Result<T, Error>) -> bool {
    match r {
        Err(Error::SemVer(_)) => true,
        _ => false,
    }
}

/// The address a release archive is published at.
pub open spec fn spec_asset_url(v: Seq<char>, arch: Seq<char>) -> Seq<char> {
    "https://github.com/errata-ai/vale/releases/download"@ + "/v"@ + v + "/vale_"@ + v + "_"@
        + arch + if is_windows_arch(arch) {
        ".zip"@
    } else {
        ".tar.gz"@
    }
}

/// The URL of the release archive for a version and platform tag.
pub fn asset_url(v: &str, arch: &str) -> (r: String)
    ensures
        r@ == spec_asset_url(v@, arch@),
{
    let mut out: String = "https://github.com/errata-ai/vale/releases/download".to_owned();
    out.append("/v");
    out.append(v);
    out.append("/vale_");
    out.append(v);
    out.append("_");
    out.append(arch);
    if str_starts_with(arch, "Windows") {
        out.append(".zip");
    } else {
        out.append(".tar.gz");
    }
    out
}

impl ValeManager {
    /// A manager rooted next to the server's own executable: the managed
    /// copy lives in a `vale_bin` directory there, with the
    /// platform-appropriate executable name, and structured output is
    /// always requested.
    pub fn new(exe_dir: &str, fallback: &str, os: &str, cpu: &str) -> (r: ValeManager)
        ensures
            r.arch@ == spec_vale_arch(os@, cpu@),
            r.managed_bin@ == exe_dir@ + "/vale_bin"@,
            r.managed_exe@ == r.managed_bin@ + "/"@ + if is_windows_arch(r.arch@) {
                "vale.exe"@
            } else {
                "vale"@
            },
            r.args.deep_view() =~= seq!["--output=JSON"@],
            r.fallback_exe@ == fallback@,
    {
        let arch = vale_arch(os, cpu);
        let mut bin: String = exe_dir.to_owned();
        bin.append("/vale_bin");
        let mut exe: String = bin.clone();
        exe.append("/");
        if str_starts_with(arch.as_str(), "Windows") {
            exe.append("vale.exe");
        } else {
            exe.append("vale");
        }
        let mut args: Vec<String> = Vec::new();
        args.push("--output=JSON".to_owned());
        proof {
            assert(args.deep_view() =~= seq!["--output=JSON"@]);
        }
        ValeManager {
            managed_exe: exe,
            managed_bin: bin,
            args,
            arch,
            fallback_exe: fallback.to_owned(),
        }
    }

    /// An executable is available, managed or fallback.
    pub fn is_installed(&self, managed_exists: bool, fallback_exists: bool) -> (r: bool)
        ensures
            r == (managed_exists || fallback_exists),
    {
        managed_exists || fallback_exists
    }

    /// Resolves which executable to run, by the fixed precedence: managed
    /// installation first, then the fallback unless `managed` restricts
    /// resolution, else the distinguished not-installed error.
    pub fn exe_path(&self, managed: bool, managed_exists: bool, fallback_exists: bool) -> (r:
        Result<String, Error>)
        ensures
            match spec_exe_path(*self, managed, managed_exists, fallback_exists) {
                Some(p) => match r {
                    Ok(s) => s@ == p,
                    Err(_) => false,
                },
                None => not_installed_err(r),
            },
    {
        if managed_exists {
            Ok(self.managed_exe.clone())
        } else if fallback_exists && !managed {
            Ok(self.fallback_exe.clone())
        } else {
            Err(Error::Msg("Vale is not installed.".to_owned()))
        }
    }

    /// The lint invocation for a file: structured output always, the
    /// filter flag only for a non-empty filter, the file last, run from
    /// the file's parent directory.
    pub fn lint_command(
        &self,
        fp: &str,
        filter: &str,
        managed_exists: bool,
        fallback_exists: bool,
    ) -> (r: Result<ToolCommand, Error>)
        ensures
            match spec_exe_path(*self, false, managed_exists, fallback_exists) {
                Some(p) => match r {
                    Ok(c) => c.exe@ == p && (match c.cwd {
                        Some(d) => d@ == spec_parent(fp@),
                        None => false,
                    }) && c.args.deep_view() == self.args.deep_view() + (if filter@.len() == 0 {
                        Seq::<Seq<char>>::empty()
                    } else {
                        seq!["--filter="@ + filter@]
                    }) + seq![fp@],
                    Err(_) => false,
                },
                None => not_installed_err(r),
            },
    {
        let exe = match self.exe_path(false, managed_exists, fallback_exists) {
            Ok(p) => p,
            Err(e) => {
                return Err(e);
            },
        };
        let cwd = parent_dir(fp);
        let mut args: Vec<String> = Vec::new();
        let mut i: usize = 0;
        while i < self.args.len()
            invariant
                0 <= i <= self.args.len(),
                args.deep_view() =~= self.args.deep_view().take(i as int),
            decreases self.args.len() - i,
        {
            let ghost dv0 = args.deep_view();
            args.push(self.args[i].clone());
            proof {
                assert(args.deep_view() =~= dv0.push(self.args.deep_view()[i as int]));
                assert(self.args.deep_view().take(i + 1) =~= self.args.deep_view().take(
                    i as int,
                ).push(self.args.deep_view()[i as int]));
            }
            i += 1;
        }
        proof {
            assert(self.args.deep_view().take(self.args.len() as int) =~= self.args.deep_view());
        }
        if filter.unicode_len() > 0 {
            let mut flag: String = "--filter=".to_owned();
            flag.append(filter);
            let ghost dv0 = args.deep_view();
            args.push(flag);
            proof {
                assert(args.deep_view() =~= dv0.push("--filter="@ + filter@));
            }
        }
        let ghost dv1 = args.deep_view();
        args.push(fp.to_owned());
        proof {
            assert(args.deep_view() =~= dv1.push(fp@));
            assert(args.deep_view() =~= self.args.deep_view() + (if filter@.len() == 0 {
                Seq::<Seq<char>>::empty()
            } else {
                seq!["--filter="@ + filter@]
            }) + seq![fp@]);
        }
        Ok(ToolCommand { exe, cwd: Some(cwd), args })
    }

    /// A subcommand invocation that takes an optional explicit
    /// configuration file and runs in a given directory: the config flag
    /// first when a path was supplied, then the subcommand, then any
    /// trailing argument.
    fn subcommand(
        &self,
        config_path: &str,
        cwd: &str,
        sub: &str,
        trailing: Option<&str>,
        managed_exists: bool,
        fallback_exists: bool,
    ) -> (r: Result<ToolCommand, Error>)
        ensures
            match spec_exe_path(*self, false, managed_exists, fallback_exists) {
                Some(p) => match r {
                    Ok(c) => c.exe@ == p && (match c.cwd {
                        Some(d) => d@ == cwd@,
                        None => false,
                    }) && c.args.deep_view() == (if config_path@.len() == 0 {
                        Seq::<Seq<char>>::empty()
                    } else {
                        seq!["--config="@ + config_path@]
                    }) + seq![sub@] + (match trailing {
                        Some(t) => seq![t@],
                        None => Seq::<Seq<char>>::empty(),
                    }),
                    Err(_) => false,
                },
                None => not_installed_err(r),
            },
    {
        let exe = match self.exe_path(false, managed_exists, fallback_exists) {
            Ok(p) => p,
            Err(e) => {
                return Err(e);
            },
        };
        let mut args: Vec<String> = Vec::new();
        if config_path.unicode_len() > 0 {
            let mut flag: String = "--config=".to_owned();
            flag.append(config_path);
            let ghost dv0 = args.deep_view();
            args.push(flag);
            proof {
                assert(args.deep_view() =~= dv0.push("--config="@ + config_path@));
            }
        }
        let ghost dv1 = args.deep_view();
        args.push(sub.to_owned());
        proof {
            assert(args.deep_view() =~= dv1.push(sub@));
        }
        match trailing {
            Some(t) => {
                let ghost dv2 = args.deep_view();
                args.push(t.to_owned());
                proof {
                    assert(args.deep_view() =~= dv2.push(t@));
                }
            },
            None => {},
        }
        proof {
            assert(args.deep_view() =~= (if config_path@.len() == 0 {
                Seq::<Seq<char>>::empty()
            } else {
                seq!["--config="@ + config_path@]
            }) + seq![sub@] + (match trailing {
                Some(t) => seq![t@],
                None => Seq::<Seq<char>>::empty(),
            }));
        }
        Ok(ToolCommand { exe, cwd: Some(cwd.to_owned()), args })
    }

    /// The `sync` invocation: optional config flag, then the subcommand.
    pub fn sync_command(
        &self,
        config_path: &str,
        cwd: &str,
        managed_exists: bool,
        fallback_exists: bool,
    ) -> (r: Result<ToolCommand, Error>)
        ensures
            match spec_exe_path(*self, false, managed_exists, fallback_exists) {
                Some(p) => match r {
                    Ok(c) => c.exe@ == p && (match c.cwd {
                        Some(d) => d@ == cwd@,
                        None => false,
                    }) && c.args.deep_view() == (if config_path@.len() == 0 {
                        Seq::<Seq<char>>::empty()
                    } else {
                        seq!["--config="@ + config_path@]
                    }) + seq!["sync"@],
                    Err(_) => false,
                },
                None => not_installed_err(r),
            },
    {
        let r = self.subcommand(config_path, cwd, "sync", None, managed_exists, fallback_exists);
        proof {
            match &r {
                Ok(c) => {
                    assert(c.args.deep_view() =~= (if config_path@.len() == 0 {
                        Seq::<Seq<char>>::empty()
                    } else {
                        seq!["--config="@ + config_path@]
                    }) + seq!["sync"@]);
                },
                Err(_) => {},
            }
        }
        r
    }

    /// The `ls-config` invocation: optional config flag, then the
    /// subcommand.
    pub fn config_command(
        &self,
        config_path: &str,
        cwd: &str,
        managed_exists: bool,
        fallback_exists: bool,
    ) -> (r: Result<ToolCommand, Error>)
        ensures
            match spec_exe_path(*self, false, managed_exists, fallback_exists) {
                Some(p) => match r {
                    Ok(c) => c.exe@ == p && (match c.cwd {
                        Some(d) => d@ == cwd@,
                        None => false,
                    }) && c.args.deep_view() == (if config_path@.len() == 0 {
                        Seq::<Seq<char>>::empty()
                    } else {
                        seq!["--config="@ + config_path@]
                    }) + seq!["ls-config"@],
                    Err(_) => false,
                },
                None => not_installed_err(r),
            },
    {
        let r = self.subcommand(
            config_path,
            cwd,
            "ls-config",
            None,
            managed_exists,
            fallback_exists,
        );
        proof {
            match &r {
                Ok(c) => {
                    assert(c.args.deep_view() =~= (if config_path@.len() == 0 {
                        Seq::<Seq<char>>::empty()
                    } else {
                        seq!["--config="@ + config_path@]
                    }) + seq!["ls-config"@]);
                },
                Err(_) => {},
            }
        }
        r
    }

    /// The `compile` invocation for one rule file: optional config flag,
    /// the subcommand, then the rule path.
    pub fn compile_command(
        &self,
        config_path: &str,
        cwd: &str,
        rule: &str,
        managed_exists: bool,
        fallback_exists: bool,
    ) -> (r: Result<ToolCommand, Error>)
        ensures
            match spec_exe_path(*self, false, managed_exists, fallback_exists) {
                Some(p) => match r {
                    Ok(c) => c.exe@ == p && (match c.cwd {
                        Some(d) => d@ == cwd@,
                        None => false,
                    }) && c.args.deep_view() == (if config_path@.len() == 0 {
                        Seq::<Seq<char>>::empty()
                    } else {
                        seq!["--config="@ + config_path@]
                    }) + seq!["compile"@] + seq![rule@],
                    Err(_) => false,
                },
                None => not_installed_err(r),
            },
    {
        self.subcommand(config_path, cwd, "compile", Some(rule), managed_exists, fallback_exists)
    }

    /// The `fix` invocation on a written-out alert file; no working
    /// directory of its own.
    pub fn fix_command(&self, alert_file: &str, managed_exists: bool, fallback_exists: bool) -> (r:
        Result<ToolCommand, Error>)
        ensures
            match spec_exe_path(*self, false, managed_exists, fallback_exists) {
                Some(p) => match r {
                    Ok(c) => c.exe@ == p && c.cwd is None && c.args.deep_view() =~= seq![
                        "fix"@,
                        alert_file@,
                    ],
                    Err(_) => false,
                },
                None => not_installed_err(r),
            },
    {
        let exe = match self.exe_path(false, managed_exists, fallback_exists) {
            Ok(p) => p,
            Err(e) => {
                return Err(e);
            },
        };
        let mut args: Vec<String> = Vec::new();
        args.push("fix".to_owned());
        args.push(alert_file.to_owned());
        proof {
            assert(args.deep_view() =~= seq!["fix"@, alert_file@]);
        }
        Ok(ToolCommand { exe, cwd: None, args })
    }

    /// The version-probe invocation: the bare version flag, resolved
    /// against the managed installation only when `managed` asks for it.
    pub fn version_command(&self, managed: bool, managed_exists: bool, fallback_exists: bool) -> (r:
        Result<ToolCommand, Error>)
        ensures
            match spec_exe_path(*self, managed, managed_exists, fallback_exists) {
                Some(p) => match r {
                    Ok(c) => c.exe@ == p && c.cwd is None && c.args.deep_view() =~= seq!["-v"@],
                    Err(_) => false,
                },
                None => not_installed_err(r),
            },
    {
        let exe = match self.exe_path(managed, managed_exists, fallback_exists) {
            Ok(p) => p,
            Err(e) => {
                return Err(e);
            },
        };
        let mut args: Vec<String> = Vec::new();
        args.push("-v".to_owned());
        proof {
            assert(args.deep_view() =~= seq!["-v"@]);
        }
        Ok(ToolCommand { exe, cwd: None, args })
    }

    /// How a finished lint run is read: a non-empty standard output is the
    /// result to parse; an empty one means the tool delivered its message
    /// on standard error instead. Success is never judged by exit code.
    pub fn parse_output(&self, stdout: &str, stderr: &str) -> (r: Result<String, Error>)
        ensures
            stdout@.len() > 0 ==> (match r {
                Ok(s) => s@ == stdout@,
                Err(_) => false,
            }),
            stdout@.len() == 0 ==> (match r {
                Err(Error::Msg(m)) => m@ == stderr@,
                _ => false,
            }),
    {
        if stdout.unicode_len() > 0 {
            Ok(stdout.to_owned())
        } else {
            Err(Error::Msg(stderr.to_owned()))
        }
    }

    /// Whether the published version requires an install: yes whenever no
    /// local version could be probed, or the two parse to different
    /// versions; parse failures surface as semantic-version errors, the
    /// locally probed text being parsed first.
    pub fn newer_version(&self, latest: &str, current: &Option<String>) -> (r: Result<
        Option<String>,
        Error,
    >)
        ensures
            ({
                match current {
                    None => match r {
                        Ok(Some(l)) => l@ == latest@,
                        _ => false,
                    },
                    Some(c) => {
                        if sem_version(c@) is None || sem_version(latest@) is None {
                            semver_err(r)
                        } else if sem_version(latest@) == sem_version(c@) {
                            match r {
                                Ok(o) => o is None,
                                Err(_) => false,
                            }
                        } else {
                            match r {
                                Ok(Some(l)) => l@ == latest@,
                                _ => false,
                            }
                        }
                    },
                }
            }),
    {
        match current {
            None => Ok(Some(latest.to_owned())),
            Some(c) => {
                let v1 = match parse_semver(c.as_str()) {
                    Ok(v) => v,
                    Err(m) => {
                        return Err(Error::SemVer(m));
                    },
                };
                let v2 = match parse_semver(latest) {
                    Ok(v) => v,
                    Err(m) => {
                        return Err(Error::SemVer(m));
                    },
                };
                if !versions_equal(&v2, &v1) {
                    Ok(Some(latest.to_owned()))
                } else {
                    Ok(None)
                }
            },
        }
    }

    /// Decides an install-or-update run: anything but an exact version
    /// match plans a download of the platform archive; a match plans
    /// nothing and reports the tool up to date. In particular a second
    /// run straight after an install — the probed version now the
    /// published one — downloads nothing.
    pub fn install_or_update(&self, latest: &str, current: &Option<String>) -> (r: Result<
        InstallPlan,
        Error,
    >)
        ensures
            ({
                match current {
                    None => spec_install_planned(&r, latest@, self.arch@),
                    Some(c) => {
                        if sem_version(c@) is None || sem_version(latest@) is None {
                            semver_err(r)
                        } else if sem_version(latest@) == sem_version(c@) {
                            match r {
                                Ok(InstallPlan::UpToDate { status }) => status@
                                    == "Vale is up to date."@,
                                _ => false,
                            }
                        } else {
                            spec_install_planned(&r, latest@, self.arch@)
                        }
                    },
                }
            }),
    {
        let newer = match self.newer_version(latest, current) {
            Ok(n) => n,
            Err(e) => {
                return Err(e);
            },
        };
        match newer {
            Some(v) => {
                let url = asset_url(v.as_str(), self.arch.as_str());
                let zip = str_starts_with(self.arch.as_str(), "Windows");
                let mut status: String = "Vale v".to_owned();
                status.append(v.as_str());
                status.append(" installed.");
                Ok(InstallPlan::Install { version: v, url, zip, status })
            },
            None => Ok(InstallPlan::UpToDate { status: "Vale is up to date.".to_owned() }),
        }
    }
}

/// The version a release index entry names: its tag with the leading `v`
/// stripped.
pub fn tag_to_version(tag: &str) -> (r: Option<String>)
    ensures
        match r {
            Some(v) => has_prefix(tag@, "v"@) && v@ == tag@.subrange(1, tag@.len() as int),
            None => !has_prefix(tag@, "v"@),
        },
{
    let r = strip_prefix_of(tag, "v");
    proof {
        reveal_strlit("v");
    }
    r
}

/// The version the tool's banner names: the banner trimmed, with the
/// fixed literal prefix stripped; nothing when the prefix is missing.
pub fn banner_version(banner: &str) -> (r: Option<String>)
    ensures
        ({
            let t = spec_trim(banner@);
            match r {
                Some(v) => has_prefix(t, "vale version "@) && v@ == t.subrange(
                    "vale version "@.len() as int,
                    t.len() as int,
                ),
                None => !has_prefix(t, "vale version "@),
            }
        }),
{
    let trimmed = str_trim(banner);
    strip_prefix_of(trimmed.as_str(), "vale version ")
}

} // verus!
