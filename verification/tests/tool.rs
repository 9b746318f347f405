//! Tests of the external-tool manager: resolution, update planning,
//! command construction and output interpretation.

use vale_ls::error::Error;
use vale_ls::vale::{banner_version, tag_to_version, vale_arch, InstallPlan, ValeManager};

fn manager() -> ValeManager {
    ValeManager::new("/srv/ls", "/usr/bin/vale", "linux", "x86_64")
}

#[test]
fn arch() {
    assert_eq!(vale_arch("windows", "x86_64"), "Windows_64-bit");
    assert_eq!(vale_arch("macos", "x86_64"), "macOS_64-bit");
    assert_eq!(vale_arch("macos", "aarch64"), "macOS_arm64");
    assert_eq!(vale_arch("linux", "x86_64"), "Linux_64-bit");
    assert_eq!(vale_arch("linux", "arm"), "Linux_arm64");
    assert_eq!(vale_arch("freebsd", "riscv64"), "Linux_386");
}

#[test]
fn manager_layout() {
    let m = manager();
    assert_eq!(m.managed_bin, "/srv/ls/vale_bin");
    assert_eq!(m.managed_exe, "/srv/ls/vale_bin/vale");
    assert_eq!(m.arch, "Linux_64-bit");
    assert_eq!(m.args, vec!["--output=JSON".to_string()]);

    let w = ValeManager::new("C:/ls", "", "windows", "x86_64");
    assert_eq!(w.managed_exe, "C:/ls/vale_bin/vale.exe");
}

#[test]
fn resolution_precedence() {
    let m = manager();
    // only the fallback is discoverable: lint runs it
    let cmd = m.lint_command("/docs/a.md", "", false, true).unwrap();
    assert_eq!(cmd.exe, "/usr/bin/vale");
    // both exist: the managed copy wins
    let cmd = m.lint_command("/docs/a.md", "", true, true).unwrap();
    assert_eq!(cmd.exe, "/srv/ls/vale_bin/vale");
    // neither: the distinguished error
    let err = m.lint_command("/docs/a.md", "", false, false).unwrap_err();
    match err {
        Error::Msg(msg) => assert_eq!(msg, "Vale is not installed."),
        other => panic!("unexpected error family: {:?}", other),
    }
    assert!(m.is_installed(false, true));
    assert!(!m.is_installed(false, false));
}

#[test]
fn lint_command_arguments() {
    let m = manager();
    let cmd = m.lint_command("/docs/guide/a.md", "", true, false).unwrap();
    assert_eq!(cmd.cwd.as_deref(), Some("/docs/guide"));
    assert_eq!(cmd.args, vec!["--output=JSON".to_string(), "/docs/guide/a.md".to_string()]);

    let cmd = m
        .lint_command("/docs/a.md", ".Name==\"Vale.Terms\"", true, false)
        .unwrap();
    assert_eq!(
        cmd.args,
        vec![
            "--output=JSON".to_string(),
            "--filter=.Name==\"Vale.Terms\"".to_string(),
            "/docs/a.md".to_string(),
        ]
    );
}

#[test]
fn subcommand_arguments() {
    let m = manager();
    let sync = m.sync_command("", "/ws", true, false).unwrap();
    assert_eq!(sync.args, vec!["sync".to_string()]);
    assert_eq!(sync.cwd.as_deref(), Some("/ws"));

    let cfg = m.config_command("/ws/.vale.ini", "/ws", true, false).unwrap();
    assert_eq!(
        cfg.args,
        vec!["--config=/ws/.vale.ini".to_string(), "ls-config".to_string()]
    );

    let compile = m
        .compile_command("", "/ws", "/styles/S/r.yml", true, false)
        .unwrap();
    assert_eq!(
        compile.args,
        vec!["compile".to_string(), "/styles/S/r.yml".to_string()]
    );

    let fix = m.fix_command("/tmp/alert.json", true, false).unwrap();
    assert_eq!(fix.args, vec!["fix".to_string(), "/tmp/alert.json".to_string()]);
    assert!(fix.cwd.is_none());

    let ver = m.version_command(true, true, false).unwrap();
    assert_eq!(ver.args, vec!["-v".to_string()]);
    // a managed-only probe must not fall back to the system copy
    assert!(m.version_command(true, false, true).is_err());
}

#[test]
fn output_channels() {
    let m = manager();
    let ok = m.parse_output("{\"a.md\": []}", "").unwrap();
    assert_eq!(ok, "{\"a.md\": []}");
    let err = m.parse_output("", "E100 something broke").unwrap_err();
    match err {
        Error::Msg(msg) => assert_eq!(msg, "E100 something broke"),
        other => panic!("unexpected error family: {:?}", other),
    }
}

#[test]
fn update_decisions() {
    let m = manager();
    // no local version probed: install the published one
    match m.install_or_update("3.7.1", &None).unwrap() {
        InstallPlan::Install { version, url, zip, status } => {
            assert_eq!(version, "3.7.1");
            assert_eq!(
                url,
                "https://github.com/errata-ai/vale/releases/download/v3.7.1/vale_3.7.1_Linux_64-bit.tar.gz"
            );
            assert!(!zip);
            assert_eq!(status, "Vale v3.7.1 installed.");
        }
        other => panic!("expected an install plan, got {:?}", other),
    }

    // published differs from local: install
    match m.install_or_update("3.7.1", &Some("3.6.0".to_string())).unwrap() {
        InstallPlan::Install { version, .. } => assert_eq!(version, "3.7.1"),
        other => panic!("expected an install plan, got {:?}", other),
    }

    // a second run with no intervening release: no download, up to date
    match m.install_or_update("3.7.1", &Some("3.7.1".to_string())).unwrap() {
        InstallPlan::UpToDate { status } => assert_eq!(status, "Vale is up to date."),
        other => panic!("expected up to date, got {:?}", other),
    }

    // a malformed local version surfaces as a semantic-version error
    match m.install_or_update("3.7.1", &Some("three".to_string())) {
        Err(Error::SemVer(_)) => {}
        other => panic!("expected a semantic-version error, got {:?}", other),
    }
}

#[test]
fn windows_archive_is_zip() {
    let w = ValeManager::new("C:/ls", "", "windows", "x86_64");
    match w.install_or_update("3.7.1", &None).unwrap() {
        InstallPlan::Install { url, zip, .. } => {
            assert!(zip);
            assert_eq!(
                url,
                "https://github.com/errata-ai/vale/releases/download/v3.7.1/vale_3.7.1_Windows_64-bit.zip"
            );
        }
        other => panic!("expected an install plan, got {:?}", other),
    }
}

#[test]
fn newer_version_comparisons() {
    let m = manager();
    assert_eq!(
        m.newer_version("3.0.0", &Some("2.9.9".to_string())).unwrap(),
        Some("3.0.0".to_string())
    );
    assert_eq!(m.newer_version("3.0.0", &Some("3.0.0".to_string())).unwrap(), None);
    // any mismatch triggers a reinstall, including a local version that is
    // newer than the published one
    assert_eq!(
        m.newer_version("2.0.0", &Some("3.0.0".to_string())).unwrap(),
        Some("2.0.0".to_string())
    );
    assert_eq!(m.newer_version("3.0.0", &None).unwrap(), Some("3.0.0".to_string()));
}

#[test]
fn version_texts() {
    assert_eq!(tag_to_version("v3.7.1"), Some("3.7.1".to_string()));
    assert_eq!(tag_to_version("3.7.1"), None);
    assert_eq!(banner_version("vale version 2.28.0\n"), Some("2.28.0".to_string()));
    assert_eq!(banner_version("  vale version 2.0.0  "), Some("2.0.0".to_string()));
    assert_eq!(banner_version("something else"), None);
}
