use wallpaper_setup::asset::{is_forbidden, is_plain_name, Asset, Manifest, ManifestError, Roles};
use wallpaper_setup::command::{
    desktop_call, installer_invocation, lock_screen_invocation, BROADCAST_CHANGE,
    SET_DESKTOP_WALLPAPER, UPDATE_PROFILE,
};
use wallpaper_setup::notice::{render_diagnostic, render_digits, render_number, Notice};
use wallpaper_setup::outcome::{
    classify, judge_desktop_call, judge_io, judge_launch, Diagnostic, Launch, Outcome, Status,
};
use wallpaper_setup::script::{is_folder_leader, Step};
use wallpaper_setup::wide::{encode_wide, push_units};

fn asset(name: &str, folder: Option<&str>, file: &str, payload: &[u8]) -> Asset {
    Asset {
        name: name.to_string(),
        folder: folder.map(|f| f.to_string()),
        file: file.to_string(),
        payload: payload.to_vec(),
    }
}

fn roles(installer: usize, wallpaper: usize, lock_image: usize, helper: usize) -> Roles {
    Roles { installer, wallpaper, lock_image, helper }
}

fn sample() -> Vec<Asset> {
    vec![
        asset("runtime", None, "runtime.exe", &[1, 2, 3]),
        asset("wallpaper", None, "wallpaper.jpg", &[4, 5]),
        asset("lockscreen", None, "lockscreen.jpg", &[6]),
        asset("helper", Some("ImageGlass"), "igcmd.exe", &[7, 8]),
        asset("helper-lib", Some("ImageGlass"), "igcmd.dll", &[9]),
    ]
}

#[test]
fn wide_string_of_ascii_ends_in_nul() {
    assert_eq!(encode_wide("C:\\a.jpg"), vec![0x43, 0x3A, 0x5C, 0x61, 0x2E, 0x6A, 0x70, 0x67, 0]);
}

#[test]
fn wide_string_of_empty_text_is_one_nul() {
    assert_eq!(encode_wide(""), vec![0u16]);
}

#[test]
fn wide_string_matches_the_standard_encoder() {
    let text = "D:\\图片\\wall paper-é.jpg";
    let mut expected: Vec<u16> = text.encode_utf16().collect();
    expected.push(0);
    assert_eq!(encode_wide(text), expected);
}

#[test]
fn wide_string_uses_surrogate_pairs_above_the_basic_plane() {
    assert_eq!(encode_wide("\u{1F600}"), vec![0xD83D, 0xDE00, 0]);
    assert_eq!(encode_wide("\u{10000}"), vec![0xD800, 0xDC00, 0]);
    assert_eq!(encode_wide("\u{10FFFF}"), vec![0xDBFF, 0xDFFF, 0]);
    assert_eq!(encode_wide("\u{FFFF}"), vec![0xFFFF, 0]);
}

#[test]
fn push_units_appends_to_what_is_there() {
    let mut out: Vec<u16> = vec![7];
    push_units(&mut out, 'A');
    push_units(&mut out, '\u{1F600}');
    assert_eq!(out, vec![7, 0x41, 0xD83D, 0xDE00]);
}

#[test]
fn plain_names_are_accepted() {
    assert!(is_plain_name("wallpaper.jpg"));
    assert!(is_plain_name("ImageGlass"));
    assert!(is_plain_name("Microsoft.Extensions.Primitives.dll"));
    assert!(is_plain_name("..."));
    assert!(is_plain_name(".a"));
    assert!(is_plain_name("图片"));
}

#[test]
fn names_that_are_not_plain_are_rejected() {
    assert!(!is_plain_name(""));
    assert!(!is_plain_name("."));
    assert!(!is_plain_name(".."));
    assert!(!is_plain_name("a/b"));
    assert!(!is_plain_name("a\\b"));
    assert!(!is_plain_name("C:"));
    assert!(!is_plain_name("a\0"));
    assert!(!is_plain_name("/"));
}

#[test]
fn forbidden_characters_are_the_four() {
    assert!(is_forbidden('/'));
    assert!(is_forbidden('\\'));
    assert!(is_forbidden(':'));
    assert!(is_forbidden('\0'));
    assert!(!is_forbidden('.'));
    assert!(!is_forbidden('a'));
    assert!(!is_forbidden(' '));
}

#[test]
fn valid_table_becomes_a_manifest() {
    let manifest = Manifest::new(sample(), roles(0, 1, 2, 3)).unwrap();
    assert_eq!(manifest.len(), 5);
    assert_eq!(manifest.roles(), roles(0, 1, 2, 3));
    assert_eq!(manifest.asset(3).file, "igcmd.exe");
    assert_eq!(manifest.asset(3).folder.as_deref(), Some("ImageGlass"));
    assert_eq!(manifest.asset(1).payload, vec![4, 5]);
    assert_eq!(manifest.assets().len(), 5);
    assert_eq!(manifest.assets()[0].name, "runtime");
}

#[test]
fn role_past_the_table_is_an_unknown_asset() {
    assert_eq!(Manifest::new(sample(), roles(5, 1, 2, 3)).err(), Some(ManifestError::UnknownAsset));
    assert_eq!(Manifest::new(sample(), roles(0, 9, 2, 3)).err(), Some(ManifestError::UnknownAsset));
    assert_eq!(Manifest::new(sample(), roles(0, 1, 5, 3)).err(), Some(ManifestError::UnknownAsset));
    assert_eq!(Manifest::new(sample(), roles(0, 1, 2, 5)).err(), Some(ManifestError::UnknownAsset));
    assert_eq!(Manifest::new(Vec::new(), roles(0, 0, 0, 0)).err(), Some(ManifestError::UnknownAsset));
}

#[test]
fn bad_file_or_folder_name_is_rejected() {
    let mut assets = sample();
    assets[1].file = "..".to_string();
    assert_eq!(Manifest::new(assets, roles(0, 1, 2, 3)).err(), Some(ManifestError::BadName));
    let mut assets = sample();
    assets[4].folder = Some("Image/Glass".to_string());
    assert_eq!(Manifest::new(assets, roles(0, 1, 2, 3)).err(), Some(ManifestError::BadName));
}

#[test]
fn two_assets_at_one_destination_are_rejected() {
    let mut assets = sample();
    assets[4].file = "igcmd.exe".to_string();
    assert_eq!(
        Manifest::new(assets, roles(0, 1, 2, 3)).err(),
        Some(ManifestError::DuplicateDestination)
    );
    let mut assets = sample();
    assets[2].file = "runtime.exe".to_string();
    assert_eq!(
        Manifest::new(assets, roles(0, 1, 2, 3)).err(),
        Some(ManifestError::DuplicateDestination)
    );
}

#[test]
fn same_file_name_in_root_and_folder_is_no_duplicate() {
    let mut assets = sample();
    assets[4].file = "wallpaper.jpg".to_string();
    assert!(Manifest::new(assets, roles(0, 1, 2, 3)).is_ok());
}

#[test]
fn root_file_named_like_a_folder_is_a_clash() {
    let mut assets = sample();
    assets[1].file = "ImageGlass".to_string();
    assert_eq!(Manifest::new(assets, roles(0, 1, 2, 3)).err(), Some(ManifestError::FolderClash));
}

#[test]
fn faults_are_reported_in_order() {
    let mut assets = sample();
    assets[1].file = "ImageGlass".to_string();
    assets[2].file = "a:b".to_string();
    assert_eq!(
        Manifest::new(copies(&assets), roles(0, 1, 2, 7)).err(),
        Some(ManifestError::UnknownAsset)
    );
    assert_eq!(Manifest::new(assets, roles(0, 1, 2, 3)).err(), Some(ManifestError::BadName));
}

fn copies(assets: &[Asset]) -> Vec<Asset> {
    assets
        .iter()
        .map(|a| Asset {
            name: a.name.clone(),
            folder: a.folder.clone(),
            file: a.file.clone(),
            payload: a.payload.clone(),
        })
        .collect()
}

#[test]
fn asset_comparisons() {
    let assets = sample();
    assert!(assets[3].has_plain_names());
    assert!(assets[3].lies_in(&"ImageGlass".to_string()));
    assert!(!assets[3].lies_in(&"Other".to_string()));
    assert!(!assets[0].lies_in(&"ImageGlass".to_string()));
    assert!(assets[3].same_place(&assets[3]));
    assert!(!assets[3].same_place(&assets[4]));
    assert!(!assets[0].same_place(&assets[1]));
    let twin = asset("twin", Some("ImageGlass"), "igcmd.exe", &[]);
    assert!(assets[3].same_place(&twin));
    let rooted = asset("rooted", None, "igcmd.exe", &[]);
    assert!(!assets[3].same_place(&rooted));
    assert!(!rooted.same_place(&assets[3]));
}

#[test]
fn folder_leader_is_the_first_asset_of_its_folder() {
    let assets = sample();
    assert!(!is_folder_leader(&assets, 0));
    assert!(is_folder_leader(&assets, 3));
    assert!(!is_folder_leader(&assets, 4));
}

#[test]
fn script_of_the_sample_manifest() {
    let manifest = Manifest::new(sample(), roles(0, 1, 2, 3)).unwrap();
    assert_eq!(
        manifest.script(),
        vec![
            Step::CreateFolder { of: 3 },
            Step::WriteAsset { asset: 0 },
            Step::WriteAsset { asset: 1 },
            Step::WriteAsset { asset: 2 },
            Step::WriteAsset { asset: 3 },
            Step::WriteAsset { asset: 4 },
            Step::InstallRuntime { installer: 0 },
            Step::SetDesktop { image: 1 },
            Step::SetLockScreen { helper: 3, image: 2 },
            Step::RemoveFolder { of: 3 },
            Step::RemoveFile { asset: 0 },
            Step::RemoveFile { asset: 1 },
            Step::RemoveFile { asset: 2 },
        ]
    );
}

#[test]
fn script_with_two_folders_and_no_root_file() {
    let assets = vec![
        asset("a", Some("one"), "a", &[]),
        asset("b", Some("two"), "b", &[]),
        asset("c", Some("one"), "c", &[]),
    ];
    let manifest = Manifest::new(assets, roles(0, 1, 2, 0)).unwrap();
    assert_eq!(
        manifest.script(),
        vec![
            Step::CreateFolder { of: 0 },
            Step::CreateFolder { of: 1 },
            Step::WriteAsset { asset: 0 },
            Step::WriteAsset { asset: 1 },
            Step::WriteAsset { asset: 2 },
            Step::InstallRuntime { installer: 0 },
            Step::SetDesktop { image: 1 },
            Step::SetLockScreen { helper: 0, image: 2 },
            Step::RemoveFolder { of: 0 },
            Step::RemoveFolder { of: 1 },
        ]
    );
}

#[test]
fn step_kinds() {
    assert!(Step::CreateFolder { of: 0 }.is_deployment());
    assert!(Step::WriteAsset { asset: 0 }.is_deployment());
    assert!(!Step::InstallRuntime { installer: 0 }.is_deployment());
    assert!(!Step::RemoveFile { asset: 0 }.is_deployment());
    assert!(Step::RemoveFolder { of: 0 }.is_cleanup());
    assert!(Step::RemoveFile { asset: 0 }.is_cleanup());
    assert!(!Step::SetDesktop { image: 0 }.is_cleanup());
    assert!(!Step::SetLockScreen { helper: 0, image: 1 }.is_cleanup());
    assert!(!Step::WriteAsset { asset: 0 }.is_cleanup());
}

#[test]
fn installer_runs_unattended_without_restart() {
    let invocation = installer_invocation("C:\\work\\runtime.exe");
    assert_eq!(invocation.program, "C:\\work\\runtime.exe");
    assert_eq!(invocation.arguments, vec!["/install", "/quiet", "/norestart"]);
    assert!(!invocation.quiet);
}

#[test]
fn helper_gets_subcommand_and_image_and_is_silenced() {
    let invocation =
        lock_screen_invocation("C:\\work\\ImageGlass\\igcmd.exe", "C:\\work\\lockscreen.jpg");
    assert_eq!(invocation.program, "C:\\work\\ImageGlass\\igcmd.exe");
    assert_eq!(invocation.arguments, vec!["set-lock-screen", "C:\\work\\lockscreen.jpg"]);
    assert!(invocation.quiet);
}

#[test]
fn desktop_call_asks_for_persistence_and_broadcast() {
    let call = desktop_call("C:\\w.jpg");
    assert_eq!(call.action, 0x0014);
    assert_eq!(call.action, SET_DESKTOP_WALLPAPER);
    assert_eq!(call.parameter, 0);
    assert_eq!(call.flags, 0x0003);
    assert_eq!(call.flags & UPDATE_PROFILE, UPDATE_PROFILE);
    assert_eq!(call.flags & BROADCAST_CHANGE, BROADCAST_CHANGE);
    assert_eq!(call.path, vec![0x43, 0x3A, 0x5C, 0x77, 0x2E, 0x6A, 0x70, 0x67, 0]);
}

#[test]
fn desktop_call_is_judged_by_its_return_value() {
    assert_eq!(judge_desktop_call(1, 0), Outcome::Succeeded);
    assert_eq!(judge_desktop_call(-1, 5), Outcome::Succeeded);
    assert_eq!(judge_desktop_call(0, 5), Outcome::Failed(Diagnostic::OsError(5)));
    assert_eq!(judge_desktop_call(0, 0), Outcome::Failed(Diagnostic::OsError(0)));
    assert_eq!(
        judge_desktop_call(0, 4294967295),
        Outcome::Failed(Diagnostic::OsError(4294967295))
    );
}

#[test]
fn launch_is_judged_by_exit_status() {
    assert_eq!(judge_launch(Launch::Exited { success: true, code: Some(0) }), Outcome::Succeeded);
    assert_eq!(
        judge_launch(Launch::Exited { success: false, code: Some(1) }),
        Outcome::Failed(Diagnostic::ExitCode(1))
    );
    assert_eq!(
        judge_launch(Launch::Exited { success: false, code: Some(-1073741510) }),
        Outcome::Failed(Diagnostic::ExitCode(-1073741510))
    );
    assert_eq!(
        judge_launch(Launch::Exited { success: false, code: None }),
        Outcome::Failed(Diagnostic::NoExitCode)
    );
    assert_eq!(
        judge_launch(Launch::NotStarted { error: Some(2) }),
        Outcome::Failed(Diagnostic::Io(2))
    );
    assert_eq!(
        judge_launch(Launch::NotStarted { error: None }),
        Outcome::Failed(Diagnostic::IoUnnumbered)
    );
}

#[test]
fn file_operation_is_judged_by_its_error() {
    assert_eq!(judge_io(Ok(())), Outcome::Succeeded);
    assert_eq!(judge_io(Err(Some(13))), Outcome::Failed(Diagnostic::Io(13)));
    assert_eq!(judge_io(Err(None)), Outcome::Failed(Diagnostic::IoUnnumbered));
}

#[test]
fn each_kind_of_step_has_its_kind_of_failure() {
    let d = Diagnostic::Io(5);
    let failed = Outcome::Failed(d);
    assert_eq!(classify(Step::CreateFolder { of: 0 }, failed), Status::WriteFailed(d));
    assert_eq!(classify(Step::WriteAsset { asset: 0 }, failed), Status::WriteFailed(d));
    assert_eq!(classify(Step::InstallRuntime { installer: 0 }, failed), Status::InstallFailed(d));
    assert_eq!(classify(Step::SetDesktop { image: 0 }, failed), Status::WallpaperFailed(d));
    assert_eq!(
        classify(Step::SetLockScreen { helper: 0, image: 1 }, failed),
        Status::LockScreenFailed(d)
    );
    assert_eq!(classify(Step::RemoveFolder { of: 0 }, failed), Status::CleanupFailed(d));
    assert_eq!(classify(Step::RemoveFile { asset: 0 }, failed), Status::CleanupFailed(d));
    assert_eq!(classify(Step::WriteAsset { asset: 0 }, Outcome::Succeeded), Status::Done);
    assert_eq!(classify(Step::RemoveFile { asset: 0 }, Outcome::Succeeded), Status::Done);
}

#[test]
fn only_write_and_cleanup_failures_are_fatal() {
    let d = Diagnostic::ExitCode(1);
    assert!(Status::WriteFailed(d).is_fatal());
    assert!(Status::CleanupFailed(d).is_fatal());
    assert!(!Status::InstallFailed(d).is_fatal());
    assert!(!Status::WallpaperFailed(d).is_fatal());
    assert!(!Status::LockScreenFailed(d).is_fatal());
    assert!(!Status::Done.is_fatal());
    assert!(!Status::Done.is_failure());
    assert!(Status::InstallFailed(d).is_failure());
    assert!(Status::WriteFailed(d).is_failure());
    assert_eq!(Status::Done.diagnostic(), None);
    assert_eq!(Status::WallpaperFailed(d).diagnostic(), Some(d));
    assert_eq!(Status::CleanupFailed(Diagnostic::Io(3)).diagnostic(), Some(Diagnostic::Io(3)));
}

#[test]
fn numbers_are_rendered_in_decimal() {
    assert_eq!(render_digits(0), "0");
    assert_eq!(render_digits(7), "7");
    assert_eq!(render_digits(10), "10");
    assert_eq!(render_digits(1234567890), "1234567890");
    assert_eq!(render_digits(u64::MAX), "18446744073709551615");
    assert_eq!(render_number(0), "0");
    assert_eq!(render_number(-1), "-1");
    assert_eq!(render_number(4294967295), "4294967295");
    assert_eq!(render_number(-2147483648), "-2147483648");
    assert_eq!(render_number(i64::MAX), "9223372036854775807");
    assert_eq!(render_number(i64::MIN + 1), "-9223372036854775807");
    assert_eq!(render_number(i64::MIN), "-9223372036854775808");
}

#[test]
fn diagnostics_are_rendered_by_their_number() {
    assert_eq!(render_diagnostic(Diagnostic::OsError(1460)), "1460");
    assert_eq!(render_diagnostic(Diagnostic::OsError(u32::MAX)), "4294967295");
    assert_eq!(render_diagnostic(Diagnostic::ExitCode(-5)), "-5");
    assert_eq!(render_diagnostic(Diagnostic::ExitCode(i32::MIN)), "-2147483648");
    assert_eq!(render_diagnostic(Diagnostic::Io(13)), "13");
    assert_eq!(render_diagnostic(Diagnostic::NoExitCode), "unknown");
    assert_eq!(render_diagnostic(Diagnostic::IoUnnumbered), "unknown");
}

#[test]
fn notices_read_as_lines() {
    assert_eq!(Notice::Deployed.text(), "Assets written to disk.");
    assert_eq!(Notice::Installing.text(), "Installing the desktop runtime...");
    assert_eq!(Notice::Installed.text(), "Desktop runtime installed.");
    assert_eq!(
        Notice::InstallFailed(Diagnostic::ExitCode(1603)).text(),
        "Failed to install the desktop runtime. Status: 1603"
    );
    assert_eq!(Notice::DesktopSet.text(), "Desktop wallpaper set successfully!");
    assert_eq!(
        Notice::DesktopFailed(Diagnostic::OsError(5)).text(),
        "Failed to set desktop wallpaper. Error code: 5"
    );
    assert_eq!(Notice::LockScreenSet.text(), "Lock screen wallpaper set successfully!");
    assert_eq!(
        Notice::LockScreenFailed(Diagnostic::ExitCode(1)).text(),
        "Failed to set lock screen wallpaper."
    );
    assert_eq!(
        Notice::WriteFailed(Diagnostic::Io(112)).text(),
        "Failed to write an asset. Error: 112"
    );
    assert_eq!(
        Notice::RemovalFailed(Diagnostic::IoUnnumbered).text(),
        "Failed to remove a deployed file or folder. Error: unknown"
    );
}
