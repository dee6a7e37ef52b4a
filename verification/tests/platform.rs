use duoswitch::cli::{menu_action, parse_cli, CliCommand, MenuAction};
use duoswitch::config::{Config, Mode};
use duoswitch::platform::{
    lock_helper_xml, registry_value, task_definition_bytes, theme_from_registry,
};
use duoswitch::scheduler::{lock_outcome_note, missing_lock_wallpaper_note, plan_apply, LockStep};

#[test]
fn registry_values_round_trip() {
    assert_eq!(registry_value(Mode::Light), 1);
    assert_eq!(registry_value(Mode::Dark), 0);
    assert_eq!(theme_from_registry(Some(registry_value(Mode::Dark))), Mode::Dark);
    assert_eq!(theme_from_registry(Some(registry_value(Mode::Light))), Mode::Light);
    assert_eq!(theme_from_registry(None), Mode::Light);
    assert_eq!(theme_from_registry(Some(7)), Mode::Light);
}

#[test]
fn task_xml_names_account_and_command() {
    let xml = lock_helper_xml("PC", "alice", r"C:\Apps\duoswitch.exe");
    assert!(xml.starts_with("<?xml version=\"1.0\" encoding=\"UTF-16\"?>"));
    assert!(xml.contains("<UserId>PC\\alice</UserId>"));
    assert!(xml.contains("<Command>C:\\Apps\\duoswitch.exe</Command>"));
    assert!(xml.contains("<Arguments>--apply-lockscreen-auto</Arguments>"));
    assert!(xml.contains("<RunLevel>HighestAvailable</RunLevel>"));
    assert!(xml.ends_with("</Task>"));
}

#[test]
fn task_bytes_are_utf16le_with_bom() {
    assert_eq!(task_definition_bytes(""), vec![0xFF, 0xFE]);
    assert_eq!(task_definition_bytes("A"), vec![0xFF, 0xFE, 0x41, 0x00]);
    let text = "x锁\u{1F600}";
    let mut expected = vec![0xFF, 0xFE];
    for unit in text.encode_utf16() {
        expected.extend_from_slice(&unit.to_le_bytes());
    }
    assert_eq!(task_definition_bytes(text), expected);
    let xml = lock_helper_xml("PC", "bob", "a.exe");
    let mut expected = vec![0xFF, 0xFE];
    for unit in xml.encode_utf16() {
        expected.extend_from_slice(&unit.to_le_bytes());
    }
    assert_eq!(task_definition_bytes(&xml), expected);
}

#[test]
fn apply_plan_follows_the_lock_screen_switch() {
    let mut cfg = Config::default();
    let plan = plan_apply(&cfg, Mode::Dark);
    assert_eq!(plan.mode, Mode::Dark);
    assert_eq!(plan.wallpaper, None);
    assert_eq!(plan.lock, LockStep::Skip);

    cfg.lock_screen = true;
    assert_eq!(plan_apply(&cfg, Mode::Dark).lock, LockStep::MissingWallpaper);
    cfg.dark_wallpaper = Some("d.png".to_string());
    let plan = plan_apply(&cfg, Mode::Dark);
    assert_eq!(plan.wallpaper.as_deref(), Some("d.png"));
    assert_eq!(plan.lock, LockStep::Write("d.png".to_string()));
    assert_eq!(plan_apply(&cfg, Mode::Light).lock, LockStep::MissingWallpaper);

    // once given back, the lock screen is not written for any mode
    cfg.lock_screen = false;
    assert_eq!(plan_apply(&cfg, Mode::Dark).lock, LockStep::Skip);
    assert_eq!(plan_apply(&cfg, Mode::Light).lock, LockStep::Skip);

    assert_eq!(missing_lock_wallpaper_note(), "该模式未配置壁纸，锁屏未更新");
    assert_eq!(lock_outcome_note(Ok(())), None);
    assert_eq!(
        lock_outcome_note(Err("拒绝访问".to_string())).as_deref(),
        Some("锁屏壁纸未更新：拒绝访问")
    );
}

fn args(list: &[&str]) -> Vec<String> {
    list.iter().map(|s| s.to_string()).collect()
}

#[test]
fn command_line_actions() {
    assert_eq!(parse_cli(&args(&[])), None);
    assert_eq!(parse_cli(&args(&["--dump-state"])), Some(CliCommand::DumpState));
    assert_eq!(parse_cli(&args(&["--set-mode", "DARK"])), Some(CliCommand::SetMode(Some(Mode::Dark))));
    assert_eq!(parse_cli(&args(&["--set-mode"])), Some(CliCommand::SetMode(None)));
    assert_eq!(parse_cli(&args(&["--set-mode", "grey"])), Some(CliCommand::SetMode(None)));
    assert_eq!(
        parse_cli(&args(&["--apply-lockscreen", "light"])),
        Some(CliCommand::ApplyLockScreen(Some(Mode::Light)))
    );
    assert_eq!(parse_cli(&args(&["--apply-lockscreen-auto"])), Some(CliCommand::ApplyLockScreenAuto));
    assert_eq!(parse_cli(&args(&["--install-lock-helper"])), Some(CliCommand::InstallLockHelper));
    assert_eq!(parse_cli(&args(&["--clear-lockscreen"])), Some(CliCommand::UninstallLockHelper));
    assert_eq!(parse_cli(&args(&["--uninstall-lock-helper"])), Some(CliCommand::UninstallLockHelper));
    assert_eq!(parse_cli(&args(&["-h"])), Some(CliCommand::Help));
    assert_eq!(parse_cli(&args(&["--help", "x"])), Some(CliCommand::Help));
    assert_eq!(parse_cli(&args(&["--webview-flag"])), None);
}

#[test]
fn tray_menu_entries() {
    assert_eq!(menu_action("show"), Some(MenuAction::Show));
    assert_eq!(menu_action("light"), Some(MenuAction::Apply(Mode::Light)));
    assert_eq!(menu_action("dark"), Some(MenuAction::Apply(Mode::Dark)));
    assert_eq!(menu_action("pause"), Some(MenuAction::TogglePause));
    assert_eq!(menu_action("quit"), Some(MenuAction::Quit));
    assert_eq!(menu_action("Quit"), None);
}

use duoswitch::platform::{
    elevation_result, helper_install_result, helper_trigger_result, open_uri_result, wide,
};
use duoswitch::files::check_file;
use duoswitch::resources::{builtin_wallpapers, find_resource, first_found_path};

#[test]
fn wide_text_ends_with_a_zero() {
    assert_eq!(wide(""), vec![0]);
    assert_eq!(wide("ms-settings:colors"), "ms-settings:colors".encode_utf16().chain([0]).collect::<Vec<u16>>());
    assert_eq!(wide("锁\u{1F600}"), vec![0x9501, 0xD83D, 0xDE00, 0]);
}

#[test]
fn helper_and_shell_outcomes() {
    assert_eq!(helper_install_result(true, Some(0)), Ok(()));
    assert_eq!(
        helper_install_result(false, Some(1)),
        Err("注册锁屏助手任务失败（schtasks 退出码 Some(1)）".to_string())
    );
    assert_eq!(
        helper_install_result(false, Some(-2147483648)),
        Err(format!("注册锁屏助手任务失败（schtasks 退出码 {:?}）", Some(-2147483648i32)))
    );
    assert_eq!(
        helper_install_result(false, None),
        Err("注册锁屏助手任务失败（schtasks 退出码 None）".to_string())
    );
    assert_eq!(helper_trigger_result(true), Ok(()));
    assert_eq!(helper_trigger_result(false), Err("触发锁屏助手失败，可能尚未注册".to_string()));
    assert_eq!(elevation_result(33), Ok(()));
    assert_eq!(
        elevation_result(5),
        Err("请求管理员权限失败（ShellExecuteW 返回 5），可能是被 UAC 取消".to_string())
    );
    assert_eq!(open_uri_result("ms-settings:colors", 42), Ok(()));
    assert_eq!(
        open_uri_result("ms-settings:colors", 32),
        Err("打开 ms-settings:colors 失败（返回 32）".to_string())
    );
}

#[test]
fn resources_are_found_in_candidate_order() {
    let checks = vec![check_file("/no/such/a"), check_file("/etc/passwd"), check_file("/etc/passwd")];
    assert_eq!(first_found_path(&checks), Some("/etc/passwd".to_string()));
    let checks = vec![check_file("/no/such/a"), check_file("/no/such/b")];
    assert_eq!(first_found_path(&checks), None);
    assert_eq!(first_found_path(&vec![]), None);

    let candidates = vec!["/definitely/not/here".to_string(), "/etc".to_string()];
    assert_eq!(find_resource(&candidates, "passwd"), Some("/etc/passwd".to_string()));
    assert_eq!(find_resource(&candidates, "no-such-file-here"), None);
    let found = builtin_wallpapers(&candidates);
    assert_eq!(found.light, None);
    assert_eq!(found.dark, None);
}

#[test]
fn file_checks_keep_their_path() {
    let found = check_file("/etc/passwd");
    assert!(found.file_exists());
    assert_eq!(found.path(), "/etc/passwd");
    let missing = check_file("/definitely/not/here.png");
    assert!(!missing.file_exists());
    assert_eq!(missing.path(), "/definitely/not/here.png");
    // a directory is not a file
    assert!(!check_file("/etc").file_exists());
}
