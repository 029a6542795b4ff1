use liscov_core::launcher::{
    detect_executable, executable_candidates, get_voicevox_default_paths, is_backend_running, is_process_listed,
    launch_step, launched_positions, missing_executable_message, was_launched_by_liscov, LaunchStep,
};
use liscov_core::tts::TtsBackendType;

#[test]
fn test_get_voicevox_default_paths() {
    let paths = get_voicevox_default_paths(None, None);
    assert!(!paths.is_empty());
}

#[test]
fn voicevox_paths_follow_environment() {
    let paths = get_voicevox_default_paths(Some("C:\\Users\\a\\AppData\\Local"), Some("C:\\Users\\a"));
    assert_eq!(paths.len(), 4);
    assert_eq!(paths[0], "C:\\Users\\a\\AppData\\Local\\Programs\\VOICEVOX\\VOICEVOX.exe");
    assert_eq!(paths[1], "C:\\Users\\a\\AppData\\Local\\Programs\\VOICEVOX\\VOICEVOX.exe");
    assert_eq!(paths[2], "C:\\Program Files\\VOICEVOX\\VOICEVOX.exe");
    assert_eq!(executable_candidates(TtsBackendType::Bouyomichan, None, None).len(), 3);
    assert!(executable_candidates(TtsBackendType::Disabled, None, None).is_empty());
}

#[test]
fn launcher_picks_first_existing() {
    let c = vec!["a".to_string(), "b".to_string(), "c".to_string()];
    assert_eq!(detect_executable(&c, &vec![false, true, true]), Some("b".to_string()));
    assert_eq!(detect_executable(&c, &vec![false, false, false]), None);
}

#[test]
fn launcher_steps() {
    assert_eq!(launch_step(TtsBackendType::Disabled, false, Some("x")), LaunchStep::Nothing);
    assert_eq!(launch_step(TtsBackendType::Voicevox, true, Some("x")), LaunchStep::Nothing);
    assert_eq!(launch_step(TtsBackendType::Voicevox, false, Some("x.exe")), LaunchStep::Launch("x.exe".to_string()));
    assert_eq!(launch_step(TtsBackendType::Voicevox, false, Some("")), LaunchStep::Detect);
    assert_eq!(launch_step(TtsBackendType::Bouyomichan, false, None), LaunchStep::Detect);
    assert_eq!(missing_executable_message(TtsBackendType::Voicevox), "Voicevox の実行ファイルが見つかりません");
}

#[test]
fn launcher_registry_queries() {
    let launched = vec![TtsBackendType::Voicevox, TtsBackendType::Bouyomichan, TtsBackendType::Voicevox];
    assert!(was_launched_by_liscov(&launched, TtsBackendType::Voicevox));
    assert!(!was_launched_by_liscov(&launched, TtsBackendType::Disabled));
    assert_eq!(launched_positions(&launched, TtsBackendType::Voicevox), vec![0, 2]);
    assert!(is_process_listed("VOICEVOX.exe  1234 Console", "VOICEVOX.exe"));
    assert!(!is_backend_running(TtsBackendType::Disabled, true));
    assert!(is_backend_running(TtsBackendType::Voicevox, true));
}

#[test]
fn launcher_auto_start_and_close() {
    use_targets();
}

fn use_targets() {
    assert_eq!(
        liscov_core::launcher::auto_launch_target(TtsBackendType::Voicevox, false, true),
        Some(TtsBackendType::Voicevox)
    );
    assert_eq!(liscov_core::launcher::auto_launch_target(TtsBackendType::Voicevox, true, false), None);
    assert_eq!(liscov_core::launcher::auto_launch_target(TtsBackendType::Disabled, true, true), None);
    let launched = vec![TtsBackendType::Voicevox];
    assert_eq!(liscov_core::launcher::backends_to_close(&launched, true, true), vec![TtsBackendType::Voicevox]);
    assert!(liscov_core::launcher::backends_to_close(&launched, true, false).is_empty());
}
