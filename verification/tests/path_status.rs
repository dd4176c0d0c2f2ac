use tdx_core::paths::{
    settings_candidates, choose_settings_path, chosen_tdx_dir, ensure_outcome, set_path_outcome,
};

#[test]
fn candidates_come_in_priority_order() {
    let c = settings_candidates("/work");
    assert_eq!(c.len(), 3);
    assert_eq!(c[0], "/work/tdx_settings.ini");
    assert_eq!(c[1], "/work/resources/tdx_settings.ini");
    assert_eq!(c[2], "/work/../tdx_settings.ini");
}

#[test]
fn choose_takes_first_existing_candidate() {
    let c = settings_candidates("/work");
    let exists = vec![false, true, true];
    let parent = Some(String::from("/parent"));
    let chosen = choose_settings_path(&c, &exists, "/work", &parent);
    assert_eq!(chosen, "/work/resources/tdx_settings.ini");
}

#[test]
fn choose_falls_back_to_parent() {
    let c = settings_candidates("/work");
    let exists = vec![false, false, false];
    let parent = Some(String::from("/parent"));
    let chosen = choose_settings_path(&c, &exists, "/work", &parent);
    assert_eq!(chosen, "/parent/tdx_settings.ini");
}

#[test]
fn choose_falls_back_to_cwd_without_parent() {
    let c = settings_candidates("/");
    let exists = vec![false, false, false];
    let chosen = choose_settings_path(&c, &exists, "/", &None);
    assert_eq!(chosen, "//tdx_settings.ini");
}

#[test]
fn chosen_dir_prefers_saved_value() {
    assert_eq!(chosen_tdx_dir(&Some(String::from("D:/tdx"))), "D:/tdx");
    assert_eq!(chosen_tdx_dir(&None), "C:\\new_tdx");
}

#[test]
fn ensure_valid_default_is_persisted() {
    let (status, write) = ensure_outcome(String::from("C:\\new_tdx"), false, true);
    assert!(status.is_valid);
    assert_eq!(status.error_msg, "");
    assert_eq!(status.path, "C:\\new_tdx");
    assert!(write);
}

#[test]
fn ensure_valid_saved_value_is_not_rewritten() {
    let (status, write) = ensure_outcome(String::from("D:/tdx"), true, true);
    assert!(status.is_valid);
    assert!(!write);
}

#[test]
fn ensure_invalid_path_reports_and_writes_nothing() {
    let (status, write) = ensure_outcome(String::from("C:\\new_tdx"), false, false);
    assert!(!status.is_valid);
    assert_eq!(status.path, "");
    assert_eq!(status.error_msg, "默认或已存路径无效, 请手动设置");
    assert!(!write);
}

#[test]
fn set_valid_candidate_is_persisted() {
    let (status, write) = set_path_outcome(String::from("D:/tdx"), true);
    assert!(status.is_valid);
    assert_eq!(status.error_msg, "");
    assert_eq!(status.path, "D:/tdx");
    assert!(write);
}

#[test]
fn set_invalid_candidate_reports_and_writes_nothing() {
    let (status, write) = set_path_outcome(String::from("Z:/missing"), false);
    assert!(!status.is_valid);
    assert_eq!(
        status.error_msg,
        "错误：您选择的路径不合法！请确保所选目录下存在 T0002\\signals 文件夹。"
    );
    assert_eq!(status.path, "Z:/missing");
    assert!(!write);
}
