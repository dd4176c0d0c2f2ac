use tdx_core::auth::get_auth_info;
use tdx_core::announce::get_announcement;
use tdx_core::synclog::{extract_db_date_display, format_sync_log, sync_log_read_error};
use tdx_core::advert::get_advertisement_data_url;

#[test]
fn auth_free_code_maps_to_label() {
    let info = get_auth_info("[AUTH]\nauth_type=free\n");
    assert_eq!(info.user_type_display, "免费用户");
}

#[test]
fn auth_trial_code_maps_to_label() {
    let info = get_auth_info("[AUTH]\nauth_type = trial\n");
    assert_eq!(info.user_type_display, "试用用户");
}

#[test]
fn auth_unknown_code_passes_through() {
    let info = get_auth_info("[AUTH]\nauth_type=unknown_code\n");
    assert_eq!(info.user_type_display, "unknown_code");
}

#[test]
fn auth_missing_section_gives_sentinels() {
    let info = get_auth_info("machine_code = abc\nauth_type = free\n");
    assert_eq!(info.machine_code, "(未找到)");
    assert_eq!(info.user_type_display, "(未找到)");
    assert_eq!(info.auth_end, "(未找到)");
}

#[test]
fn auth_reads_all_three_keys() {
    let s = "[AUTH]\nMachine_Code = M-1\nauth_type=x\nAUTH_END = 2030-01-01\n";
    let info = get_auth_info(s);
    assert_eq!(info.machine_code, "M-1");
    assert_eq!(info.user_type_display, "x");
    assert_eq!(info.auth_end, "2030-01-01");
}

#[test]
fn auth_ignores_keys_outside_section_and_comments() {
    let s = "machine_code = outside\n[AUTH]\n; machine_code = commented\nmachine_code = in\n[Other]\nauth_end = late\n";
    let info = get_auth_info(s);
    assert_eq!(info.machine_code, "in");
    assert_eq!(info.auth_end, "(未找到)");
}

#[test]
fn announcement_reads_title_and_content() {
    let a = get_announcement("title = Hello\ncontent = World\n");
    assert_eq!(a.title, "Hello");
    assert_eq!(a.content, "World");
}

#[test]
fn announcement_missing_keys_give_sentinels() {
    let a = get_announcement("; nothing here\n");
    assert_eq!(a.title, "(无标题)");
    assert_eq!(a.content, "(无内容)");
}

#[test]
fn announcement_last_occurrence_wins() {
    let a = get_announcement("title = a\ntitle = b\n");
    assert_eq!(a.title, "b");
}

#[test]
fn sync_log_last_stamp_wins_and_drops_note() {
    let s = "上次同步时间 = 2024-01-01 (note)\nfoo\n上次检查时间 = 2024-02-02\n";
    assert_eq!(extract_db_date_display(s), "数据库日期: 2024-02-02\n");
}

#[test]
fn sync_log_note_is_stripped_from_last_stamp() {
    let s = "上次检查时间 = 2024-03-03 (手动)\n";
    assert_eq!(extract_db_date_display(s), "数据库日期: 2024-03-03\n");
}

#[test]
fn sync_log_without_stamp_adds_nothing() {
    let s = "just a log line\n";
    assert_eq!(extract_db_date_display(s), "");
    assert_eq!(format_sync_log(s), s);
}

#[test]
fn sync_log_prepends_summary_to_unmodified_content() {
    let s = "a\n上次同步时间 = 2024-01-01\nb\n";
    assert_eq!(format_sync_log(s), format!("数据库日期: 2024-01-01\n{}", s));
}

#[test]
fn sync_log_error_names_the_path() {
    assert_eq!(
        sync_log_read_error("/tmp/sync_log.ini"),
        "错误: 无法读取日志文件\n/tmp/sync_log.ini"
    );
}

#[test]
fn advertisement_url_encodes_bytes() {
    let bytes: Vec<u8> = vec![77, 97, 110];
    assert_eq!(get_advertisement_data_url(&bytes), "data:image/png;base64,TWFu");
}

#[test]
fn advertisement_url_empty_bytes() {
    let bytes: Vec<u8> = Vec::new();
    assert_eq!(get_advertisement_data_url(&bytes), "data:image/png;base64,");
}
