use tdx_core::settings::{read_tdx_dir, write_tdx_dir_content, fresh_settings_content};

#[test]
fn read_returns_trimmed_value() {
    let s = "[Paths]\nTDX_Directory =   C:/data  \n";
    assert_eq!(read_tdx_dir(s), Some(String::from("C:/data")));
}

#[test]
fn read_matches_section_and_key_case_insensitively() {
    let s = "[paths]\ntdx_directory=D:/tdx\n";
    assert_eq!(read_tdx_dir(s), Some(String::from("D:/tdx")));
}

#[test]
fn read_ignores_keys_outside_paths_section() {
    let s = "[Other]\nTDX_Directory = X\n";
    assert_eq!(read_tdx_dir(s), None);
}

#[test]
fn read_last_occurrence_wins() {
    let s = "[Paths]\nTDX_Directory = first\nTDX_Directory = second\n";
    assert_eq!(read_tdx_dir(s), Some(String::from("second")));
}

#[test]
fn read_missing_key_gives_none() {
    let s = "[Paths]\nother = 1\n";
    assert_eq!(read_tdx_dir(s), None);
}

#[test]
fn write_replaces_key_in_place() {
    let s = "[Paths]\nTDX_Directory = old\n";
    let w = write_tdx_dir_content(s, "new");
    assert_eq!(w, "[Paths]\nTDX_Directory = new\n");
}

#[test]
fn write_twice_is_idempotent() {
    let s = "; comment\n[Other]\nfoo = 1\n[Paths]\nTDX_Directory = old\nkeep = yes\n";
    let w1 = write_tdx_dir_content(s, "E:/tdx");
    let w2 = write_tdx_dir_content(&w1, "E:/tdx");
    assert_eq!(w1, w2);
    assert_eq!(read_tdx_dir(&w1), Some(String::from("E:/tdx")));
}

#[test]
fn write_preserves_unrelated_lines() {
    let s = "; comment\n[Other]\nfoo = 1\n[Paths]\nTDX_Directory = old\nkeep = yes\n[Tail]\nbar = 2\n";
    let w = write_tdx_dir_content(s, "E:/tdx");
    assert_eq!(
        w,
        "; comment\n[Other]\nfoo = 1\n[Paths]\nTDX_Directory = E:/tdx\nkeep = yes\n[Tail]\nbar = 2\n"
    );
}

#[test]
fn write_inserts_key_into_existing_section() {
    let s = "[Paths]\nother = 1\n[Tail]\nbar = 2\n";
    let w = write_tdx_dir_content(s, "E:/tdx");
    assert_eq!(w, "[Paths]\nother = 1\nTDX_Directory = E:/tdx\n[Tail]\nbar = 2\n");
}

#[test]
fn write_appends_missing_section() {
    let s = "[Other]\nx = 1\n";
    let w = write_tdx_dir_content(s, "E:/tdx");
    assert_eq!(w, "[Other]\nx = 1\n\n[Paths]\nTDX_Directory = E:/tdx\n");
}

#[test]
fn write_appends_key_when_paths_ends_the_file() {
    let s = "[Paths]\nother = 1\n";
    let w = write_tdx_dir_content(s, "E:/tdx");
    assert_eq!(w, "[Paths]\nother = 1\nTDX_Directory = E:/tdx\n");
}

#[test]
fn write_replaces_every_duplicate_in_scope() {
    let s = "[Paths]\nTDX_Directory = a\nTDX_Directory = b\n";
    let w = write_tdx_dir_content(s, "c");
    assert_eq!(w, "[Paths]\nTDX_Directory = c\nTDX_Directory = c\n");
}

#[test]
fn write_normalizes_crlf_line_endings() {
    let s = "[Paths]\r\nTDX_Directory = old\r\n";
    let w = write_tdx_dir_content(s, "new");
    assert_eq!(w, "[Paths]\nTDX_Directory = new\n");
}

#[test]
fn write_into_empty_text_appends_section() {
    let w = write_tdx_dir_content("", "E:/tdx");
    assert_eq!(w, "\n[Paths]\nTDX_Directory = E:/tdx\n");
}

#[test]
fn fresh_content_holds_only_section_and_key() {
    let w = fresh_settings_content("C:\\new_tdx");
    assert_eq!(w, "[Paths]\nTDX_Directory = C:\\new_tdx\n");
    assert_eq!(read_tdx_dir(&w), Some(String::from("C:\\new_tdx")));
}
