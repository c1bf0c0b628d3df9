use mailkeep::accounts::{
    account_enabled, account_to_summary_at, any_enabled, badge_for, can_save_edits, check_folders_enabled,
    folder_needs_update, folder_padding, folder_to_account_folder, icon_for, indeterminate_script, initial_edits,
    last_synced_text, remote_folder_to_dto, restart_needed, server_config_from_dto, set_edit, sort_account_folders,
    special_use_from_string, special_use_to_string, status_glyph, tls_from_string, toggle_label, AccountFolderDto,
    AccountInfo, FolderEnabledDto, FolderInfo, RemoteFolder, ServerConfigDto, SpecialUse, StatusGlyph, TlsMode,
};
use mailkeep::folder_tree::{FolderTree, RemoteFolderDto};
use mailkeep::format::UtcTime;

#[test]
fn tls_round_trips() {
    assert_eq!(tls_from_string("Tls"), TlsMode::Tls);
    assert_eq!(tls_from_string("StartTls"), TlsMode::StartTls);
    assert_eq!(tls_from_string("garbage"), TlsMode::Tls);
}

#[test]
fn special_use_round_trips_and_rejects_unknown() {
    assert_eq!(special_use_to_string(Some(SpecialUse::Inbox)), Some("inbox".into()));
    assert_eq!(special_use_to_string(None), None);
    assert_eq!(special_use_from_string(Some(&"sent".to_string())), Some(SpecialUse::Sent));
    assert_eq!(special_use_from_string(Some(&"nope".to_string())), None);
    assert_eq!(special_use_from_string(None), None);
}

#[test]
fn remote_folder_maps_to_dto() {
    let f = RemoteFolder {
        path: "[Gmail]/All Mail".into(),
        special_use: Some(SpecialUse::All),
        has_children: false,
        no_select: false,
        delimiter: Some("/".into()),
    };
    let dto = remote_folder_to_dto(f);
    assert_eq!(dto.path, "[Gmail]/All Mail");
    assert_eq!(dto.special_use, Some("all".into()));
    assert_eq!(dto.delimiter, Some("/".into()));
}

#[test]
fn every_special_use_round_trips() {
    for u in [
        SpecialUse::Inbox,
        SpecialUse::Sent,
        SpecialUse::Drafts,
        SpecialUse::Archive,
        SpecialUse::Trash,
        SpecialUse::Junk,
        SpecialUse::All,
    ] {
        let s = special_use_to_string(Some(u));
        assert_eq!(special_use_from_string(s.as_ref()), Some(u));
    }
}

#[test]
fn server_config_maps_encryption() {
    let d = ServerConfigDto { host: "imap.example.com".into(), port: 143, tls: "StartTls".into() };
    let c = server_config_from_dto(&d);
    assert_eq!(c.host, "imap.example.com");
    assert_eq!(c.port, 143);
    assert_eq!(c.tls, TlsMode::StartTls);
}

fn info(status: &str, last_error: Option<&str>) -> AccountInfo {
    AccountInfo {
        token: "A_1".into(),
        display_name: "Personal".into(),
        email_address: "me@example.com".into(),
        status: status.into(),
        last_error: last_error.map(str::to_string),
    }
}

#[test]
fn summary_shows_error_only_in_error_state() {
    let now = UtcTime { secs: 10_000, nanos: 0 };
    let s = account_to_summary_at(&info("Error", Some("auth failed")), Some(UtcTime { secs: 10_000 - 120, nanos: 0 }), now);
    assert_eq!(s.last_error.as_deref(), Some("auth failed"));
    assert_eq!(s.last_synced.as_deref(), Some("2m ago"));
    assert_eq!(s.email, "me@example.com");
    let s = account_to_summary_at(&info("Idle", Some("stale")), None, now);
    assert_eq!(s.last_error, None);
    assert_eq!(s.last_synced, None);
}

#[test]
fn account_row_switch_and_glyph() {
    assert!(account_enabled("Idle"));
    assert!(!account_enabled("Disabled"));
    assert_eq!(toggle_label(true), "Disable");
    assert_eq!(toggle_label(false), "Enable");
    assert_eq!(status_glyph("Syncing"), StatusGlyph::Spinner);
    assert_eq!(status_glyph("PendingFirstSync"), StatusGlyph::Clock);
    assert_eq!(status_glyph("Error"), StatusGlyph::Warning);
    assert_eq!(last_synced_text(&Some("2m ago".into())), "updated 2m ago");
    assert_eq!(last_synced_text(&None), "never synced");
}

fn folder(path: &str, su: Option<&str>) -> AccountFolderDto {
    AccountFolderDto { token: format!("F_{path}"), path: path.into(), special_use: su.map(str::to_string), enabled: true }
}

#[test]
fn folders_sort_by_role_then_path() {
    let v = vec![
        folder("Work", None),
        folder("Sent", Some("sent")),
        folder("Archive", None),
        folder("INBOX", Some("inbox")),
        folder("Bin", Some("trash")),
    ];
    let sorted = sort_account_folders(v);
    let paths: Vec<&str> = sorted.iter().map(|f| f.path.as_str()).collect();
    assert_eq!(paths, vec!["INBOX", "Sent", "Bin", "Archive", "Work"]);
}

#[test]
fn folder_mapping_keeps_role_name() {
    let f = FolderInfo { token: "F_9".into(), path: "Spam".into(), special_use: Some(SpecialUse::Junk), enabled: false };
    let d = folder_to_account_folder(&f);
    assert_eq!(d.special_use.as_deref(), Some("junk"));
    assert!(!d.enabled);
}

#[test]
fn folder_enabling_rules() {
    let off = vec![FolderEnabledDto { token: "a".into(), enabled: false }];
    assert!(!any_enabled(&off));
    assert_eq!(check_folders_enabled(&off), Err("At least one folder must be enabled."));
    let on = vec![FolderEnabledDto { token: "a".into(), enabled: false }, FolderEnabledDto { token: "b".into(), enabled: true }];
    assert_eq!(check_folders_enabled(&on), Ok(()));
    let current = vec![(1u64, true), (2u64, false)];
    assert!(!folder_needs_update(&current, 1, true));
    assert!(folder_needs_update(&current, 2, true));
    assert!(!folder_needs_update(&current, 3, true));
    assert!(restart_needed(true, true));
    assert!(!restart_needed(true, false));
    assert!(!restart_needed(false, true));
}

#[test]
fn edit_dialog_tracks_checkboxes() {
    let list = vec![folder("INBOX", Some("inbox")), folder("Work", None)];
    let mut edits = initial_edits(&list);
    assert_eq!(edits.len(), 2);
    assert!(can_save_edits(false, &edits));
    set_edit(&mut edits, 0, false);
    set_edit(&mut edits, 1, false);
    assert!(!can_save_edits(false, &edits));
    set_edit(&mut edits, 5, true);
    assert_eq!(edits.len(), 2);
    set_edit(&mut edits, 1, true);
    assert!(can_save_edits(false, &edits));
    assert!(!can_save_edits(true, &edits));
}

#[test]
fn picker_icons_and_badges() {
    assert_eq!(icon_for(Some("inbox")), "📥");
    assert_eq!(icon_for(Some("other")), "📁");
    assert_eq!(icon_for(None), "📁");
    assert_eq!(badge_for(Some("junk")), Some("Junk"));
    assert_eq!(badge_for(Some("other")), None);
    assert_eq!(folder_padding(0), 12);
    assert_eq!(folder_padding(2), 52);
}

#[test]
fn indeterminate_script_marks_partial_parents() {
    let f = |p: &str| RemoteFolderDto {
        path: p.into(),
        special_use: None,
        has_children: false,
        no_select: false,
        delimiter: Some("/".into()),
    };
    let mut t = FolderTree::build(vec![f("A"), f("A/B"), f("A/C")]);
    t.select_all(false);
    let b = t.nodes.iter().position(|n| n.path == "A/B").unwrap();
    t.set_subtree(b, true);
    let s = indeterminate_script(&t);
    assert!(s.contains("{var el=document.getElementById('folder-cb-0'); if(el){el.indeterminate=true;}}"));
    assert!(s.contains("el.indeterminate=false;"));
}
