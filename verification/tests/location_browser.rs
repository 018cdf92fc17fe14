use ingestqnc::model::{FsEntry, SourceBrowserState, SourceKind};
use ingestqnc::ui::location_browser::{
    breadcrumb_parts, can_confirm, can_go_up, clean_location_path, entry_display_name, is_windows_drive_rooted,
    location_label, path_leaf, qnc_uri_breadcrumb_parts, root_disk_columns, root_disk_label,
    short_path, transport_label,
};

#[test]
fn clean_location_path_keeps_qnc_transport_uri() {
    assert_eq!(
        clean_location_path("qnc+local://localhost/card/source-a"),
        "qnc+local://localhost/card/source-a"
    );
}

#[test]
fn breadcrumb_parts_keep_clickable_qnc_transport_chain() {
    let parts = breadcrumb_parts("qnc+local://localhost/card/source-a/DCIM");
    assert_eq!(
        parts,
        vec![
            ("qnc+local://".to_string(), "qnc+local://".to_string()),
            ("localhost".to_string(), "qnc+local://localhost".to_string()),
            ("card".to_string(), "qnc+local://localhost/card".to_string()),
            (
                "source-a".to_string(),
                "qnc+local://localhost/card/source-a".to_string()
            ),
            (
                "DCIM".to_string(),
                "qnc+local://localhost/card/source-a/DCIM".to_string()
            ),
        ]
    );
}

#[test]
fn root_disk_label_prefers_serial_display_name() {
    let entry = FsEntry {
        name: "G:   de666c9f   MEDIA_CARD".into(),
        path: "G:\\".into(),
    };

    assert_eq!(root_disk_label(&entry), "G:   de666c9f   MEDIA_CARD");
}

#[test]
fn root_disk_columns_split_drive_serial_and_name() {
    let entry = FsEntry {
        name: "C:   z574z57z5   system".into(),
        path: "C:\\".into(),
    };
    let columns = root_disk_columns(&entry);

    assert_eq!(columns.drive, "C:");
    assert_eq!(columns.serial, "z574z57z5");
    assert_eq!(columns.name, "system");
}

#[test]
fn transport_labels_use_same_source_selector_prefixes() {
    assert_eq!(transport_label(SourceKind::Lan), "LAN:");
    assert_eq!(transport_label(SourceKind::Intranet), "Intranet:");
}

#[test]
fn breadcrumbs_of_drive_unc_absolute_and_relative_paths() {
    assert_eq!(
        breadcrumb_parts("E:\\DCIM/100QNC\\"),
        vec![
            ("E:".to_string(), "E:\\".to_string()),
            ("DCIM".to_string(), "E:\\DCIM".to_string()),
            ("100QNC".to_string(), "E:\\DCIM\\100QNC".to_string()),
        ]
    );
    assert_eq!(
        breadcrumb_parts("\\\\nas\\cards\\A001"),
        vec![
            ("nas".to_string(), "\\\\nas".to_string()),
            ("cards".to_string(), "\\\\nas\\cards".to_string()),
            ("A001".to_string(), "\\\\nas\\cards\\A001".to_string()),
        ]
    );
    assert_eq!(
        breadcrumb_parts("/media/card"),
        vec![
            ("/".to_string(), "/".to_string()),
            ("media".to_string(), "/media".to_string()),
            ("card".to_string(), "/media/card".to_string()),
        ]
    );
    assert_eq!(
        breadcrumb_parts("cards/A001"),
        vec![
            ("cards".to_string(), "cards".to_string()),
            ("A001".to_string(), "cards\\A001".to_string()),
        ]
    );
    assert!(breadcrumb_parts("   ").is_empty());
    assert!(qnc_uri_breadcrumb_parts("no-scheme").is_empty());
}

#[test]
fn short_path_keeps_the_tail_of_long_paths() {
    let long = "/media/operator/cards/A001/PRIVATE/M4ROOT/CLIP/C0001.MP4";
    let short = short_path(long);
    assert_eq!(short, format!("...{}", &long[long.len() - 36..]));
    assert_eq!(short.chars().count(), 39);
    assert_eq!(short_path("  /short  "), "/short");
}

#[test]
fn leaves_labels_and_entry_names() {
    assert_eq!(path_leaf("C:\\cards\\A001\\"), "A001");
    assert_eq!(path_leaf("/"), "");
    let entry = FsEntry { name: "  ".into(), path: "/media/card/".into() };
    assert_eq!(entry_display_name(&entry, false), "card");
    assert_eq!(entry_display_name(&entry, true), "/media/card/");
    assert!(is_windows_drive_rooted("d:/x"));
    assert!(!is_windows_drive_rooted("d:"));

    let mut state = SourceBrowserState::initial();
    assert_eq!(location_label(&state), "Diskovi");
    state.open_location("qnc+lan://nas/cards".into());
    assert_eq!(location_label(&state), "LAN");
    state.open_location("/media/card".into());
    assert_eq!(location_label(&state), "/media/card");
}

#[test]
fn root_disk_columns_of_unix_root_and_unnamed_disk() {
    let root = FsEntry { name: "".into(), path: "/".into() };
    let columns = root_disk_columns(&root);
    assert_eq!(columns.drive, "/");
    assert_eq!(columns.serial, "");
    assert_eq!(columns.name, "");

    let named = FsEntry { name: "home  Data Disk  2".into(), path: "/home/op".into() };
    let columns = root_disk_columns(&named);
    assert_eq!(columns.drive, "home");
    assert_eq!(columns.serial, "Data");
    assert_eq!(columns.name, "Disk 2");
}

#[test]
fn confirming_needs_a_chosen_directory() {
    let mut state = SourceBrowserState::initial();
    assert!(!can_confirm(&state));
    assert!(!can_go_up(&state));
    state.open_path("/media/card".into());
    assert!(can_confirm(&state));
    assert!(can_go_up(&state));
    state.busy = true;
    assert!(!can_confirm(&state));
    let mut lan = SourceBrowserState::initial();
    lan.open_location("qnc+lan://nas/cards".into());
    assert!(can_confirm(&lan));
    assert!(!can_go_up(&lan));
    lan.open_location("qnc+lan://".into());
    lan.path = "   ".into();
    assert!(!can_confirm(&lan));
}
