use macsftp_app::file_ops::{
    context_menu_items, delete_confirm_presentation, failure_title, local_fs_step, plain_name,
    ContextItem, LocalFsStep, DELETE_NAME_PREVIEW_LIMIT,
};
use macsftp_app::model::{EntryPath, ErrorCode, FsEntryRef, FsOp, PaneSide};

fn local_entry(path: &str, is_dir: bool) -> FsEntryRef {
    FsEntryRef {
        path: EntryPath::Local(path.to_string()),
        is_dir,
    }
}

#[test]
fn single_folder_uses_its_name_and_recursive_delete_warning() {
    let presentation = delete_confirm_presentation(&[local_entry("/tmp/project-assets", true)]);

    assert_eq!(presentation.title, "Delete “project-assets”?");
    assert_eq!(presentation.names.len(), 1);
    assert_eq!(presentation.names[0].name, "project-assets");
    assert!(presentation.names[0].is_dir);
    assert_eq!(presentation.overflow, 0);
    assert_eq!(
        presentation.risk_message,
        "This folder and all of its contents will be permanently deleted."
    );
}

#[test]
fn mixed_selection_reports_folder_count_and_preview_overflow() {
    let entries: Vec<FsEntryRef> = (0..DELETE_NAME_PREVIEW_LIMIT + 2)
        .map(|index| local_entry(&format!("/tmp/item-{index}"), index < 2))
        .collect();
    let presentation = delete_confirm_presentation(&entries);

    assert_eq!(presentation.title, "Delete 10 items?");
    assert_eq!(presentation.names.len(), DELETE_NAME_PREVIEW_LIMIT);
    assert_eq!(presentation.overflow, 2);
    assert_eq!(
        presentation.risk_message,
        "This selection includes 2 folders. All selected items and folder contents will be permanently deleted."
    );
}

#[test]
fn single_file_and_several_files() {
    let one = delete_confirm_presentation(&[local_entry("/tmp/a.txt", false)]);
    assert_eq!(one.title, "Delete “a.txt”?");
    assert_eq!(one.risk_message, "This item will be permanently deleted.");
    let two = delete_confirm_presentation(&[
        local_entry("/tmp/a.txt", false),
        local_entry("/tmp/b.txt", false),
    ]);
    assert_eq!(two.title, "Delete 2 items?");
    assert_eq!(two.overflow, 0);
    assert_eq!(two.risk_message, "These items will be permanently deleted.");
}

#[test]
fn every_entry_of_a_deletion_is_a_step() {
    let op = FsOp::Delete {
        entries: vec![local_entry("/tmp/a", false), local_entry("/tmp/d", true)],
    };
    assert_eq!(
        local_fs_step(&op, 0),
        LocalFsStep::Delete { path: "/tmp/a".to_string(), is_dir: false }
    );
    assert_eq!(
        local_fs_step(&op, 1),
        LocalFsStep::Delete { path: "/tmp/d".to_string(), is_dir: true }
    );
    assert_eq!(local_fs_step(&op, 2), LocalFsStep::Done);
    assert_eq!(failure_title(&op), "Could not delete");
}

#[test]
fn remote_paths_are_refused_on_this_machine() {
    let remote = || EntryPath::Remote("/srv/a".to_string());
    let cases = [
        (
            FsOp::Delete { entries: vec![FsEntryRef { path: remote(), is_dir: false }] },
            "Delete paths must be local.",
            "Could not delete",
        ),
        (
            FsOp::Rename { from: EntryPath::Local("/a".to_string()), to: remote() },
            "Rename paths must be local.",
            "Could not rename",
        ),
        (
            FsOp::CreateDirectory { parent: remote(), name: "n".to_string() },
            "Create-folder parent must be local.",
            "Could not create folder",
        ),
    ];
    for (op, message, title) in cases {
        match local_fs_step(&op, 0) {
            LocalFsStep::Refuse(error) => {
                assert_eq!(error.code, ErrorCode::Unknown);
                assert_eq!(error.title, "Invalid local path");
                assert_eq!(error.message, message);
            }
            step => panic!("expected a refusal, got {step:?}"),
        }
        assert_eq!(failure_title(&op), title);
    }
}

#[test]
fn context_menus_follow_side_entry_and_connection() {
    assert_eq!(
        context_menu_items(PaneSide::Local, true, false),
        vec![
            ContextItem::Rename,
            ContextItem::Delete,
            ContextItem::NewFolder,
            ContextItem::Upload,
            ContextItem::Reveal,
            ContextItem::CopyPath,
        ]
    );
    assert_eq!(
        context_menu_items(PaneSide::Remote, true, true),
        vec![
            ContextItem::Rename,
            ContextItem::Delete,
            ContextItem::NewFolder,
            ContextItem::Edit,
            ContextItem::Download,
            ContextItem::CopyPath,
        ]
    );
    assert_eq!(
        context_menu_items(PaneSide::Remote, false, true),
        vec![ContextItem::NewFolder, ContextItem::Refresh]
    );
    assert_eq!(ContextItem::Reveal.label(), "Reveal in Finder");
}

#[test]
fn plain_names_hold_no_separator() {
    assert!(plain_name("a.txt"));
    assert!(!plain_name("a/b"));
    assert!(!plain_name(".."));
    assert!(!plain_name("."));
}
