use uplink::files::{rename_step, storage_after_answer, FilesEditing, NewFolderCommand, StorageView};
use uplink::clipboard::{clipboard_data_type, clipboard_files, ClipboardDataType};
use uplink::files::{
    count_files_to_show, download_dialog_names, drop_step, files_to_drop_script, files_to_upload_script, is_file_selected,
    is_home_crumb, selection_full, send_amount_text, send_disabled, toggle_chat_selection,
    toggle_selected_file, DropStep, FileDropEvent, Location, UploadCountText,
};

fn paths(v: &[Location]) -> Vec<String> {
    v.iter()
        .map(|l| match l {
            Location::Constellation { path } => format!("c:{path}"),
            Location::Disk { path } => format!("d:{path}"),
        })
        .collect()
}

#[test]
fn toggling_files() {
    let mut sel: Vec<Location> = vec![Location::Disk { path: "a".into() }];
    toggle_selected_file(&mut sel, "a".into(), 3);
    assert_eq!(paths(&sel), vec!["d:a", "c:a"]);
    toggle_selected_file(&mut sel, "b".into(), 3);
    assert_eq!(paths(&sel), vec!["d:a", "c:a", "c:b"]);
    // full: nothing is added
    toggle_selected_file(&mut sel, "c".into(), 3);
    assert_eq!(paths(&sel), vec!["d:a", "c:a", "c:b"]);
    assert!(selection_full(&sel, 3));
    toggle_selected_file(&mut sel, "a".into(), 3);
    assert_eq!(paths(&sel), vec!["d:a", "c:b"]);
    assert!(is_file_selected(&sel, &"b".to_string()));
    assert!(!is_file_selected(&sel, &"a".to_string()));
}

#[test]
fn toggling_twice_restores() {
    let mut sel: Vec<Location> = vec![Location::Constellation { path: "x".into() }];
    toggle_selected_file(&mut sel, "y".into(), 8);
    toggle_selected_file(&mut sel, "y".into(), 8);
    assert_eq!(paths(&sel), vec!["c:x"]);
}

#[test]
fn send_button() {
    assert!(send_disabled(0, false, 3));
    assert!(send_disabled(2, true, 0));
    assert!(!send_disabled(2, false, 0));
    assert_eq!(send_amount_text(3, 8), "3/8");
}

#[test]
fn chat_selection() {
    let mut chats = vec![1u128, 2, 1];
    toggle_chat_selection(&mut chats, 1, true);
    assert_eq!(chats, vec![2]);
    toggle_chat_selection(&mut chats, 5, false);
    assert_eq!(chats, vec![2, 5]);
}

#[test]
fn upload_texts() {
    assert!(count_files_to_show(3) == UploadCountText::Many(3));
    assert!(count_files_to_show(1) == UploadCountText::One);
    assert!(count_files_to_show(0) == UploadCountText::One);
    let s = files_to_upload_script("2 files");
    assert!(s.contains("element.textContent = '2 files';"));
    let h = files_to_drop_script(3, true, "Add", "file", "files");
    assert!(h.contains("' / Add 3 files'"));
    let one = files_to_drop_script(1, true, "Add", "file", "files");
    assert!(one.contains("' / Add 1 file'"));
    let off = files_to_drop_script(3, false, "Add", "file", "files");
    assert!(off.contains("textContent = '  ';"));
}

#[test]
fn drop_events() {
    assert!(drop_step(FileDropEvent::Hovered { count: 2, valid: true }) == DropStep::ShowCount(2));
    assert!(drop_step(FileDropEvent::Hovered { count: 2, valid: false }) == DropStep::Wait);
    assert!(drop_step(FileDropEvent::Dropped { valid: true }) == DropStep::Accept);
    assert!(drop_step(FileDropEvent::Other) == DropStep::Stop);
}

#[test]
fn crumbs() {
    assert!(is_home_crumb(0, &"root".to_string()));
    assert!(!is_home_crumb(1, &"root".to_string()));
    assert!(!is_home_crumb(0, &"docs".to_string()));
}

#[test]
fn clipboard_rules() {
    assert!(clipboard_data_type(true, false, false) == ClipboardDataType::File);
    assert!(clipboard_data_type(false, true, false) == ClipboardDataType::File);
    assert!(clipboard_data_type(false, false, true) == ClipboardDataType::File);
    assert!(clipboard_data_type(false, false, false) == ClipboardDataType::String);
    assert_eq!(clipboard_files(vec!["a".into()], vec!["img".into()]), vec!["a"]);
    assert_eq!(clipboard_files(vec![], vec!["img".into()]), vec!["img"]);
    assert!(clipboard_files(vec![], vec![]).is_empty());
}

#[test]
fn download_names_split_stem_and_extension() {
    let n = download_dialog_names;
    assert_eq!(n("report.pdf"), ("report".to_string(), "pdf".to_string()));
    assert_eq!(n("archive.tar.gz"), ("archive.tar".to_string(), "gz".to_string()));
    assert_eq!(n(".bashrc"), (".bashrc".to_string(), "".to_string()));
    assert_eq!(n("README"), ("README".to_string(), "".to_string()));
    assert_eq!(n("trailing."), ("trailing".to_string(), "".to_string()));
    assert_eq!(n(".."), ("".to_string(), "".to_string()));
    assert_eq!(n("dir/photo.png"), ("photo".to_string(), "png".to_string()));
}

#[test]
fn toggling_a_selected_file_twice_moves_it_last() {
    let mut sel = Vec::new();
    toggle_selected_file(&mut sel, "a".into(), 3);
    toggle_selected_file(&mut sel, "b".into(), 3);
    toggle_selected_file(&mut sel, "c".into(), 3);
    toggle_selected_file(&mut sel, "a".into(), 3);
    toggle_selected_file(&mut sel, "a".into(), 3);
    assert_eq!(paths(&sel), vec!["c:b", "c:c", "c:a"]);
    // a full selection takes no new path, and none twice
    toggle_selected_file(&mut sel, "d".into(), 3);
    assert_eq!(paths(&sel), vec!["c:b", "c:c", "c:a"]);
}

#[test]
fn files_page_steps() {
    let view = |d: &str| StorageView {
        current_dir: d.to_string(),
        directories_opened: vec!["root".to_string()],
        directories: vec![],
        files: vec![],
    };
    assert_eq!(storage_after_answer(view("a"), Some(view("b"))).current_dir, "b");
    assert_eq!(storage_after_answer(view("a"), None).current_dir, "a");
    let r = rename_step("old.txt".into(), "new.txt".into(), true).unwrap();
    assert_eq!((r.old_name.as_str(), r.new_name.as_str()), ("old.txt", "new.txt"));
    assert!(rename_step("old.txt".into(), "new.txt".into(), false).is_none());

    let mut e = FilesEditing::new();
    e.start_rename(9);
    assert_eq!(e.renaming, Some(9));
    assert!(e.finish_rename("a".into(), "b".into(), false).is_none());
    assert_eq!(e.renaming, None);
    e.start_rename(9);
    e.toggle_new_folder();
    assert!(e.add_new_folder && e.renaming.is_none());
    let cmds = e.finish_new_folder("docs".into(), true);
    assert!(!e.add_new_folder);
    assert_eq!(cmds.len(), 2);
    assert!(matches!(&cmds[0], NewFolderCommand::CreateNewDirectory(n) if n == "docs"));
    assert!(matches!(cmds[1], NewFolderCommand::GetItemsFromCurrentDirectory));
    e.toggle_new_folder();
    assert!(e.finish_new_folder("x".into(), false).is_empty());
    e.start_rename(1);
    e.stop_renaming();
    assert_eq!(e.renaming, None);
}
