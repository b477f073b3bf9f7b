use omasend::model::folder::{
    Choice, EntryKind, FolderError, Visit, check_not_empty, choice_for, enter_folder, entry_order,
    relative_name, visit,
};

#[test]
fn chosen_links_are_refused_and_folders_expand() {
    assert_eq!(choice_for(EntryKind::Symlink), Err(FolderError::LinkChosen));
    assert_eq!(choice_for(EntryKind::Directory), Ok(Choice::Folder));
    assert_eq!(choice_for(EntryKind::File), Ok(Choice::File));
    assert_eq!(choice_for(EntryKind::Special), Ok(Choice::File));
    assert_eq!(
        FolderError::LinkChosen.message(),
        "Choose the original file instead of a symbolic link"
    );
}

#[test]
fn folder_walks_are_bounded_in_depth_and_count() {
    assert_eq!(enter_folder(0), Ok(()));
    assert_eq!(enter_folder(127), Ok(()));
    assert_eq!(enter_folder(128), Err(FolderError::TooDeep));
    assert_eq!(FolderError::TooDeep.message(), "Folder nesting exceeds 128 levels");
    assert_eq!(visit(9_999, EntryKind::File, "a"), Ok(Visit::Add));
    assert_eq!(visit(10_000, EntryKind::File, "a"), Err(FolderError::TooManyFiles));
    assert_eq!(
        FolderError::TooManyFiles.message(),
        "Select at most 10,000 files per transfer"
    );
}

#[test]
fn links_and_special_files_inside_folders_are_refused() {
    assert_eq!(visit(0, EntryKind::Directory, "/d/sub"), Ok(Visit::Descend));
    let link = visit(0, EntryKind::Symlink, "/d/link").unwrap_err();
    assert_eq!(link, FolderError::Symlink("/d/link".into()));
    assert_eq!(link.message(), "Folder contains a symbolic link: /d/link");
    let fifo = visit(0, EntryKind::Special, "/d/fifo").unwrap_err();
    assert_eq!(fifo.message(), "Folder contains a special file: /d/fifo");
}

#[test]
fn empty_folders_cannot_be_sent() {
    assert_eq!(check_not_empty(0), Err(FolderError::Empty));
    assert_eq!(check_not_empty(1), Ok(()));
    assert_eq!(
        FolderError::Empty.message(),
        "This folder contains no files; LocalSend cannot transfer empty folders"
    );
}

#[test]
fn entries_are_walked_in_byte_order_under_slash_joined_names() {
    let names: Vec<Vec<u8>> = vec![b"b".to_vec(), b"B".to_vec(), b"a".to_vec(), b"ab".to_vec()];
    assert_eq!(entry_order(&names), vec![1, 2, 3, 0]);
    assert_eq!(entry_order(&Vec::new()), Vec::<usize>::new());
    let parts: Vec<String> = vec!["photos".into(), "2024".into(), "cat.png".into()];
    assert_eq!(relative_name(&parts), "photos/2024/cat.png");
    assert_eq!(relative_name(&vec!["one.txt".to_string()]), "one.txt");
}
