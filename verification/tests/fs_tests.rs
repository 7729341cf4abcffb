use xkcdfs::address::{dir_inode_of, entity_of, field_inode_of, Entity, FieldKind};
use xkcdfs::cache::Record;
use xkcdfs::fs::{EntryKind, FsError, XkcdFs};

const DESKTOP_CONTENT: &str = "[Desktop Entry]\nType=Link\nName=XKCD\nURL=https://xkcd.com/\n";
const ABOUT_CONTENT: &str =
    "xkcdfs is an unaffiliated fan project for looking at xkcd comics.\n\nxkcd is by Randall Munroe.\n";

fn record(id: u64, title: &str, alt: &str, image: &[u8]) -> Record {
    Record {
        id,
        title: title.as_bytes().to_vec(),
        alt: alt.as_bytes().to_vec(),
        transcript: Vec::new(),
        image: image.to_vec(),
        year: b"2024".to_vec(),
        month: b"5".to_vec(),
        day: b"17".to_vec(),
        link: Vec::new(),
    }
}

/// A namespace that has learned that the latest item is 3000.
fn fs_with_latest_3000() -> XkcdFs {
    let mut fs = XkcdFs::new();
    fs.cache.set_latest(record(3000, "Latest title", "latest alt", b"PNGDATA"));
    fs
}

#[test]
fn test_get_file_attr() {
    let fs = XkcdFs::new();

    assert_eq!(fs.get_file_attr(1).unwrap().kind, EntryKind::Directory);
    assert_eq!(fs.get_file_attr(2).unwrap().kind, EntryKind::RegularFile);
    assert_eq!(fs.get_file_attr(3).unwrap().kind, EntryKind::RegularFile);
    assert_eq!(fs.get_file_attr(999).unwrap_err(), FsError::NotFound);
}

#[test]
fn test_read_data() {
    let fs = XkcdFs::new();

    // Test reading desktop file (ino 2)
    let data = fs.read_data(2, 0, 100).unwrap();
    assert_eq!(data, DESKTOP_CONTENT.as_bytes().to_vec());

    // Test reading about file (ino 3)
    let data = fs.read_data(3, 0, 100).unwrap();
    assert_eq!(data, ABOUT_CONTENT.as_bytes().to_vec());

    // Test unknown inode
    let err = fs.read_data(999, 0, 10).unwrap_err();
    assert_eq!(err, FsError::NotFound);
}

#[test]
fn test_fixed_inode_entities() {
    assert_eq!(entity_of(1), Some(Entity::Root));
    assert_eq!(entity_of(2), Some(Entity::DesktopFile));
    assert_eq!(entity_of(3), Some(Entity::AboutFile));
    assert_eq!(entity_of(100), Some(Entity::LatestSymlink));
}

#[test]
fn test_fixed_sizes() {
    let fs = XkcdFs::new();
    let desktop = fs.get_file_attr(2).unwrap();
    assert_eq!(desktop.size, DESKTOP_CONTENT.len() as u64);
    assert_eq!(desktop.size, 58);
    let about = fs.get_file_attr(3).unwrap();
    assert_eq!(about.size, ABOUT_CONTENT.len() as u64);
    let root = fs.get_file_attr(1).unwrap();
    assert_eq!(root.size, 0);
    assert_eq!(root.perm, 0o555);
    assert_eq!(desktop.perm, 0o444);
}

#[test]
fn test_entity_round_trip() {
    assert_eq!(dir_inode_of(2999), 2999000);
    assert_eq!(entity_of(2999000), Some(Entity::ItemDir { id: 2999 }));
    assert_eq!(field_inode_of(2999, FieldKind::Title), 2999004);
    assert_eq!(
        entity_of(2999004),
        Some(Entity::ItemField { id: 2999, kind: FieldKind::Title })
    );
    assert_eq!(field_inode_of(2999, FieldKind::Alt), 2999005);
    assert_eq!(
        entity_of(2999005),
        Some(Entity::ItemField { id: 2999, kind: FieldKind::Alt })
    );
    assert_eq!(field_inode_of(2999, FieldKind::Image), 2999006);
    assert_eq!(
        entity_of(2999006),
        Some(Entity::ItemField { id: 2999, kind: FieldKind::Image })
    );
    assert_eq!(dir_inode_of(1), 1000);
    assert_eq!(entity_of(1000), Some(Entity::ItemDir { id: 1 }));
}

#[test]
fn test_unassigned_inodes() {
    let fs = fs_with_latest_3000();
    for ino in [0u64, 4, 5, 6, 7, 99, 101, 999, 1001, 1003, 1007, 2999999] {
        assert_eq!(entity_of(ino), None, "inode {ino} must be unassigned");
        assert_eq!(fs.get_file_attr(ino).unwrap_err(), FsError::NotFound);
        assert_eq!(fs.read_data(ino, 0, 8).unwrap_err(), FsError::NotFound);
        assert_eq!(fs.readdir(ino, 0, 8).unwrap_err(), FsError::NotFound);
        assert_eq!(fs.readlink(ino).unwrap_err(), FsError::NotFound);
        assert_eq!(fs.lookup(ino, b"title.txt").unwrap_err(), FsError::NotFound);
    }
}

#[test]
fn test_window_law() {
    let fs = XkcdFs::new();
    let len = DESKTOP_CONTENT.len() as i64;
    // offset at or past the end: empty, not an error
    assert_eq!(fs.read_data(2, len, 10).unwrap(), Vec::<u8>::new());
    assert_eq!(fs.read_data(2, len + 5, 10).unwrap(), Vec::<u8>::new());
    // negative offset: invalid argument
    assert_eq!(fs.read_data(2, -1, 10).unwrap_err(), FsError::InvalidArgument);
    // a window inside the content: exactly min(len, L - offset) bytes at offset
    assert_eq!(
        fs.read_data(2, 1, 2).unwrap(),
        DESKTOP_CONTENT.as_bytes()[1..3].to_vec()
    );
    // a window reaching past the end is clamped
    let tail = fs.read_data(2, len - 3, 100).unwrap();
    assert_eq!(tail, DESKTOP_CONTENT.as_bytes()[(len - 3) as usize..].to_vec());
    assert_eq!(tail.len(), 3);
    // zero-length request
    assert_eq!(fs.read_data(2, 0, 0).unwrap(), Vec::<u8>::new());
}

#[test]
fn test_lookup_scenarios() {
    let fs = fs_with_latest_3000();
    // a numbered item strictly below the latest resolves to its directory
    let dir = fs.lookup(1, b"2999").unwrap();
    assert_eq!(dir.kind, EntryKind::Directory);
    assert_eq!(dir.ino, 2999000);
    // the latest item is not reachable by its own number
    assert_eq!(fs.lookup(1, b"3000").unwrap_err(), FsError::NotFound);
    // it is reachable through the alias, whose target is the decimal id
    let alias = fs.lookup(1, b"latest").unwrap();
    assert_eq!(alias.ino, 100);
    assert_eq!(alias.kind, EntryKind::Symlink);
    assert_eq!(alias.size, 4);
    assert_eq!(fs.readlink(100).unwrap(), b"3000".to_vec());
    // fixed names under the root
    let desktop = fs.lookup(1, b"xkcd.desktop").unwrap();
    assert_eq!(desktop.ino, 2);
    assert_eq!(desktop.kind, EntryKind::RegularFile);
    assert_eq!(desktop.size, 58);
    let about = fs.lookup(1, b"about.txt").unwrap();
    assert_eq!(about.ino, 3);
    // unknown names and out-of-range numbers
    assert_eq!(fs.lookup(1, b"nosuch").unwrap_err(), FsError::NotFound);
    assert_eq!(fs.lookup(1, b"0").unwrap_err(), FsError::NotFound);
    assert_eq!(fs.lookup(1, b"3001").unwrap_err(), FsError::NotFound);
    assert_eq!(
        fs.lookup(1, b"99999999999999999999999999").unwrap_err(),
        FsError::NotFound
    );
    // leading zeros denote the same item
    assert_eq!(fs.lookup(1, b"0007").unwrap().ino, 7000);
    // a sign is not a digit
    assert_eq!(fs.lookup(1, b"+7").unwrap_err(), FsError::NotFound);
}

#[test]
fn test_lookup_needs_fetch() {
    let fs = XkcdFs::new();
    // a numeric name under the root cannot be range-checked yet
    assert_eq!(fs.lookup(1, b"5").unwrap_err(), FsError::NeedLatest);
    // the alias attributes need the latest id for their size
    assert_eq!(fs.lookup(1, b"latest").unwrap_err(), FsError::NeedLatest);
    assert_eq!(fs.get_file_attr(100).unwrap_err(), FsError::NeedLatest);
    assert_eq!(fs.readlink(100).unwrap_err(), FsError::NeedLatest);
    assert_eq!(fs.readdir(1, 0, 10).unwrap_err(), FsError::NeedLatest);
    assert_eq!(fs.get_latest_num().unwrap_err(), FsError::NeedLatest);
    // fixed files answer without any fetch
    assert_eq!(fs.lookup(1, b"about.txt").unwrap().ino, 3);
}

#[test]
fn test_item_field_needs_fetch() {
    let fs = fs_with_latest_3000();
    // item 2999 is in range but not cached yet
    assert_eq!(fs.get_file_attr(2999004).unwrap_err(), FsError::NeedItem(2999));
    assert_eq!(fs.read_data(2999004, 0, 10).unwrap_err(), FsError::NeedItem(2999));
    assert_eq!(fs.lookup(2999000, b"title.txt").unwrap_err(), FsError::NeedItem(2999));
}

#[test]
fn test_item_directory_contents() {
    let mut fs = fs_with_latest_3000();
    fs.cache
        .insert_record(record(2999, "Some title", "the alt text", b"\x89PNG data"));
    // the item directory holds exactly its three field files
    let entries = fs.readdir(2999000, 0, 100).unwrap();
    let names: Vec<Vec<u8>> = entries.iter().map(|e| e.name.clone()).collect();
    assert_eq!(
        names,
        vec![
            b".".to_vec(),
            b"..".to_vec(),
            b"title.txt".to_vec(),
            b"alt.txt".to_vec(),
            b"image.png".to_vec(),
        ]
    );
    assert_eq!(entries[0].ino, 2999000);
    assert_eq!(entries[1].ino, 1);
    assert_eq!(entries[2].ino, 2999004);
    assert_eq!(entries[3].ino, 2999005);
    assert_eq!(entries[4].ino, 2999006);
    // lookup of the field names resolves to the field files
    let title = fs.lookup(2999000, b"title.txt").unwrap();
    assert_eq!(title.ino, 2999004);
    assert_eq!(title.kind, EntryKind::RegularFile);
    assert_eq!(title.size, "Some title".len() as u64);
    assert_eq!(fs.lookup(2999000, b"nosuch.txt").unwrap_err(), FsError::NotFound);
    // reading title.txt at offset 1 with length 2 gives its 2nd and 3rd bytes
    assert_eq!(fs.read_data(2999004, 1, 2).unwrap(), b"om".to_vec());
    // the other field files read their own content
    assert_eq!(fs.read_data(2999005, 0, 100).unwrap(), b"the alt text".to_vec());
    assert_eq!(fs.read_data(2999006, 0, 100).unwrap(), b"\x89PNG data".to_vec());
    // directories have no byte content
    assert_eq!(fs.read_data(2999000, 0, 10).unwrap_err(), FsError::NotFound);
    assert_eq!(fs.read_data(1, 0, 10).unwrap_err(), FsError::NotFound);
}

#[test]
fn test_root_listing_order() {
    let mut fs = XkcdFs::new();
    fs.cache.set_latest(record(5, "Fifth", "alt five", b"IMG"));
    let entries = fs.readdir(1, 0, 100).unwrap();
    let names: Vec<Vec<u8>> = entries.iter().map(|e| e.name.clone()).collect();
    assert_eq!(
        names,
        vec![
            b".".to_vec(),
            b"..".to_vec(),
            b"xkcd.desktop".to_vec(),
            b"about.txt".to_vec(),
            b"latest".to_vec(),
            b"1".to_vec(),
            b"2".to_vec(),
            b"3".to_vec(),
            b"4".to_vec(),
        ]
    );
    assert_eq!(entries[5].ino, 1000);
    assert_eq!(entries[5].kind, EntryKind::Directory);
    assert_eq!(entries[8].ino, 4000);
}

#[test]
fn test_readdir_resumable() {
    let mut fs = XkcdFs::new();
    fs.cache.set_latest(record(5, "Fifth", "alt five", b"IMG"));
    let full = fs.readdir(1, 0, 100).unwrap();
    assert_eq!(full.len(), 9);
    // concatenating windows with arbitrary stop points gives the same listing
    let mut resumed: Vec<(u64, Vec<u8>)> = Vec::new();
    let mut cursor = 0u64;
    for max in [3u64, 1, 4, 100] {
        let part = fs.readdir(1, cursor, max).unwrap();
        cursor += part.len() as u64;
        resumed.extend(part.into_iter().map(|e| (e.ino, e.name)));
    }
    let full_pairs: Vec<(u64, Vec<u8>)> = full.into_iter().map(|e| (e.ino, e.name)).collect();
    assert_eq!(resumed, full_pairs);
    // a cursor at or past the end delivers nothing
    assert_eq!(fs.readdir(1, 9, 10).unwrap().len(), 0);
    assert_eq!(fs.readdir(1, 50, 10).unwrap().len(), 0);
    // a window in the middle
    let mid = fs.readdir(1, 4, 2).unwrap();
    let names: Vec<Vec<u8>> = mid.into_iter().map(|e| e.name).collect();
    assert_eq!(names, vec![b"latest".to_vec(), b"1".to_vec()]);
}

#[test]
fn test_latest_state() {
    let mut fs = XkcdFs::new();
    assert!(fs.cache.get_record(3000).is_none());
    fs.cache.set_latest(record(3000, "Latest title", "latest alt", b"PNGDATA"));
    assert_eq!(fs.get_latest_num().unwrap(), 3000);
    // the latest record was cached along with the pointer
    assert!(fs.cache.has_record(3000));
    let rec = fs.cache.get_record(3000).unwrap();
    assert_eq!(rec.id, 3000);
    assert_eq!(rec.title, b"Latest title".to_vec());
    // its field files answer without another fetch
    assert_eq!(fs.get_file_attr(3000004).unwrap().size, 12);
    assert_eq!(fs.read_data(3000004, 0, 6).unwrap(), b"Latest".to_vec());
    // inode-to-record resolution works through directory and field inodes
    assert_eq!(fs.inode_to_comic(3000000).unwrap().id, 3000);
    assert_eq!(fs.inode_to_comic(3000005).unwrap().id, 3000);
    assert!(fs.inode_to_comic(2999000).is_none());
    assert!(fs.inode_to_comic(7).is_none());
}

#[test]
fn test_symlink_has_no_window_read() {
    let fs = fs_with_latest_3000();
    // the symlink target is read through readlink, not the byte-window read
    assert_eq!(fs.read_data(100, 0, 10).unwrap_err(), FsError::NotFound);
    assert_eq!(fs.readlink(2).unwrap_err(), FsError::NotFound);
    assert_eq!(fs.readlink(1).unwrap_err(), FsError::NotFound);
}
