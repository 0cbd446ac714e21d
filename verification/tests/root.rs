use ksched::{ChanId, ChanType, Error, Root};

#[test]
fn test_mount() {
    let devroot = Root::default();
    let root = devroot.attach(b"").unwrap();

    // Cannot create directories.
    assert!(devroot.open(&root, b"dev", Some(true)).is_err());
    assert!(devroot.open(&root, b"dev", Some(false)).is_err());
    assert!(devroot.open(&root, b"x", Some(true)).is_err());
    assert!(devroot.open(&root, b"x", Some(false)).is_err());

    // Can open itself.
    let root2 = devroot.open(&root, b"", None).unwrap().unwrap();
    assert_eq!(root2, root);

    let root_dev = devroot.open(&root, b"dev", None).unwrap().unwrap();
    assert_eq!(root_dev, ChanId { path: 5, version: 0, ctype: ChanType::Dir });
}

#[test]
fn a_name_that_is_no_entry_opens_nothing() {
    let devroot = Root::default();
    let root = devroot.attach(b"").unwrap();
    let root_dev = devroot.open(&root, b"dev", None).unwrap().unwrap();
    assert_eq!(devroot.open(&root, b"src", None), Ok(None));
    assert_eq!(devroot.open(&root_dev, b"src", None), Ok(None));
}

#[test]
fn attach_gives_the_root_directory() {
    let devroot = Root::default();
    let expected = ChanId { path: 0, version: b'/' as u32, ctype: ChanType::Dir };
    assert_eq!(devroot.attach(b""), Ok(expected));
    assert_eq!(devroot.attach(b"anything"), Ok(expected));
}

#[test]
fn the_root_has_five_entries() {
    let devroot = Root::default();
    let root = devroot.attach(b"").unwrap();
    let names: [&[u8]; 5] = [b"boot", b"root", b"proc", b"env", b"dev"];
    for (i, name) in names.iter().enumerate() {
        let expected = ChanId { path: i as u64 + 1, version: 0, ctype: ChanType::Dir };
        assert_eq!(devroot.open(&root, name, None), Ok(Some(expected)));
    }
    for name in [&b"boo"[..], b"boots", b"Dev", b"de", b"/", b"env\0"] {
        assert_eq!(devroot.open(&root, name, None), Ok(None));
    }
}

#[test]
fn only_the_root_directory_has_entries() {
    let devroot = Root::default();
    let dev = ChanId { path: 5, version: 0, ctype: ChanType::Dir };
    assert_eq!(devroot.open(&dev, b"boot", None), Ok(None));
    assert_eq!(devroot.open(&dev, b"", None), Ok(Some(dev)));
    assert_eq!(devroot.open(&dev, b"", Some(true)), Ok(Some(dev)));
}

#[test]
fn nothing_can_be_created_removed_or_truncated() {
    let devroot = Root::default();
    let root = devroot.attach(b"").unwrap();
    assert_eq!(devroot.open(&root, b"new", Some(true)), Err(Error::BadRequest("create in devroot")));
    assert_eq!(devroot.open(&root, b"boot", Some(false)), Err(Error::BadRequest("create in devroot")));
    assert_eq!(devroot.remove(&root), Err(Error::BadRequest("remove file of devroot")));
    assert_eq!(devroot.truncate(&root, 0), Err(Error::BadRequest("truncate file of devroot")));
}
