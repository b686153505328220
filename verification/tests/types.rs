use slayerfs::meta::types::{CreateParams, Inode, SetAttrMask};

#[test]
fn test_inode_basic() {
    let ino = Inode(100);
    assert_eq!(ino.as_i64(), 100);
    assert_eq!(ino.text(), "ino:100");
}

#[test]
fn test_inode_root() {
    assert_eq!(Inode::root().as_i64(), 1);
    assert_eq!(Inode::root(), Inode(1));
}

#[test]
fn test_create_params() {
    let params = CreateParams::file(Inode::root(), "test.txt".into(), 1000, 1000);
    assert_eq!(params.parent, Inode::root());
    assert_eq!(params.name, "test.txt");
    assert_eq!(params.mode, 0o644);

    let params = CreateParams::dir(Inode::root(), "dir".into(), 1000, 1000);
    assert_eq!(params.mode, 0o755);
}

#[test]
fn test_setattr_mask() {
    let mask = SetAttrMask::size(100);
    assert_eq!(mask.size, Some(100));
    assert!(mask.mode.is_none());
    assert!(!mask.is_empty());

    let mask = SetAttrMask::default();
    assert!(mask.is_empty());
}

#[test]
fn inode_converts_both_ways() {
    assert_eq!(Inode::from(-7), Inode::new(-7));
    assert_eq!(i64::from(Inode(9)), 9);
    assert_eq!(Inode(-12).text(), "ino:-12");
}

#[test]
fn with_mode_keeps_permission_bits_only() {
    let params = CreateParams::file(Inode(5), "a".into(), 1, 2).with_mode(0o100777);
    assert_eq!(params.mode, 0o777);
    assert_eq!(params.uid, 1);
    assert_eq!(params.gid, 2);
    assert_eq!(params.name, "a");
}

#[test]
fn masks_set_what_they_say() {
    let mask = SetAttrMask::owner(3, 4);
    assert_eq!((mask.uid, mask.gid), (Some(3), Some(4)));
    assert!(mask.size.is_none() && mask.mode.is_none());
    let mask = SetAttrMask::mode(0o600);
    assert_eq!(mask.mode, Some(0o600));
    assert!(!mask.is_empty());
}
