use slayerfs::meta::cache::{CacheConfig, CachedEntry, MetaCache};
use slayerfs::meta::store::{FileAttr, FileType};
use slayerfs::meta::types::Inode;

fn make_test_attr(ino: i64, version: u64) -> FileAttr {
    FileAttr {
        ino,
        size: 1024,
        kind: FileType::File,
        mode: 0o644,
        uid: 1000,
        gid: 1000,
        atime: 0,
        mtime: 0,
        ctime: 0,
        nlink: 1,
        blocks: 0,
        blksize: 4096,
        rdev: 0,
        version,
    }
}

#[test]
fn test_attr_cache() {
    let mut cache = MetaCache::new(CacheConfig::default());
    let ino = Inode(100);
    let attr = make_test_attr(100, 1);
    assert!(cache.get_attr(0, ino).is_none());
    cache.put_attr(0, ino, attr);
    assert!(cache.get_attr(0, ino).is_some());
    cache.invalidate_attr(ino);
    assert!(cache.get_attr(0, ino).is_none());
}

#[test]
fn test_dentry_cache() {
    let mut cache = MetaCache::new(CacheConfig::default());
    let parent = Inode(1);
    let child = Inode(100);
    assert!(cache.get_dentry(0, parent, "test.txt").is_none());
    cache.put_dentry(0, parent, "test.txt", child);
    assert_eq!(cache.get_dentry(0, parent, "test.txt"), Some(child));
    cache.invalidate_dentry(parent, "test.txt");
    assert!(cache.get_dentry(0, parent, "test.txt").is_none());
}

#[test]
fn test_negative_cache() {
    let mut cache = MetaCache::new(CacheConfig::default());
    let key = "parent:1:name:nonexistent";
    assert!(!cache.is_negative(0, key));
    cache.put_negative(0, key);
    assert!(cache.is_negative(0, key));
    cache.remove_negative(key);
    assert!(!cache.is_negative(0, key));
}

#[test]
fn test_attr_ttl_expiration() {
    let mut config = CacheConfig::default();
    config.attr_ttl = 100;
    let mut cache = MetaCache::new(config);
    let ino = Inode(100);
    cache.put_attr(0, ino, make_test_attr(100, 1));
    assert!(cache.get_attr(0, ino).is_some());
    assert!(cache.get_attr(100, ino).is_some());
    assert!(cache.get_attr(150, ino).is_none());
}

#[test]
fn test_version_check() {
    let mut cache = MetaCache::new(CacheConfig::default());
    let ino = Inode(100);
    cache.put_attr(0, ino, make_test_attr(100, 5));
    assert!(cache.get_attr_versioned(0, ino, 5).is_some());
    assert!(cache.get_attr_versioned(0, ino, 4).is_none());
    assert!(cache.get_attr_versioned(0, ino, 6).is_none());
}

#[test]
fn test_invalidate_dir() {
    let mut cache = MetaCache::new(CacheConfig::default());
    let parent = Inode(1);
    cache.put_dentry(0, parent, "file1.txt", Inode(100));
    cache.put_dentry(0, parent, "file2.txt", Inode(101));
    cache.put_dentry(0, parent, "file3.txt", Inode(102));
    assert!(cache.get_dentry(0, parent, "file1.txt").is_some());
    assert!(cache.get_dentry(0, parent, "file2.txt").is_some());
    cache.invalidate_dir(parent);
    assert!(cache.get_dentry(0, parent, "file1.txt").is_none());
    assert!(cache.get_dentry(0, parent, "file2.txt").is_none());
    assert!(cache.get_dentry(0, parent, "file3.txt").is_none());
}

#[test]
fn cached_attributes_are_read_back() {
    let mut cache = MetaCache::new(CacheConfig::default());
    let attr = make_test_attr(7, 3);
    cache.put_attr(10, Inode(7), attr);
    assert_eq!(cache.get_attr(10, Inode(7)), Some(attr));
    assert_eq!(cache.get_attr(10, Inode(8)), None);
}

#[test]
fn other_directories_keep_their_names() {
    let mut cache = MetaCache::new(CacheConfig::default());
    cache.put_dentry(0, Inode(1), "a", Inode(2));
    cache.put_dentry(0, Inode(5), "a", Inode(6));
    cache.invalidate_dir(Inode(1));
    assert_eq!(cache.get_dentry(0, Inode(1), "a"), None);
    assert_eq!(cache.get_dentry(0, Inode(5), "a"), Some(Inode(6)));
}

#[test]
fn a_full_cache_drops_what_was_used_longest_ago() {
    let mut config = CacheConfig::default();
    config.dentry_capacity = 2;
    let mut cache = MetaCache::new(config);
    cache.put_dentry(0, Inode(1), "a", Inode(10));
    cache.put_dentry(0, Inode(1), "b", Inode(11));
    // "a" is used again, so "b" is the older one.
    assert_eq!(cache.get_dentry(0, Inode(1), "a"), Some(Inode(10)));
    cache.put_dentry(0, Inode(1), "c", Inode(12));
    assert_eq!(cache.get_dentry(0, Inode(1), "b"), None);
    assert_eq!(cache.get_dentry(0, Inode(1), "a"), Some(Inode(10)));
    assert_eq!(cache.get_dentry(0, Inode(1), "c"), Some(Inode(12)));
    assert_eq!(cache.stats().dentry_size, 2);
}

#[test]
fn paths_are_dropped_by_prefix() {
    let mut cache = MetaCache::new(CacheConfig::default());
    cache.put_path(0, "/a/b", Inode(2));
    cache.put_path(0, "/a/c", Inode(3));
    cache.put_path(0, "/b", Inode(4));
    cache.invalidate_path_prefix("/a");
    assert_eq!(cache.get_path(0, "/a/b"), None);
    assert_eq!(cache.get_path(0, "/a/c"), None);
    assert_eq!(cache.get_path(0, "/b"), Some(Inode(4)));
    cache.invalidate_path("/b");
    assert_eq!(cache.get_path(0, "/b"), None);
}

#[test]
fn several_attributes_are_dropped_at_once() {
    let mut cache = MetaCache::new(CacheConfig::default());
    for i in 1..4 {
        cache.put_attr(0, Inode(i), make_test_attr(i, 1));
    }
    cache.invalidate_attrs(&vec![Inode(1), Inode(3)]);
    assert!(cache.get_attr(0, Inode(1)).is_none());
    assert!(cache.get_attr(0, Inode(2)).is_some());
    assert!(cache.get_attr(0, Inode(3)).is_none());
}

#[test]
fn a_cleared_cache_is_empty() {
    let mut cache = MetaCache::new(CacheConfig::default());
    cache.put_attr(0, Inode(1), make_test_attr(1, 1));
    cache.put_dentry(0, Inode(1), "a", Inode(2));
    cache.put_path(0, "/a", Inode(2));
    cache.put_negative(0, "1:b");
    let full = cache.stats();
    assert_eq!(
        (full.attr_size, full.dentry_size, full.path_size, full.negative_size),
        (1, 1, 1, 1)
    );
    cache.clear_all();
    let empty = cache.stats();
    assert_eq!(
        (empty.attr_size, empty.dentry_size, empty.path_size, empty.negative_size),
        (0, 0, 0, 0)
    );
    assert_eq!(cache.get_path(0, "/a"), None);
    assert!(!cache.is_negative(0, "1:b"));
}

#[test]
fn an_entry_is_good_until_its_time_is_over() {
    let entry = CachedEntry::new(5u8, 100, 50, 2);
    assert_eq!(entry.expire_at, 150);
    assert!(!entry.is_expired(150));
    assert!(entry.is_expired(151));
    assert!(entry.is_valid(150, None));
    assert!(entry.is_valid(150, Some(2)));
    assert!(!entry.is_valid(150, Some(3)));
    assert!(!entry.is_valid(151, Some(2)));
}

#[test]
fn the_usual_caches() {
    let c = CacheConfig::default();
    assert_eq!((c.attr_capacity, c.dentry_capacity), (10000, 10000));
    assert_eq!((c.path_capacity, c.negative_capacity), (5000, 1000));
    assert_eq!((c.attr_ttl, c.dentry_ttl), (60_000, 60_000));
    assert_eq!((c.path_ttl, c.negative_ttl), (30_000, 5_000));
}
