use rmxfs::direntry::{DirEntry, EntryType, FileKind};
use rmxfs::errno::Errno;
use rmxfs::jsonmetadata::{DocType, JsonMetadata};
use rmxfs::rmxfs::{find_first, read_size, OpenStep, Query, WriteRefusal, RMXFS};
use rmxfs::scanner::{list_dir_metadata, secs_to_systime, Sidecar, Stat};

const WRONLY: i32 = 1;
const RDONLY: i32 = 0;

fn sidecar(prefix: &str, name: &str, parent: &str, ino: u64, sizes: [Option<u64>; 3]) -> Sidecar {
    Sidecar {
        file_name: format!("{}.metadata", prefix),
        stat: Stat {
            ino,
            size: 60,
            blocks: 8,
            atime: 1,
            mtime: 1,
            ctime: 1,
            crtime: secs_to_systime(1),
            is_dir: false,
            mode: 0o100644,
            uid: 1,
            gid: 1,
            rdev: 0,
            blksize: 4096,
        },
        record: JsonMetadata {
            parent: parent.to_string(),
            visible_name: name.to_string(),
            doc_type: if sizes.iter().all(|s| s.is_none()) {
                DocType::CollectionType
            } else {
                DocType::DocumentType
            },
            extra: vec![],
        },
        payload_sizes: sizes,
    }
}

const PDF: [Option<u64>; 3] = [None, Some(5), None];
const DIR: [Option<u64>; 3] = [None, None, None];

/// The store of the first scenario: one document `Doc` at the root.
fn store() -> Vec<Sidecar> {
    vec![sidecar("aaaa", "Doc", "", 100, PDF)]
}

/// The store after a folder was made and `Doc.pdf` moved into it: the move
/// writes the name it was given as the visible name.
fn store_with_folder() -> Vec<Sidecar> {
    vec![
        sidecar("aaaa", "Doc.pdf", "ffff", 100, PDF),
        sidecar("ffff", "folder", "", 200, DIR),
    ]
}

fn listing(s: &[Sidecar]) -> Vec<DirEntry> {
    list_dir_metadata("/store", &s.to_vec_sidecars())
}

trait ToVecSidecars {
    fn to_vec_sidecars(&self) -> Vec<Sidecar>;
}

impl ToVecSidecars for [Sidecar] {
    fn to_vec_sidecars(&self) -> Vec<Sidecar> {
        self.iter()
            .map(|s| Sidecar {
                file_name: s.file_name.clone(),
                stat: s.stat,
                record: JsonMetadata {
                    parent: s.record.parent.clone(),
                    visible_name: s.record.visible_name.clone(),
                    doc_type: s.record.doc_type,
                    extra: s.record.extra.clone(),
                },
                payload_sizes: s.payload_sizes,
            })
            .collect()
    }
}

#[test]
fn read_existing_document() {
    let mut fs: RMXFS<u32> = RMXFS::new("/store");
    let l = listing(&store());
    assert_eq!(fs.opendir(1, Some(listing(&store()))), Ok(()));
    let items = fs.readdir(1, 0).ok().unwrap();
    let names: Vec<&str> = items.iter().map(|i| i.name.as_str()).collect();
    assert_eq!(names, vec!["trash", "Doc.pdf"]);
    assert_eq!(items[1].ino, 100);
    assert_eq!(items[1].offset, 2);
    assert_eq!(items[1].kind, FileKind::RegularFile);
    assert_eq!(items[0].kind, FileKind::Directory);
    let rest = fs.readdir(1, 1).ok().unwrap();
    assert_eq!(rest.len(), 1);
    assert_eq!(rest[0].name, "Doc.pdf");
    assert!(fs.readdir(1, 5).ok().unwrap().is_empty());
    assert!(fs.readdir(1, -1).ok().unwrap().is_empty());
    let attr = fs.lookup(1, "Doc.pdf", &l).ok().unwrap();
    assert_eq!(attr.ino, 100);
    assert_eq!(attr.size, 5);
    match fs.open(100, &l) {
        Ok(OpenStep::Load(p)) => assert_eq!(p, "/store/aaaa.pdf"),
        _ => panic!("a first open names the payload"),
    }
    fs.insert_open_file(100, 7);
    assert_eq!(*fs.read(100).ok().unwrap(), 7);
    assert_eq!(read_size(5, 5, 0), 5);
    assert_eq!(fs.read(5).err(), Some(Errno::ENOENT));
}

#[test]
fn lookup_misses() {
    let fs: RMXFS<u32> = RMXFS::new("/store");
    let l = listing(&store());
    assert_eq!(fs.lookup(1, "Doc", &l), Err(Errno::ENOENT));
    assert_eq!(fs.lookup(2, "Doc.pdf", &l), Err(Errno::ENOENT));
    assert_eq!(fs.lookup(1, "trash", &l).map(|a| a.ino), Ok(2));
}

#[test]
fn getattr_sources() {
    let mut fs: RMXFS<u32> = RMXFS::new("/store");
    let l = listing(&store());
    assert_eq!(fs.getattr(1, &l).map(|a| a.ino), Ok(1));
    assert_eq!(fs.getattr(2, &l).map(|a| a.ino), Ok(2));
    assert_eq!(fs.getattr(100, &l).map(|a| a.size), Ok(5));
    assert_eq!(fs.getattr(555, &l), Err(Errno::ENOENT));
    let root = DirEntry::make_root("/store");
    let mut f = DirEntry::create_entry_with_prefix(&root, "new.pdf", 0o644, 0, false, 1, "nnnn".to_string());
    f.attr.ino = 555;
    fs.insert_pending(f, 3);
    assert_eq!(fs.getattr(555, &l).map(|a| a.ino), Ok(555));
}

#[test]
fn create_and_write_pdf() {
    let mut fs: RMXFS<u32> = RMXFS::new("/store");
    let l = listing(&store());
    let parent = fs.create(1, "new.pdf", WRONLY | 0o100, &l).ok().unwrap();
    assert_eq!(parent.attr.ino, 1);
    let mut entry = DirEntry::create_entry_with_prefix(&parent, "new.pdf", 0o644, 0o022, false, 1, "nnnn".to_string());
    entry.attr.ino = 300;
    fs.insert_pending(entry, 9);
    assert_eq!(fs.create(1, "new.pdf", WRONLY, &l).err(), Some(Errno::EEXIST));
    assert!(fs.write(300, 0, b"%PDF-1.4\n%\xe2\xe3\xcf\xd3\n").is_ok());
    assert_eq!(fs.pending_file(300), Some(&9));
    assert!(fs.write(300, 20, b"more").is_ok());
    assert_eq!(fs.getattr(300, &l).map(|a| a.ino), Ok(300));
    let released = fs.release(300).ok().unwrap().unwrap();
    assert_eq!(released.entry_type, EntryType::PDF);
    let plan = released.finalize_pending().ok().unwrap();
    assert_eq!(plan.moves[0].0, "/store/.pending/nnnn");
    assert_eq!(plan.moves[0].1, "/store/nnnn.pdf");
    assert_eq!(plan.moves[1].1, "/store/nnnn.metadata");
    assert_eq!(plan.content, "{\"fileType\":\"pdf\"}");
    assert!(fs.pending_file(300).is_none());
    assert_eq!(released.file_name(), "new.pdf");
    let promoted = listing(&[sidecar("nnnn", "new.pdf", "", 300, [None, Some(9), None])]);
    assert_eq!(fs.lookup(1, "new.pdf", &promoted).map(|a| (a.ino, a.size)), Ok((300, 9)));
    assert!(matches!(fs.release(300), Err(Errno::ENOENT)));
}

#[test]
fn reject_unsupported_content() {
    let mut fs: RMXFS<u32> = RMXFS::new("/store");
    let root = DirEntry::make_root("/store");
    let mut entry = DirEntry::create_entry_with_prefix(&root, "new.pdf", 0o644, 0, false, 1, "nnnn".to_string());
    entry.attr.ino = 300;
    fs.insert_pending(entry, 9);
    match fs.write(300, 0, b"random text") {
        Err(WriteRefusal::Unsupported(paths)) => {
            assert_eq!(paths, vec!["/store/.pending/nnnn", "/store/.pending/nnnn.metadata"]);
        }
        _ => panic!("text is no supported content"),
    }
    assert_eq!(fs.write(300, 0, b"random text").err().map(|e| e.errno()), Some(Errno::ENOSYS));
    let left = fs.release(300).ok().unwrap().unwrap();
    assert_eq!(left.finalize_pending().err(), Some(Errno::EPERM));
    assert_eq!(fs.write(300, 0, b"%PDF-1.4").err().map(|e| e.errno()), Some(Errno::ENOENT));
}

#[test]
fn mkdir_and_populate() {
    let fs: RMXFS<u32> = RMXFS::new("/store");
    let l = listing(&store());
    let parent = fs.mkdir(1, "folder", &l).ok().unwrap();
    assert_eq!(parent.attr.ino, 1);
    let l2 = listing(&store_with_folder());
    let moved = fs.rename(1, "Doc.pdf", 200, "Doc.pdf", &listing(&store())).err();
    assert_eq!(moved, Some(Errno::ENOENT));
    let l3 = {
        let mut s = store();
        s.push(sidecar("ffff", "folder", "", 200, DIR));
        listing(&s)
    };
    let r = fs.rename(1, "Doc.pdf", 200, "Doc.pdf", &l3).ok().unwrap();
    assert_eq!(r.json_metadata.visible_name, "Doc.pdf");
    assert_eq!(r.file_name(), "Doc.pdf");
    assert_eq!(r.parent, "ffff");
    assert_eq!(r.json_metadata.parent, "ffff");
    assert_eq!(r.attr.ino, 100);
    assert_eq!(r.metadata_file_name(), "/store/aaaa.metadata");
    let mut fs2: RMXFS<u32> = RMXFS::new("/store");
    assert_eq!(fs2.opendir(200, Some(l2)), Ok(()));
    let names: Vec<String> = fs2.readdir(200, 0).ok().unwrap().into_iter().map(|i| i.name).collect();
    assert_eq!(names, vec!["Doc.pdf"]);
    assert_eq!(fs2.lookup(200, "Doc.pdf", &listing(&store_with_folder())).map(|a| a.ino), Ok(100));
    let _ = l;
}

#[test]
fn mkdir_refusals() {
    let fs: RMXFS<u32> = RMXFS::new("/store");
    let l = listing(&store());
    assert_eq!(fs.mkdir(1, "Doc.sdr", &l).err(), Some(Errno::ENOSYS));
    assert_eq!(fs.mkdir(999, "folder", &l).err(), Some(Errno::ENOENT));
}

#[test]
fn duplicate_create() {
    let fs: RMXFS<u32> = RMXFS::new("/store");
    let l = listing(&store());
    assert_eq!(fs.create(1, "Doc.pdf", WRONLY, &l).err(), Some(Errno::EEXIST));
    assert_eq!(fs.create(1, "Other.pdf", RDONLY, &l).err(), Some(Errno::EINVAL));
    assert_eq!(fs.create(999, "Other.pdf", WRONLY, &l).err(), Some(Errno::ENOENT));
}

#[test]
fn rmdir_non_empty() {
    let fs: RMXFS<u32> = RMXFS::new("/store");
    let l = listing(&store_with_folder());
    assert_eq!(fs.rmdir(1, "folder", &l), Err(Errno::ENOTEMPTY));
    assert_eq!(fs.rmdir(1, "nothing", &l), Err(Errno::ENOENT));
    assert_eq!(fs.rmdir(200, "Doc.pdf", &l), Err(Errno::ENOENT));
    let doc_only = listing(&[sidecar("aaaa", "Doc", "", 100, PDF)]);
    assert_eq!(fs.rmdir(1, "Doc", &doc_only), Err(Errno::ENOENT));
    let empty = listing(&[sidecar("ffff", "folder", "", 200, DIR)]);
    assert_eq!(fs.rmdir(1, "folder", &empty), Ok("/store/ffff.metadata".to_string()));
}

#[test]
fn unlink_busy_and_plan() {
    let mut fs: RMXFS<u32> = RMXFS::new("/store");
    let l = listing(&store());
    let plan = fs.unlink(1, "Doc.pdf", &l).ok().unwrap();
    assert_eq!(plan.payload, "/store/aaaa.pdf");
    assert_eq!(plan.sidecar, "/store/aaaa.metadata");
    assert_eq!(plan.marker, "/store/aaaa.content");
    fs.insert_open_file(100, 1);
    assert_eq!(fs.unlink(1, "Doc.pdf", &l).err(), Some(Errno::EBUSY));
    assert_eq!(fs.unlink(1, "Doc", &l).err(), Some(Errno::ENOENT));
}

#[test]
fn balanced_opens_leave_no_handle() {
    let mut fs: RMXFS<u32> = RMXFS::new("/store");
    let l = listing(&store());
    assert!(matches!(fs.open(100, &l), Ok(OpenStep::Load(_))));
    fs.insert_open_file(100, 4);
    assert!(matches!(fs.open(100, &l), Ok(OpenStep::Shared)));
    assert!(matches!(fs.open(100, &l), Ok(OpenStep::Shared)));
    assert!(fs.can_open_file(100));
    assert!(matches!(fs.release(100), Ok(None)));
    assert!(fs.read(100).is_ok());
    assert!(matches!(fs.release(100), Ok(None)));
    assert!(matches!(fs.release(100), Ok(None)));
    assert!(fs.read(100).is_err());
    assert!(matches!(fs.release(100), Err(Errno::ENOENT)));
    assert!(matches!(fs.open(555, &l), Err(Errno::ENOENT)));

    assert_eq!(fs.opendir(1, Some(listing(&store()))), Ok(()));
    assert_eq!(fs.opendir(1, None), Ok(()));
    assert!(fs.can_open_dir(1));
    assert_eq!(fs.releasedir(1), Ok(()));
    assert!(fs.readdir(1, 0).is_ok());
    assert_eq!(fs.releasedir(1), Ok(()));
    assert_eq!(fs.readdir(1, 0).err(), Some(Errno::ENOENT));
    assert_eq!(fs.releasedir(1), Err(Errno::ENOENT));
}

#[test]
fn opendir_failures() {
    let mut fs: RMXFS<u32> = RMXFS::new("/store");
    assert_eq!(fs.opendir(1, None), Err(Errno::ENOENT));
    assert_eq!(fs.opendir(100, None), Err(Errno::ENOENT));
    assert_eq!(fs.opendir(999, Some(listing(&store()))), Err(Errno::ENOENT));
}

#[test]
fn read_sizes() {
    assert_eq!(read_size(4096, 5, 0), 5);
    assert_eq!(read_size(2, 5, 1), 2);
    assert_eq!(read_size(10, 5, 3), 2);
    assert_eq!(read_size(10, 5, 5), 0);
    assert_eq!(read_size(10, 5, -1), 0);
    assert_eq!(read_size(u32::MAX, 1 << 40, 0), u32::MAX);
}

#[test]
fn first_match_queries() {
    let l = listing(&store_with_folder());
    assert_eq!(find_first(&Query::Ino(200), &l), Some(2));
    assert_eq!(find_first(&Query::ChildOf("ffff".to_string()), &l), Some(1));
    assert_eq!(find_first(&Query::Folder("".to_string(), "folder".to_string()), &l), Some(2));
    assert_eq!(find_first(&Query::Folder("ffff".to_string(), "Doc.pdf".to_string()), &l), None);
    assert_eq!(find_first(&Query::Shown(200, "Doc.pdf".to_string()), &l), Some(1));
    assert_eq!(find_first(&Query::ShownIn("".to_string(), "Doc.pdf".to_string()), &l), None);
}

#[test]
fn folder_named_dot_is_no_root() {
    let mut fs: RMXFS<u32> = RMXFS::new("/store");
    let s = vec![
        sidecar("dddd", ".", "", 400, DIR),
        sidecar("aaaa", "Doc", "", 100, PDF),
    ];
    assert_eq!(fs.opendir(400, Some(listing(&s))), Ok(()));
    assert!(fs.readdir(400, 0).ok().unwrap().is_empty());
    assert_eq!(fs.opendir(1, Some(listing(&s))), Ok(()));
    let names: Vec<String> = fs.readdir(1, 0).ok().unwrap().into_iter().map(|i| i.name).collect();
    assert_eq!(names, vec!["trash", ".", "Doc.pdf"]);
}
