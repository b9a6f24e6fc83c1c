use rmxfs::direntry::{
    determine_entry_type, entry_type_ext, ext_entry_type, file_stem, path_join, root_dir_attr,
    DirEntry, EntryType, FileKind, ROOT_PERM, TRASH_INO,
};
use rmxfs::errno::Errno;
use rmxfs::jsonmetadata::{decimal_string, DocType, JsonMetadata};
use rmxfs::scanner::{
    conv_attr, is_sidecar_name, list_dir_metadata, probe_paths, secs_to_systime, Sidecar, Stat,
};

fn stat(ino: u64) -> Stat {
    Stat {
        ino,
        size: 80,
        blocks: 8,
        atime: 100,
        mtime: -5,
        ctime: 0,
        crtime: secs_to_systime(7),
        is_dir: false,
        mode: 0o100644,
        uid: 1000,
        gid: 1000,
        rdev: 0,
        blksize: 4096,
    }
}

fn record(name: &str, parent: &str) -> JsonMetadata {
    JsonMetadata {
        parent: parent.to_string(),
        visible_name: name.to_string(),
        doc_type: DocType::DocumentType,
        extra: vec![("pinned".to_string(), "true".to_string())],
    }
}

fn pdf_entry(prefix: &str, name: &str, parent: &str, ino: u64) -> DirEntry {
    let sc = Sidecar {
        file_name: format!("{}.metadata", prefix),
        stat: stat(ino),
        record: record(name, parent),
        payload_sizes: [None, Some(5), None],
    };
    let attr = conv_attr(&sc.stat);
    DirEntry::new("/store", &sc.file_name, &attr, &sc.record, &sc.payload_sizes)
}

#[test]
fn extensions_of_types() {
    assert_eq!(entry_type_ext(&EntryType::EPUB), "epub");
    assert_eq!(entry_type_ext(&EntryType::PDF), "pdf");
    assert_eq!(entry_type_ext(&EntryType::RMLINES), "rm");
    assert_eq!(entry_type_ext(&EntryType::PENDING), "");
    assert_eq!(entry_type_ext(&EntryType::NONE), "");
}

#[test]
fn types_of_extensions() {
    assert_eq!(*ext_entry_type("epub"), EntryType::EPUB);
    assert_eq!(*ext_entry_type("pdf"), EntryType::PDF);
    assert_eq!(*ext_entry_type("rm"), EntryType::RMLINES);
    assert_eq!(*ext_entry_type("png"), EntryType::NONE);
    assert_eq!(*ext_entry_type(""), EntryType::NONE);
}

#[test]
fn first_payload_wins() {
    assert_eq!(determine_entry_type(&[Some(3), Some(9), None]), (EntryType::EPUB, 3));
    assert_eq!(determine_entry_type(&[None, Some(9), Some(1)]), (EntryType::PDF, 9));
    assert_eq!(determine_entry_type(&[None, None, Some(1)]), (EntryType::RMLINES, 1));
    assert_eq!(determine_entry_type(&[None, None, None]), (EntryType::NONE, 0));
}

#[test]
fn joins_and_stems() {
    assert_eq!(path_join("/store", "a"), "/store/a");
    assert_eq!(path_join("/store/", "a"), "/store/a");
    assert_eq!(path_join("", "a"), "a");
    assert_eq!(file_stem("abc.metadata"), "abc");
    assert_eq!(file_stem("a.b.metadata"), "a.b");
    assert_eq!(file_stem(".hidden"), ".hidden");
    assert_eq!(file_stem("plain"), "plain");
}

#[test]
fn decimal_notation() {
    assert_eq!(decimal_string(0), "0");
    assert_eq!(decimal_string(7), "7");
    assert_eq!(decimal_string(1700000000123), "1700000000123");
    assert_eq!(decimal_string(u64::MAX), "18446744073709551615");
}

#[test]
fn new_file_record_defaults() {
    let r = JsonMetadata::new_file("Doc", "p1", 1234);
    assert_eq!(r.visible_name, "Doc");
    assert_eq!(r.parent, "p1");
    assert_eq!(r.doc_type, DocType::DocumentType);
    let keys: Vec<(&str, &str)> = r.extra.iter().map(|(k, v)| (k.as_str(), v.as_str())).collect();
    assert_eq!(
        keys,
        vec![
            ("deleted", "false"),
            ("lastModified", "1234"),
            ("metadatamodified", "false"),
            ("modified", "false"),
            ("pinned", "false"),
            ("synced", "false"),
            ("version", "0"),
        ]
    );
    let d = JsonMetadata::new_dir("Folder", "");
    assert_eq!(d.doc_type, DocType::CollectionType);
    assert!(d.extra.is_empty());
}

#[test]
fn sidecar_names() {
    assert!(is_sidecar_name("aaaa.metadata"));
    assert!(!is_sidecar_name("aaaa.pdf"));
    assert!(!is_sidecar_name(".metadata"));
    assert!(!is_sidecar_name(".x.metadata"));
    assert!(!is_sidecar_name("metadata"));
}

#[test]
fn stat_to_attributes() {
    let a = conv_attr(&stat(42));
    assert_eq!(a.ino, 42);
    assert_eq!(a.perm, 0o100644u32 as u16);
    assert_eq!(a.nlink, 1);
    assert_eq!(a.kind, FileKind::RegularFile);
    assert_eq!(a.atime.secs, 100);
    assert!(!a.atime.before_epoch);
    assert!(a.mtime.before_epoch);
    assert_eq!(a.mtime.secs, 5);
    assert_eq!(a.crtime.secs, 7);
    let t = secs_to_systime(i64::MIN);
    assert!(t.before_epoch);
    assert_eq!(t.secs, 1u64 << 63);
}

#[test]
fn probes_in_order() {
    assert_eq!(
        probe_paths("/store", "aaaa.metadata"),
        vec!["/store/aaaa.epub", "/store/aaaa.pdf", "/store/aaaa.rm"]
    );
}

#[test]
fn read_existing_document_listing() {
    let sidecars = vec![Sidecar {
        file_name: "aaaa.metadata".to_string(),
        stat: stat(77),
        record: record("Doc", ""),
        payload_sizes: [None, Some(5), None],
    }];
    let listing = list_dir_metadata("/store", &sidecars);
    let names: Vec<String> = listing.iter().map(|e| e.file_name()).collect();
    assert_eq!(names, vec!["trash", "Doc.pdf"]);
    assert_eq!(listing[0].attr.ino, TRASH_INO);
    let doc = &listing[1];
    assert_eq!(doc.prefix, "aaaa");
    assert_eq!(doc.attr.ino, 77);
    assert_eq!(doc.attr.size, 5);
    assert_eq!(doc.attr.perm, ROOT_PERM);
    assert_eq!(doc.attr.kind, FileKind::RegularFile);
    assert_eq!(doc.source_file_path(), "/store/aaaa.pdf");
    assert_eq!(doc.metadata_file_name(), "/store/aaaa.metadata");
    assert_eq!(doc.content_file_path(), "/store/aaaa.content");
}

#[test]
fn folder_entry_has_no_extension() {
    let sc = Sidecar {
        file_name: "ffff.metadata".to_string(),
        stat: stat(9),
        record: record("Folder", ""),
        payload_sizes: [None, None, None],
    };
    let e = DirEntry::new("/store", &sc.file_name, &conv_attr(&sc.stat), &sc.record, &sc.payload_sizes);
    assert_eq!(e.entry_type, EntryType::NONE);
    assert_eq!(e.attr.kind, FileKind::Directory);
    assert_eq!(e.file_name(), "Folder");
    assert_eq!(e.source_file_path(), "/store/ffff");
}

#[test]
fn shown_names_keep_their_extension() {
    assert_eq!(pdf_entry("aaaa", "Doc.pdf", "", 1).file_name(), "Doc.pdf");
    assert_eq!(pdf_entry("aaaa", "Doc", "", 1).file_name(), "Doc.pdf");
    assert_eq!(pdf_entry("aaaa", "notes.txt", "", 1).file_name(), "notes.txt.pdf");
    assert_eq!(pdf_entry("aaaa", "Doc.PDF", "", 1).file_name(), "Doc.PDF.pdf");
    assert_eq!(pdf_entry("aaaa", "pdf", "", 1).file_name(), "pdf.pdf");
    assert_eq!(pdf_entry("aaaa", ".pdf", "", 1).file_name(), ".pdf");
}

#[test]
fn synthetic_entries() {
    let root = DirEntry::make_root("/store");
    assert_eq!(root.attr, root_dir_attr());
    assert_eq!(root.attr.ino, 1);
    let trash = DirEntry::make_trash("/store");
    assert_eq!(trash.attr.ino, 2);
    assert_eq!(trash.prefix, "trash");
    assert_eq!(trash.file_name(), "trash");
}

#[test]
fn parents_and_parent_inodes() {
    let root = DirEntry::make_root("/store");
    let folder = {
        let sc = Sidecar {
            file_name: "ffff.metadata".to_string(),
            stat: stat(30),
            record: record("Folder", ""),
            payload_sizes: [None, None, None],
        };
        DirEntry::new("/store", &sc.file_name, &conv_attr(&sc.stat), &sc.record, &sc.payload_sizes)
    };
    let doc = pdf_entry("aaaa", "Doc", "ffff", 31);
    let top = pdf_entry("bbbb", "Top", "", 32);
    let binned = pdf_entry("cccc", "Old", "trash", 33);
    let lost = pdf_entry("dddd", "Lost", "gone", 34);
    let listing = vec![DirEntry::make_trash("/store"), folder, top];
    assert!(doc.is_parent(&listing[1]));
    let mut dot = pdf_entry("eeee", ".", "", 35);
    dot.entry_type = EntryType::NONE;
    assert!(!listing[2].is_parent(&dot));
    assert!(listing[2].is_parent(&root));
    assert!(!doc.is_parent(&root));
    assert!(listing[2].is_parent(&root));
    assert_eq!(doc.parent_inode(&listing), 30);
    assert_eq!(listing[2].parent_inode(&listing), 1);
    assert_eq!(binned.parent_inode(&listing), 2);
    assert_eq!(lost.parent_inode(&listing), 1);
}

#[test]
fn new_entries_get_fresh_prefixes() {
    let root = DirEntry::make_root("/store");
    let d = DirEntry::make_dir(&root, "Folder", 0o777, 0o022);
    assert_eq!(d.prefix.len(), 36);
    assert_eq!(d.prefix.chars().filter(|c| *c == '-').count(), 4);
    assert_eq!(d.entry_type, EntryType::NONE);
    assert_eq!(d.attr.perm, 0o755);
    assert_eq!(d.attr.ino, 0);
    assert_eq!(d.metadata_file_name(), format!("/store/{}.metadata", d.prefix));
    let f = DirEntry::make_file(&d, "new", 0o666, 0o022, 99);
    assert_ne!(f.prefix, d.prefix);
    assert_eq!(f.entry_type, EntryType::PENDING);
    assert_eq!(f.parent, d.prefix);
    assert_eq!(f.attr.perm, 0o644);
    assert_eq!(f.attr.kind, FileKind::RegularFile);
    assert_eq!(f.json_metadata.parent, d.prefix);
    assert_eq!(f.source_file_path(), format!("/store/.pending/{}", f.prefix));
    assert_eq!(f.metadata_file_name(), format!("/store/.pending/{}.metadata", f.prefix));
    assert_eq!(f.file_name(), "new");
}

#[test]
fn entry_with_prefix_is_exact() {
    let root = DirEntry::make_root("/store");
    let f = DirEntry::create_entry_with_prefix(&root, "new", 0o600, 0, false, 5, "pppp".to_string());
    assert_eq!(f.prefix, "pppp");
    assert_eq!(f.metadata_file_name(), "/store/.pending/pppp.metadata");
    assert_eq!(f.json_metadata.extra[1].1, "5");
}

#[test]
fn sniffing_sets_pdf() {
    let root = DirEntry::make_root("/store");
    let mut f = DirEntry::create_entry_with_prefix(&root, "new", 0o600, 0, false, 5, "pppp".to_string());
    assert_eq!(f.update_type(b"%PDF-1.4\n%\xe2\xe3\xcf\xd3\n"), Ok(()));
    assert_eq!(f.entry_type, EntryType::PDF);
    assert_eq!(f.file_name(), "new.pdf");
    assert_eq!(f.source_file_path(), "/store/pppp.pdf");
    let mut g = DirEntry::create_entry_with_prefix(&root, "new.pdf", 0o600, 0, false, 5, "qqqq".to_string());
    assert_eq!(g.file_name(), "new.pdf");
    g.update_type(b"%PDF-1.4\n").unwrap();
    assert_eq!(g.file_name(), "new.pdf");
}

#[test]
fn sniffing_refuses_text() {
    let root = DirEntry::make_root("/store");
    let mut f = DirEntry::create_entry_with_prefix(&root, "new", 0o600, 0, false, 5, "pppp".to_string());
    assert_eq!(f.update_type(b"random text"), Err("unknown"));
    assert_eq!(f.entry_type, EntryType::PENDING);
    let mut g = DirEntry::create_entry_with_prefix(&root, "img", 0o600, 0, false, 5, "qqqq".to_string());
    assert_eq!(g.update_type(b"\x89PNG\r\n\x1a\n0000"), Err("png"));
    assert_eq!(g.entry_type, EntryType::PENDING);
}

#[test]
fn applying_sniffed_extensions() {
    let root = DirEntry::make_root("/store");
    let mut f = DirEntry::create_entry_with_prefix(&root, "new", 0o600, 0, false, 5, "pppp".to_string());
    assert_eq!(f.apply_sniffed_type(Some("epub")), Ok(()));
    assert_eq!(f.entry_type, EntryType::EPUB);
    assert_eq!(f.apply_sniffed_type(Some("zip")), Err("zip"));
    assert_eq!(f.entry_type, EntryType::EPUB);
    assert_eq!(f.apply_sniffed_type(None), Err("unknown"));
    assert_eq!(f.apply_sniffed_type(Some("rm")), Ok(()));
    assert_eq!(f.entry_type, EntryType::RMLINES);
}

#[test]
fn promotion_plan() {
    let root = DirEntry::make_root("/store");
    let mut f = DirEntry::create_entry_with_prefix(&root, "new", 0o600, 0, false, 5, "pppp".to_string());
    assert!(matches!(f.finalize_pending(), Err(Errno::EPERM)));
    f.apply_sniffed_type(Some("pdf")).unwrap();
    let p = f.finalize_pending().ok().unwrap();
    assert_eq!(
        p.moves,
        vec![
            ("/store/.pending/pppp".to_string(), "/store/pppp.pdf".to_string()),
            ("/store/.pending/pppp.metadata".to_string(), "/store/pppp.metadata".to_string()),
        ]
    );
    assert_eq!(p.content_path, "/store/pppp.content");
    assert_eq!(p.content, "{\"fileType\":\"pdf\"}");
    let folder = DirEntry::make_dir(&root, "Folder", 0o777, 0);
    assert!(matches!(folder.finalize_pending(), Err(Errno::EPERM)));
}

#[test]
fn forgetting_staged_files() {
    let root = DirEntry::make_root("/store");
    let f = DirEntry::create_entry_with_prefix(&root, "new", 0o600, 0, false, 5, "pppp".to_string());
    assert_eq!(
        f.forget_pending(),
        vec!["/store/.pending/pppp", "/store/.pending/pppp.metadata"]
    );
}

#[test]
fn rename_keeps_identity() {
    let doc = pdf_entry("aaaa", "Doc", "", 77);
    let root = DirEntry::make_root("/store");
    let folder = DirEntry::create_entry_with_prefix(&root, "folder", 0o777, 0, true, 0, "ffff".to_string());
    let moved = doc.rename(&folder, "Renamed");
    assert_eq!(moved.name, "Renamed");
    assert_eq!(moved.parent, "ffff");
    assert_eq!(moved.prefix, "aaaa");
    assert_eq!(moved.attr, doc.attr);
    assert_eq!(moved.metadata_file_name(), doc.metadata_file_name());
    assert_eq!(moved.json_metadata.visible_name, "Renamed");
    assert_eq!(moved.json_metadata.parent, "ffff");
    assert_eq!(moved.json_metadata.extra, doc.json_metadata.extra);
    assert_eq!(moved.file_name(), "Renamed.pdf");
    let again = doc.rename(&folder, "Again.pdf");
    assert_eq!(again.file_name(), "Again.pdf");
}
