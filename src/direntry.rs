use vstd::prelude::*;

use crate::errno::Errno;
use crate::jsonmetadata::{default_tail, DocType, JsonMetadata};

verus! {

/// What an entry holds: one of the three payload kinds, a file still being
/// ingested, or a directory.
#[derive(Eq, Hash, Debug, Copy, Clone, PartialEq, Structural)]
pub enum EntryType {
    PDF,
    EPUB,
    RMLINES,
    PENDING,
    NONE,
}

/// The payload extension of a type; empty for a directory or a pending file.
pub open spec fn ext_of(t: EntryType) -> Seq<char> {
    match t {
        EntryType::EPUB => seq!['e', 'p', 'u', 'b'],
        EntryType::PDF => seq!['p', 'd', 'f'],
        EntryType::RMLINES => seq!['r', 'm'],
        _ => Seq::empty(),
    }
}

/// The type whose payload extension is `ext`; `NONE` for any other text.
pub open spec fn type_of_ext(ext: Seq<char>) -> EntryType {
    if ext == seq!['e', 'p', 'u', 'b'] {
        EntryType::EPUB
    } else if ext == seq!['p', 'd', 'f'] {
        EntryType::PDF
    } else if ext == seq!['r', 'm'] {
        EntryType::RMLINES
    } else {
        EntryType::NONE
    }
}

/// The payload types in the order in which a payload file is probed.
pub open spec fn probe_order() -> Seq<EntryType> {
    seq![EntryType::EPUB, EntryType::PDF, EntryType::RMLINES]
}

pub fn entry_type_ext(e: &EntryType) -> (r: &'static str)
    ensures
        r@ == ext_of(*e),
{
    proof {
        reveal_strlit("epub");
        reveal_strlit("pdf");
        reveal_strlit("rm");
        reveal_strlit("");
    }
    match e {
        EntryType::EPUB => "epub",
        EntryType::PDF => "pdf",
        EntryType::RMLINES => "rm",
        _ => "",
    }
}

/// Whether two strings hold the same characters.
pub fn str_eq(a: &str, b: &str) -> (r: bool)
    ensures
        r == (a@ == b@),
{
    let n = a.unicode_len();
    if n != b.unicode_len() {
        return false;
    }
    let mut i: usize = 0;
    while i < n
        invariant
            n == a@.len(),
            n == b@.len(),
            i <= n,
            a@.subrange(0, i as int) == b@.subrange(0, i as int),
        decreases n - i,
    {
        if a.get_char(i) != b.get_char(i) {
            return false;
        }
        proof {
            assert(a@.subrange(0, i + 1) == a@.subrange(0, i as int).push(a@[i as int]));
            assert(b@.subrange(0, i + 1) == b@.subrange(0, i as int).push(b@[i as int]));
        }
        i = i + 1;
    }
    proof {
        assert(a@ == a@.subrange(0, n as int));
        assert(b@ == b@.subrange(0, n as int));
    }
    true
}

pub fn ext_entry_type(ext: &str) -> (r: &'static EntryType)
    ensures
        *r == type_of_ext(ext@),
{
    proof {
        reveal_strlit("epub");
        reveal_strlit("pdf");
        reveal_strlit("rm");
    }
    assert("epub"@ == seq!['e', 'p', 'u', 'b']);
    assert("pdf"@ == seq!['p', 'd', 'f']);
    assert("rm"@ == seq!['r', 'm']);
    if str_eq(ext, "epub") {
        &EntryType::EPUB
    } else if str_eq(ext, "pdf") {
        &EntryType::PDF
    } else if str_eq(ext, "rm") {
        &EntryType::RMLINES
    } else {
        &EntryType::NONE
    }
}


/// What the kernel is told an entry is.
#[derive(Debug, Copy, Clone, PartialEq, Eq, Structural)]
pub enum FileKind {
    Directory,
    RegularFile,
}

/// A point in time, as a distance from the Unix epoch in either direction.
#[derive(Debug, Copy, Clone, PartialEq, Eq, Structural)]
pub struct SysTime {
    pub before_epoch: bool,
    pub secs: u64,
    pub nanos: u32,
}

/// The attributes reported for an entry.
#[derive(Debug, Copy, Clone, PartialEq, Eq, Structural)]
pub struct Attr {
    pub ino: u64,
    pub size: u64,
    pub blocks: u64,
    pub atime: SysTime,
    pub mtime: SysTime,
    pub ctime: SysTime,
    pub crtime: SysTime,
    pub kind: FileKind,
    pub perm: u16,
    pub nlink: u32,
    pub uid: u32,
    pub gid: u32,
    pub rdev: u32,
    pub flags: u32,
    pub blksize: u32,
}

/// The inode of the synthetic root.
pub const ROOT_INO: u64 = 1;

/// The inode of the synthetic trash folder.
pub const TRASH_INO: u64 = 2;

/// How long, in seconds, the kernel may keep a reply.
pub const DEFAULT_TTL_SECS: u64 = 1;

/// The permission bits given to every entry read from the store.
pub const ROOT_PERM: u16 = 0o755;

pub open spec fn spec_epoch() -> SysTime {
    SysTime { before_epoch: false, secs: 0, nanos: 0 }
}

/// The attributes of the synthetic root.
pub open spec fn spec_root_attr() -> Attr {
    Attr {
        ino: ROOT_INO,
        size: 0,
        blocks: 0,
        atime: spec_epoch(),
        mtime: spec_epoch(),
        ctime: spec_epoch(),
        crtime: spec_epoch(),
        kind: FileKind::Directory,
        perm: ROOT_PERM,
        nlink: 2,
        uid: 501,
        gid: 20,
        rdev: 0,
        flags: 0,
        blksize: 512,
    }
}

pub fn root_dir_attr() -> (r: Attr)
    ensures
        r == spec_root_attr(),
{
    let epoch = SysTime { before_epoch: false, secs: 0, nanos: 0 };
    Attr {
        ino: ROOT_INO,
        size: 0,
        blocks: 0,
        atime: epoch,
        mtime: epoch,
        ctime: epoch,
        crtime: epoch,
        kind: FileKind::Directory,
        perm: ROOT_PERM,
        nlink: 2,
        uid: 501,
        gid: 20,
        rdev: 0,
        flags: 0,
        blksize: 512,
    }
}

/// `name` placed inside the directory `dir`.
pub open spec fn join(dir: Seq<char>, name: Seq<char>) -> Seq<char> {
    if dir.len() == 0 {
        name
    } else if dir.last() == '/' {
        dir + name
    } else {
        dir + seq!['/'] + name
    }
}

/// `p` with the extension `ext`; `p` itself for an empty extension.
pub open spec fn with_ext(p: Seq<char>, ext: Seq<char>) -> Seq<char> {
    if ext.len() == 0 {
        p
    } else {
        p + seq!['.'] + ext
    }
}

/// The position of the last dot of `s`, or -1.
pub open spec fn last_dot(s: Seq<char>) -> int
    decreases s.len(),
{
    if s.len() == 0 {
        -1
    } else if s.last() == '.' {
        s.len() - 1
    } else {
        last_dot(s.drop_last())
    }
}

/// Whether `name` ends in a dot followed by the non-empty `ext`.
pub open spec fn has_ext(name: Seq<char>, ext: Seq<char>) -> bool {
    &&& ext.len() > 0
    &&& name.len() > ext.len()
    &&& name.subrange(name.len() - ext.len() - 1, name.len() as int) == seq!['.'] + ext
}

/// `name` shown with the extension `ext`: as it is when the extension is
/// empty or already ends the name, else with `.<ext>` added.
pub open spec fn shown_name(name: Seq<char>, ext: Seq<char>) -> Seq<char> {
    if ext.len() == 0 || has_ext(name, ext) {
        name
    } else {
        name + seq!['.'] + ext
    }
}

pub fn ends_with_ext(name: &str, ext: &str) -> (r: bool)
    ensures
        r == has_ext(name@, ext@),
{
    let n = name.unicode_len();
    let m = ext.unicode_len();
    if m == 0 || n <= m {
        return false;
    }
    proof {
        reveal_strlit(".");
    }
    let mut dotted = String::from_str(".");
    dotted.append(ext);
    assert(dotted@ =~= seq!['.'] + ext@);
    str_eq(name.substring_char(n - m - 1, n), dotted.as_str())
}

/// A file name without its final extension; a name whose only dot leads it
/// is its own stem.
pub open spec fn stem(s: Seq<char>) -> Seq<char> {
    if last_dot(s) > 0 {
        s.subrange(0, last_dot(s))
    } else {
        s
    }
}

pub fn path_join(dir: &str, name: &str) -> (r: String)
    ensures
        r@ == join(dir@, name@),
{
    let n = dir.unicode_len();
    if n == 0 {
        return String::from_str(name);
    }
    let mut r = String::from_str(dir);
    if dir.get_char(n - 1) != '/' {
        proof {
            reveal_strlit("/");
        }
        r.append("/");
    }
    r.append(name);
    r
}

pub fn path_with_ext(p: String, ext: &str) -> (r: String)
    ensures
        r@ == with_ext(p@, ext@),
{
    if ext.unicode_len() == 0 {
        return p;
    }
    let mut r = p;
    proof {
        reveal_strlit(".");
    }
    r.append(".");
    r.append(ext);
    r
}

pub proof fn lemma_last_dot_prefix(s: Seq<char>, k: int)
    requires
        0 <= k <= s.len(),
        forall|j: int| k <= j < s.len() ==> s[j] != '.',
    ensures
        last_dot(s) == last_dot(s.subrange(0, k)),
    decreases s.len(),
{
    if s.len() > k {
        assert(s.drop_last() == s.subrange(0, s.len() - 1));
        assert(s.drop_last().subrange(0, k) == s.subrange(0, k));
        lemma_last_dot_prefix(s.drop_last(), k);
    } else {
        assert(s.subrange(0, k) == s);
    }
}

pub fn file_stem(name: &str) -> (r: String)
    ensures
        r@ == stem(name@),
{
    let n = name.unicode_len();
    let mut i: usize = n;
    while i > 0
        invariant
            n == name@.len(),
            i <= n,
            forall|j: int| i <= j < n ==> name@[j] != '.',
        decreases i,
    {
        if name.get_char(i - 1) == '.' {
            proof {
                lemma_last_dot_prefix(name@, i as int);
                assert(name@.subrange(0, i as int).last() == '.');
            }
            if i - 1 > 0 {
                return String::from_str(name.substring_char(0, i - 1));
            } else {
                return String::from_str(name);
            }
        }
        i = i - 1;
    }
    proof {
        lemma_last_dot_prefix(name@, 0);
    }
    String::from_str(name)
}


/// The type and payload size given by the sizes of `<prefix>.epub`,
/// `<prefix>.pdf` and `<prefix>.rm`, in that order: the first that exists
/// wins, and none means a directory.
pub open spec fn first_payload(sizes: Seq<Option<u64>>) -> (EntryType, u64) {
    if sizes[0] is Some {
        (EntryType::EPUB, sizes[0]->0)
    } else if sizes[1] is Some {
        (EntryType::PDF, sizes[1]->0)
    } else if sizes[2] is Some {
        (EntryType::RMLINES, sizes[2]->0)
    } else {
        (EntryType::NONE, 0)
    }
}

pub fn determine_entry_type(sizes: &[Option<u64>; 3]) -> (r: (EntryType, u64))
    ensures
        r == first_payload(sizes@),
{
    let mut i: usize = 0;
    while i < 3
        invariant
            i <= 3,
            sizes@.len() == 3,
            forall|j: int| 0 <= j < i ==> sizes@[j] is None,
        decreases 3 - i,
    {
        match sizes[i] {
            Some(sz) => {
                let tp = if i == 0 {
                    EntryType::EPUB
                } else if i == 1 {
                    EntryType::PDF
                } else {
                    EntryType::RMLINES
                };
                return (tp, sz);
            },
            None => {},
        }
        i = i + 1;
    }
    (EntryType::NONE, 0)
}

/// The staging folder of the store at `root`.
pub open spec fn staging_dir(root: Seq<char>) -> Seq<char> {
    join(root, ".pending"@)
}

/// The text of a freshly generated prefix: 36 characters, lowercase
/// hexadecimal digits in five groups parted by hyphens.
pub open spec fn is_uuid_text(s: Seq<char>) -> bool {
    &&& s.len() == 36
    &&& forall|i: int|
        0 <= i < 36 ==> if i == 8 || i == 13 || i == 18 || i == 23 {
            s[i] == '-'
        } else {
            ('0' <= #[trigger] s[i] <= '9') || ('a' <= s[i] <= 'f')
        }
}

/// Relies on uuid's `Uuid::new_v4` for a random identifier and on its
/// hyphenated form, whose text is 36 lowercase hexadecimal digits and hyphens
/// in the 8-4-4-4-12 layout.
#[verifier::external_body]
fn new_prefix() -> (r: String)
    ensures
        is_uuid_text(r@),
{
    uuid::Uuid::new_v4().to_hyphenated().to_string()
}

/// The extension that content sniffing finds for `buf`, if any.
pub uninterp spec fn sniffed_ext(buf: Seq<u8>) -> Option<Seq<char>>;

/// Relies on `infer::get`, which returns the type of the first matcher that
/// recognises the bytes, and on `Type::extension`, that type's extension.
#[verifier::external_body]
fn sniff(buf: &[u8]) -> (r: Option<&'static str>)
    ensures
        match r {
            Some(e) => sniffed_ext(buf@) == Some(e@),
            None => sniffed_ext(buf@) is None,
        },
{
    match infer::get(buf) {
        Some(t) => Some(t.extension()),
        None => None,
    }
}

/// The body of the content marker of a payload of type `t`.
pub open spec fn content_marker(t: EntryType) -> Seq<char> {
    "{\"fileType\":\""@ + ext_of(t) + "\"}"@
}

/// The file moves and the content marker that promote a staged entry into
/// the live store.
pub struct Promotion {
    pub moves: Vec<(String, String)>,
    pub content_path: String,
    pub content: String,
}

/// An entry of the mounted view.
#[derive(Debug)]
pub struct DirEntry {
    pub root_path: String,
    pub prefix: String,
    pub entry_type: EntryType,
    pub name: String,
    pub parent: String,
    pub attr: Attr,
    pub json_metadata: JsonMetadata,
}

impl DirEntry {
    /// `r` is a fresh entry named `name` in `parent_dir`, made from `mode` and
    /// `umask`, a folder when `is_dir` and else a file being ingested whose
    /// record was last changed at `modtime`; its inode is not known yet.
    pub open spec fn is_new_entry(
        r: DirEntry,
        parent_dir: DirEntry,
        name: Seq<char>,
        mode: u32,
        umask: u32,
        is_dir: bool,
        modtime: u64,
    ) -> bool {
        &&& r.root_path@ == parent_dir.root_path@
        &&& r.entry_type == if is_dir {
            EntryType::NONE
        } else {
            EntryType::PENDING
        }
        &&& r.name@ == name
        &&& r.parent@ == parent_dir.prefix@
        &&& r.attr == (Attr {
            ino: 0,
            perm: #[verifier::truncate] ((mode & !umask) as u16),
            kind: if is_dir {
                FileKind::Directory
            } else {
                FileKind::RegularFile
            },
            ..spec_root_attr()
        })
        &&& r.json_metadata@ == (
            parent_dir.prefix@,
            name,
            if is_dir {
                DocType::CollectionType
            } else {
                DocType::DocumentType
            },
            if is_dir {
                Seq::empty()
            } else {
                default_tail(modtime)
            },
        )
        &&& r.json_metadata.wf()
    }

    /// `r` is the entry read from the sidecar `file_name` in `root_path`,
    /// whose attributes are `attr`, whose record is `json`, and whose payload
    /// probes found `sizes`.
    pub open spec fn is_read_from(
        r: DirEntry,
        root_path: Seq<char>,
        file_name: Seq<char>,
        attr: Attr,
        json: (Seq<char>, Seq<char>, DocType, Seq<(Seq<char>, Seq<char>)>),
        sizes: Seq<Option<u64>>,
    ) -> bool {
        &&& r.root_path@ == root_path
        &&& r.prefix@ == stem(file_name)
        &&& (r.entry_type, r.attr.size) == first_payload(sizes)
        &&& r.name@ == json.1
        &&& r.parent@ == json.0
        &&& r.attr == (Attr {
            size: r.attr.size,
            kind: if r.entry_type == EntryType::NONE {
                FileKind::Directory
            } else {
                FileKind::RegularFile
            },
            perm: ROOT_PERM,
            ..attr
        })
        &&& r.json_metadata@ == json
    }

    /// `r` is the synthetic trash folder of the store at `root_path`.
    pub open spec fn is_trash(r: DirEntry, root_path: Seq<char>) -> bool {
        &&& r.root_path@ == root_path
        &&& r.prefix@ == "trash"@
        &&& r.entry_type == EntryType::NONE
        &&& r.name@ == "trash"@
        &&& r.parent@.len() == 0
        &&& r.attr == (Attr { ino: TRASH_INO, ..spec_root_attr() })
    }

    /// `r` is `e` with `newname` as its name and `newparent` as its parent
    /// prefix, in its fields and in its record; all else stays.
    pub open spec fn is_renamed(r: DirEntry, e: DirEntry, newparent: Seq<char>, newname: Seq<char>) -> bool {
        &&& r.name@ == newname
        &&& r.parent@ == newparent
        &&& r.root_path == e.root_path
        &&& r.prefix == e.prefix
        &&& r.entry_type == e.entry_type
        &&& r.attr == e.attr
        &&& r.json_metadata@ == (newparent, newname, e.json_metadata.doc_type, e.json_metadata@.3)
    }

    /// `r` holds the same fields as `self`, its record as a copy.
    pub open spec fn same_as(&self, r: DirEntry) -> bool {
        &&& r.root_path == self.root_path
        &&& r.prefix == self.prefix
        &&& r.entry_type == self.entry_type
        &&& r.name == self.name
        &&& r.parent == self.parent
        &&& r.attr == self.attr
        &&& r.json_metadata@ == self.json_metadata@
    }

    /// A copy of the entry.
    pub fn duplicate(&self) -> (r: DirEntry)
        ensures
            self.same_as(r),
    {
        DirEntry {
            root_path: self.root_path.clone(),
            prefix: self.prefix.clone(),
            entry_type: self.entry_type,
            name: self.name.clone(),
            parent: self.parent.clone(),
            attr: self.attr,
            json_metadata: self.json_metadata.duplicate(),
        }
    }

    /// The folder that holds the entry's files.
    pub open spec fn base_dir(&self) -> Seq<char> {
        if self.entry_type == EntryType::PENDING {
            staging_dir(self.root_path@)
        } else {
            self.root_path@
        }
    }

    pub open spec fn source_path(&self) -> Seq<char> {
        with_ext(join(self.base_dir(), self.prefix@), ext_of(self.entry_type))
    }

    pub open spec fn metadata_path(&self) -> Seq<char> {
        with_ext(join(self.base_dir(), self.prefix@), "metadata"@)
    }

    pub open spec fn content_path(&self) -> Seq<char> {
        with_ext(join(self.base_dir(), self.prefix@), "content"@)
    }

    /// The name shown in the mount: the visible name, with the payload
    /// extension added unless the name already ends in it.
    pub open spec fn display_name(&self) -> Seq<char> {
        shown_name(self.name@, ext_of(self.entry_type))
    }

    /// The entry read from the sidecar `file_name` in `root_path`, whose
    /// attributes are `attr`, whose record is `json_data`, and whose payload
    /// probes found `sizes`.
    pub fn new(
        root_path: &str,
        file_name: &str,
        attr: &Attr,
        json_data: &JsonMetadata,
        sizes: &[Option<u64>; 3],
    ) -> (r: DirEntry)
        ensures
            DirEntry::is_read_from(r, root_path@, file_name@, *attr, json_data@, sizes@),
    {
        let (tp, sz) = determine_entry_type(sizes);
        DirEntry {
            root_path: String::from_str(root_path),
            prefix: file_stem(file_name),
            entry_type: tp,
            name: json_data.visible_name.clone(),
            parent: json_data.parent.clone(),
            attr: Attr {
                size: sz,
                kind: if tp == EntryType::NONE {
                    FileKind::Directory
                } else {
                    FileKind::RegularFile
                },
                perm: ROOT_PERM,
                ..*attr
            },
            json_metadata: json_data.duplicate(),
        }
    }

    pub fn make_root(dir_path: &str) -> (r: DirEntry)
        ensures
            r.root_path@ == dir_path@,
            r.prefix@.len() == 0,
            r.entry_type == EntryType::NONE,
            r.name@.len() == 0,
            r.parent@.len() == 0,
            r.attr == spec_root_attr(),
    {
        DirEntry {
            root_path: String::from_str(dir_path),
            prefix: String::new(),
            entry_type: EntryType::NONE,
            name: String::new(),
            parent: String::new(),
            attr: root_dir_attr(),
            json_metadata: JsonMetadata::new_dir("", ""),
        }
    }

    pub fn make_trash(dir_path: &str) -> (r: DirEntry)
        ensures
            DirEntry::is_trash(r, dir_path@),
    {
        let mut attr = root_dir_attr();
        attr.ino = TRASH_INO;
        DirEntry {
            root_path: String::from_str(dir_path),
            prefix: String::from_str("trash"),
            entry_type: EntryType::NONE,
            name: String::from_str("trash"),
            parent: String::new(),
            attr: attr,
            json_metadata: JsonMetadata::new_dir("trash", ""),
        }
    }

    /// A new entry named `name` inside `parent_dir`, with `prefix` as its
    /// identity: a folder when `is_dir`, else a file being ingested. Its
    /// inode is 0 until its sidecar is written.
    pub fn create_entry_with_prefix(
        parent_dir: &DirEntry,
        name: &str,
        mode: u32,
        umask: u32,
        is_dir: bool,
        modtime: u64,
        prefix: String,
    ) -> (r: DirEntry)
        ensures
            r.prefix@ == prefix@,
            DirEntry::is_new_entry(r, *parent_dir, name@, mode, umask, is_dir, modtime),
    {
        let mut attr = root_dir_attr();
        attr.ino = 0;
        attr.perm = #[verifier::truncate] ((mode & !umask) as u16);
        attr.kind = if is_dir {
            FileKind::Directory
        } else {
            FileKind::RegularFile
        };
        let parent_prefix = parent_dir.prefix.as_str();
        DirEntry {
            root_path: parent_dir.root_path.clone(),
            prefix: prefix,
            entry_type: if is_dir {
                EntryType::NONE
            } else {
                EntryType::PENDING
            },
            name: String::from_str(name),
            parent: parent_dir.prefix.clone(),
            attr: attr,
            json_metadata: if is_dir {
                JsonMetadata::new_dir(name, parent_prefix)
            } else {
                JsonMetadata::new_file(name, parent_prefix, modtime)
            },
        }
    }

    /// A new entry with a freshly generated prefix; see
    /// `create_entry_with_prefix`.
    pub fn create_entry(
        parent_dir: &DirEntry,
        name: &str,
        mode: u32,
        umask: u32,
        is_dir: bool,
        modtime: u64,
    ) -> (r: DirEntry)
        ensures
            is_uuid_text(r.prefix@),
            DirEntry::is_new_entry(r, *parent_dir, name@, mode, umask, is_dir, modtime),
    {
        let prefix = new_prefix();
        DirEntry::create_entry_with_prefix(parent_dir, name, mode, umask, is_dir, modtime, prefix)
    }

    /// A new folder named `name` inside `parent_dir`.
    pub fn make_dir(parent_dir: &DirEntry, name: &str, mode: u32, umask: u32) -> (r: DirEntry)
        ensures
            is_uuid_text(r.prefix@),
            DirEntry::is_new_entry(r, *parent_dir, name@, mode, umask, true, 0),
    {
        DirEntry::create_entry(parent_dir, name, mode, umask, true, 0)
    }

    /// A new file named `name` inside `parent_dir`, to be ingested; its
    /// record was last changed at `modtime`.
    pub fn make_file(parent_dir: &DirEntry, name: &str, mode: u32, umask: u32, modtime: u64) -> (r:
        DirEntry)
        ensures
            is_uuid_text(r.prefix@),
            DirEntry::is_new_entry(r, *parent_dir, name@, mode, umask, false, modtime),
    {
        DirEntry::create_entry(parent_dir, name, mode, umask, false, modtime)
    }

    fn base_dir_path(&self) -> (r: String)
        ensures
            r@ == self.base_dir(),
    {
        if self.entry_type == EntryType::PENDING {
            path_join(self.root_path.as_str(), ".pending")
        } else {
            self.root_path.clone()
        }
    }

    pub fn source_file_path(&self) -> (r: String)
        ensures
            r@ == self.source_path(),
    {
        let base = self.base_dir_path();
        path_with_ext(path_join(base.as_str(), self.prefix.as_str()), entry_type_ext(&self.entry_type))
    }

    pub fn metadata_file_name(&self) -> (r: String)
        ensures
            r@ == self.metadata_path(),
    {
        let base = self.base_dir_path();
        path_with_ext(path_join(base.as_str(), self.prefix.as_str()), "metadata")
    }

    pub fn content_file_path(&self) -> (r: String)
        ensures
            r@ == self.content_path(),
    {
        let base = self.base_dir_path();
        path_with_ext(path_join(base.as_str(), self.prefix.as_str()), "content")
    }

    pub fn file_name(&self) -> (r: String)
        ensures
            r@ == self.display_name(),
    {
        let ext = entry_type_ext(&self.entry_type);
        if ext.unicode_len() == 0 || ends_with_ext(self.name.as_str(), ext) {
            self.name.clone()
        } else {
            path_with_ext(self.name.clone(), ext)
        }
    }

    /// Whether this entry lies directly inside `parent`: its parent field
    /// is the parent's prefix, which is empty for the root.
    pub open spec fn is_child_of(&self, parent: &DirEntry) -> bool {
        self.parent@ == parent.prefix@
    }

    pub fn is_parent(&self, parent: &DirEntry) -> (r: bool)
        ensures
            r == self.is_child_of(parent),
    {
        self.parent == parent.prefix
    }

    /// The inode of this entry's parent within `listing`: the trash's for
    /// the reserved parent `trash`, that of the first listed entry whose
    /// prefix is the parent, and the root's otherwise.
    pub open spec fn parent_ino_in(&self, listing: Seq<DirEntry>) -> u64 {
        if self.parent@ == "trash"@ {
            TRASH_INO
        } else if self.parent@.len() > 0 && exists|k: int| first_with_prefix(listing, self.parent@, k) {
            listing[choose|k: int| first_with_prefix(listing, self.parent@, k)].attr.ino
        } else {
            ROOT_INO
        }
    }

    pub fn parent_inode(&self, listing: &Vec<DirEntry>) -> (r: u64)
        ensures
            r == self.parent_ino_in(listing@),
    {
        if str_eq(self.parent.as_str(), "trash") {
            return TRASH_INO;
        }
        if self.parent.unicode_len() == 0 {
            return ROOT_INO;
        }
        let mut i: usize = 0;
        while i < listing.len()
            invariant
                i <= listing@.len(),
                self.parent@ != "trash"@,
                self.parent@.len() > 0,
                forall|j: int| 0 <= j < i ==> listing@[j].prefix@ != self.parent@,
            decreases listing@.len() - i,
        {
            if listing[i].prefix == self.parent {
                proof {
                    assert(first_with_prefix(listing@, self.parent@, i as int));
                    lemma_first_with_prefix_unique(listing@, self.parent@, i as int);
                }
                return listing[i].attr.ino;
            }
            i = i + 1;
        }
        ROOT_INO
    }

    /// The entry with `newname` as its name and `newparent` as its parent;
    /// prefix, type and attributes stay, and its record takes both changes.
    pub fn rename(&self, newparent: &DirEntry, newname: &str) -> (r: DirEntry)
        ensures
            DirEntry::is_renamed(r, *self, newparent.prefix@, newname@),
            self.json_metadata.wf() ==> r.json_metadata.wf(),
    {
        let mut json_data = self.json_metadata.duplicate();
        json_data.visible_name = String::from_str(newname);
        json_data.parent = newparent.prefix.clone();
        DirEntry {
            name: String::from_str(newname),
            parent: newparent.prefix.clone(),
            json_metadata: json_data,
            root_path: self.root_path.clone(),
            prefix: self.prefix.clone(),
            entry_type: self.entry_type,
            attr: self.attr,
        }
    }

    /// Sets the type from a sniffed extension: one of the payload
    /// extensions sets it, another is returned as the error, and no
    /// extension at all gives `unknown`.
    pub fn apply_sniffed_type(&mut self, detected: Option<&'static str>) -> (r: Result<
        (),
        &'static str,
    >)
        ensures
            match detected {
                Some(e) => if type_of_ext(e@) != EntryType::NONE {
                    r is Ok && *final(self) == (DirEntry { entry_type: type_of_ext(e@), ..*old(self) })
                } else {
                    r == Err::<(), &'static str>(e) && *final(self) == *old(self)
                },
                None => r is Err && r->Err_0@ == "unknown"@ && *final(self) == *old(self),
            },
    {
        match detected {
            Some(e) => {
                let t = ext_entry_type(e);
                if *t != EntryType::NONE {
                    self.entry_type = *t;
                    Ok(())
                } else {
                    Err(e)
                }
            },
            None => Err("unknown"),
        }
    }

    /// Sniffs the first bytes of the payload and sets the type from what is
    /// found; see `apply_sniffed_type`.
    pub fn update_type(&mut self, buf: &[u8]) -> (r: Result<(), &'static str>)
        ensures
            match sniffed_ext(buf@) {
                Some(e) => if type_of_ext(e) != EntryType::NONE {
                    r is Ok && *final(self) == (DirEntry { entry_type: type_of_ext(e), ..*old(self) })
                } else {
                    r is Err && r->Err_0@ == e && *final(self) == *old(self)
                },
                None => r is Err && r->Err_0@ == "unknown"@ && *final(self) == *old(self),
            },
    {
        let detected = sniff(buf);
        self.apply_sniffed_type(detected)
    }

    /// The files to remove when an ingest is given up: the payload and the
    /// sidecar at their current places.
    pub fn forget_pending(&self) -> (r: Vec<String>)
        ensures
            r@.len() == 2,
            r@[0]@ == self.source_path(),
            r@[1]@ == self.metadata_path(),
    {
        let mut r: Vec<String> = Vec::new();
        r.push(self.source_file_path());
        r.push(self.metadata_file_name());
        r
    }

    /// The moves out of staging and the content marker that make a typed
    /// file live; `EPERM` for a folder or a file whose type is not known.
    pub fn finalize_pending(&self) -> (r: Result<Promotion, Errno>)
        ensures
            (self.entry_type == EntryType::NONE || self.entry_type == EntryType::PENDING) <==> r
                is Err,
            r is Err ==> r->Err_0 == Errno::EPERM,
            r is Ok ==> {
                let p = r->Ok_0;
                let staged = join(staging_dir(self.root_path@), self.prefix@);
                &&& p.moves@.len() == 2
                &&& p.moves@[0].0@ == staged
                &&& p.moves@[0].1@ == self.source_path()
                &&& p.moves@[1].0@ == with_ext(staged, "metadata"@)
                &&& p.moves@[1].1@ == self.metadata_path()
                &&& p.content_path@ == self.content_path()
                &&& p.content@ == content_marker(self.entry_type)
            },
    {
        if self.entry_type == EntryType::NONE || self.entry_type == EntryType::PENDING {
            return Err(Errno::EPERM);
        }
        let staging = path_join(self.root_path.as_str(), ".pending");
        let staged = path_join(staging.as_str(), self.prefix.as_str());
        let staged_meta = path_with_ext(staged.clone(), "metadata");
        let mut moves: Vec<(String, String)> = Vec::new();
        moves.push((staged, self.source_file_path()));
        moves.push((staged_meta, self.metadata_file_name()));
        let mut content = String::from_str("{\"fileType\":\"");
        content.append(entry_type_ext(&self.entry_type));
        content.append("\"}");
        Ok(Promotion { moves, content_path: self.content_file_path(), content })
    }
}

/// `k` is the first position of `listing` whose entry has the prefix `p`.
pub open spec fn first_with_prefix(listing: Seq<DirEntry>, p: Seq<char>, k: int) -> bool {
    &&& 0 <= k < listing.len()
    &&& listing[k].prefix@ == p
    &&& forall|j: int| 0 <= j < k ==> listing[j].prefix@ != p
}

proof fn lemma_first_with_prefix_unique(listing: Seq<DirEntry>, p: Seq<char>, k: int)
    requires
        first_with_prefix(listing, p, k),
    ensures
        (choose|m: int| first_with_prefix(listing, p, m)) == k,
{
    let m = choose|m: int| first_with_prefix(listing, p, m);
    assert(first_with_prefix(listing, p, m));
    if m < k {
        assert(listing[m].prefix@ != p);
    } else if m > k {
        assert(listing[k].prefix@ != p);
    }
}


/// A sidecar name made from a non-empty prefix reads back as that prefix.
proof fn lemma_stem_of_sidecar_name(prefix: Seq<char>)
    requires
        prefix.len() > 0,
    ensures
        stem(with_ext(prefix, "metadata"@)) == prefix,
{
    reveal_strlit("metadata");
    let name = with_ext(prefix, "metadata"@);
    let k: int = prefix.len() as int + 1;
    assert(name.subrange(0, k).last() == '.');
    lemma_last_dot_prefix(name, k);
    assert(last_dot(name) == prefix.len());
    assert(name.subrange(0, prefix.len() as int) =~= prefix);
}

/// After a rename, the entry that a rescan reads from the rewritten sidecar
/// shows the new name and parent, and keeps its prefix, its sidecar and its
/// inode: the sidecar is rewritten in place, so it keeps its inode.
pub proof fn lemma_rename_then_read_back(
    e: DirEntry,
    newparent: Seq<char>,
    newname: Seq<char>,
    r: DirEntry,
    back: DirEntry,
    attr: Attr,
    sizes: Seq<Option<u64>>,
)
    requires
        e.prefix@.len() > 0,
        e.entry_type != EntryType::PENDING,
        DirEntry::is_renamed(r, e, newparent, newname),
        attr.ino == e.attr.ino,
        DirEntry::is_read_from(
            back,
            e.root_path@,
            with_ext(e.prefix@, "metadata"@),
            attr,
            r.json_metadata@,
            sizes,
        ),
    ensures
        r.metadata_path() == e.metadata_path(),
        back.metadata_path() == e.metadata_path(),
        back.name@ == newname,
        back.parent@ == newparent,
        back.prefix@ == e.prefix@,
        back.attr.ino == e.attr.ino,
{
    lemma_stem_of_sidecar_name(e.prefix@);
    assert(back.entry_type != EntryType::PENDING);
}

/// The files that staging holds for `prefix` in the store at `root`: the
/// staged payload and the staged sidecar.
pub open spec fn staged_files(root: Seq<char>, prefix: Seq<char>) -> Set<Seq<char>> {
    set![join(staging_dir(root), prefix), with_ext(join(staging_dir(root), prefix), "metadata"@)]
}

/// A file still being ingested keeps its payload and sidecar exactly at its
/// staged files, and giving it up removes every one of them.
pub proof fn lemma_forget_clears_staging(e: DirEntry, removed: Seq<String>)
    requires
        e.entry_type == EntryType::PENDING,
        removed.len() == 2,
        removed[0]@ == e.source_path(),
        removed[1]@ == e.metadata_path(),
    ensures
        staged_files(e.root_path@, e.prefix@) == set![e.source_path(), e.metadata_path()],
        forall|p: Seq<char>|
            #[trigger] staged_files(e.root_path@, e.prefix@).contains(p) ==> (removed[0]@ == p
                || removed[1]@ == p),
{
    assert(staged_files(e.root_path@, e.prefix@) =~= set![e.source_path(), e.metadata_path()]);
}


/// A typed file promoted out of staging, read back by a rescan from its
/// live sidecar, keeps its prefix, name, parent, shown name and inode: the
/// sidecar is moved by a rename, which keeps its inode, and the rescan finds
/// the payload of the promoted type.
pub proof fn lemma_promotion_read_back(
    e: DirEntry,
    back: DirEntry,
    attr: Attr,
    sizes: Seq<Option<u64>>,
)
    requires
        e.entry_type != EntryType::NONE,
        e.entry_type != EntryType::PENDING,
        e.prefix@.len() > 0,
        e.name@ == e.json_metadata@.1,
        e.parent@ == e.json_metadata@.0,
        attr.ino == e.attr.ino,
        first_payload(sizes).0 == e.entry_type,
        DirEntry::is_read_from(
            back,
            e.root_path@,
            with_ext(e.prefix@, "metadata"@),
            attr,
            e.json_metadata@,
            sizes,
        ),
    ensures
        back.metadata_path() == e.metadata_path(),
        back.prefix@ == e.prefix@,
        back.name@ == e.name@,
        back.parent@ == e.parent@,
        back.display_name() == e.display_name(),
        back.attr.ino == e.attr.ino,
{
    lemma_stem_of_sidecar_name(e.prefix@);
}

} // verus!
