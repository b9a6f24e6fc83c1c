use vstd::prelude::*;

use std::collections::HashMap;

use crate::direntry::{
    FileKind, TRASH_INO, ext_of, join, sniffed_ext, spec_root_attr, type_of_ext, with_ext, Attr, DirEntry, EntryType,
    ROOT_INO, path_join, path_with_ext, entry_type_ext,
};
use crate::errno::Errno;
use crate::scanner::{is_listing_of, is_sidecar, lemma_entry_has_one_sidecar, Sidecar};

verus! {

/// A condition on a listed entry, as the callbacks search for one.
pub enum Pick {
    /// The entry has this inode.
    Ino(u64),
    /// The entry shows this name inside the folder of this inode.
    Shown(u64, Seq<char>),
    /// The entry is a folder with this parent prefix and this visible name.
    Folder(Seq<char>, Seq<char>),
    /// The entry has this parent prefix and shows this name.
    ShownIn(Seq<char>, Seq<char>),
    /// The entry has this parent prefix.
    ChildOf(Seq<char>),
}

/// The executable form of a `Pick`.
pub enum Query {
    Ino(u64),
    Shown(u64, String),
    Folder(String, String),
    ShownIn(String, String),
    ChildOf(String),
}

impl View for Query {
    type V = Pick;

    open spec fn view(&self) -> Pick {
        match self {
            Query::Ino(i) => Pick::Ino(*i),
            Query::Shown(i, n) => Pick::Shown(*i, n@),
            Query::Folder(p, n) => Pick::Folder(p@, n@),
            Query::ShownIn(p, n) => Pick::ShownIn(p@, n@),
            Query::ChildOf(p) => Pick::ChildOf(p@),
        }
    }
}

/// Whether `e`, listed in `listing`, meets `q`.
pub open spec fn holds(q: Pick, e: DirEntry, listing: Seq<DirEntry>) -> bool {
    match q {
        Pick::Ino(ino) => e.attr.ino == ino,
        Pick::Shown(parent_ino, name) => e.display_name() == name && e.parent_ino_in(listing)
            == parent_ino,
        Pick::Folder(parent, name) => e.parent@ == parent && e.name@ == name && e.entry_type
            == EntryType::NONE,
        Pick::ShownIn(parent, name) => e.parent@ == parent && e.display_name() == name,
        Pick::ChildOf(parent) => e.parent@ == parent,
    }
}

/// `k` is the first position of `listing` whose entry meets `q`.
pub open spec fn is_first(listing: Seq<DirEntry>, q: Pick, k: int) -> bool {
    &&& 0 <= k < listing.len()
    &&& holds(q, listing[k], listing)
    &&& forall|j: int| 0 <= j < k ==> !holds(q, #[trigger] listing[j], listing)
}

/// The first position of `listing` whose entry meets `q`, if any.
pub open spec fn found(listing: Seq<DirEntry>, q: Pick) -> Option<int> {
    if exists|k: int| is_first(listing, q, k) {
        Some(choose|k: int| is_first(listing, q, k))
    } else {
        None
    }
}

proof fn lemma_found_at(listing: Seq<DirEntry>, q: Pick, k: int)
    requires
        is_first(listing, q, k),
    ensures
        found(listing, q) == Some(k),
{
    let m = choose|m: int| is_first(listing, q, m);
    assert(is_first(listing, q, m));
    if m < k {
        assert(!holds(q, listing[m], listing));
    } else if m > k {
        assert(!holds(q, listing[k], listing));
    }
}

proof fn lemma_found_none(listing: Seq<DirEntry>, q: Pick)
    requires
        forall|j: int| 0 <= j < listing.len() ==> !holds(q, #[trigger] listing[j], listing),
    ensures
        found(listing, q) is None,
{
    if exists|k: int| is_first(listing, q, k) {
        let k = choose|k: int| is_first(listing, q, k);
        assert(holds(q, listing[k], listing));
    }
}

fn query_holds(q: &Query, e: &DirEntry, listing: &Vec<DirEntry>) -> (r: bool)
    ensures
        r == holds(q@, *e, listing@),
{
    match q {
        Query::Ino(ino) => e.attr.ino == *ino,
        Query::Shown(parent_ino, name) => e.file_name() == *name && e.parent_inode(listing)
            == *parent_ino,
        Query::Folder(parent, name) => e.parent == *parent && e.name == *name && e.entry_type
            == EntryType::NONE,
        Query::ShownIn(parent, name) => e.parent == *parent && e.file_name() == *name,
        Query::ChildOf(parent) => e.parent == *parent,
    }
}

/// The position of the first entry of `listing` that meets `q`.
pub fn find_first(q: &Query, listing: &Vec<DirEntry>) -> (r: Option<usize>)
    ensures
        match r {
            Some(k) => found(listing@, q@) == Some(k as int),
            None => found(listing@, q@) is None,
        },
{
    let mut i: usize = 0;
    while i < listing.len()
        invariant
            i <= listing@.len(),
            forall|j: int| 0 <= j < i ==> !holds(q@, #[trigger] listing@[j], listing@),
        decreases listing@.len() - i,
    {
        if query_holds(q, &listing[i], listing) {
            proof {
                lemma_found_at(listing@, q@, i as int);
            }
            return Some(i);
        }
        i = i + 1;
    }
    proof {
        lemma_found_none(listing@, q@);
    }
    None
}

/// What an inode names as a folder: the root, a listed entry, or nothing.
pub enum Resolved {
    Root,
    At(int),
    Missing,
}

/// What `ino` names within `listing`.
pub open spec fn resolve(ino: u64, listing: Seq<DirEntry>) -> Resolved {
    if ino == ROOT_INO {
        Resolved::Root
    } else {
        match found(listing, Pick::Ino(ino)) {
            Some(k) => Resolved::At(k),
            None => Resolved::Missing,
        }
    }
}

/// The prefix of what `ino` names; empty for the root.
pub open spec fn resolved_prefix(ino: u64, listing: Seq<DirEntry>) -> Seq<char> {
    match resolve(ino, listing) {
        Resolved::At(k) => listing[k].prefix@,
        _ => Seq::empty(),
    }
}

/// `r` is the synthetic root of the store at `dir`.
pub open spec fn is_root(r: DirEntry, dir: Seq<char>) -> bool {
    &&& r.root_path@ == dir
    &&& r.prefix@.len() == 0
    &&& r.entry_type == EntryType::NONE
    &&& r.name@.len() == 0
    &&& r.parent@.len() == 0
    &&& r.attr == spec_root_attr()
}

/// `r` is what `ino` names within `listing`, in the store at `dir`.
pub open spec fn resolves_to(dir: Seq<char>, ino: u64, listing: Seq<DirEntry>, r: Option<DirEntry>) -> bool {
    match resolve(ino, listing) {
        Resolved::Root => r is Some && is_root(r->0, dir),
        Resolved::At(k) => r is Some && listing[k].same_as(r->0),
        Resolved::Missing => r is None,
    }
}

/// The entries of `listing` whose parent is `prefix`, in order.
pub open spec fn children(listing: Seq<DirEntry>, prefix: Seq<char>) -> Seq<DirEntry>
    decreases listing.len(),
{
    if listing.len() == 0 {
        Seq::empty()
    } else {
        let rest = children(listing.drop_last(), prefix);
        if listing.last().parent@ == prefix {
            rest.push(listing.last())
        } else {
            rest
        }
    }
}

/// The reference counts of a handle table.
pub open spec fn refcounts<V>(m: Map<u64, (u32, V)>) -> Map<u64, nat> {
    Map::new(|k: u64| m.contains_key(k), |k: u64| m[k].0 as nat)
}

/// The counts after one more open of `ino`.
pub open spec fn count_opened(c: Map<u64, nat>, ino: u64) -> Map<u64, nat> {
    c.insert(
        ino,
        if c.contains_key(ino) {
            c[ino] + 1
        } else {
            1
        },
    )
}

/// The counts after one release of `ino`: the handle goes when its last
/// holder lets go.
pub open spec fn count_released(c: Map<u64, nat>, ino: u64) -> Map<u64, nat> {
    if c.contains_key(ino) {
        if c[ino] > 1 {
            c.insert(ino, (c[ino] - 1) as nat)
        } else {
            c.remove(ino)
        }
    } else {
        c
    }
}

/// The access-mode bits of open flags, as Linux numbers them.
pub const O_ACCMODE: i32 = 3;

/// The write-only access mode, as Linux numbers it.
pub const O_WRONLY: i32 = 1;

/// What `open` asks of the caller next.
pub enum OpenStep {
    /// The file was open already; its handle is shared.
    Shared,
    /// Open the payload at this path and hand it to `insert_open_file`.
    Load(String),
}

/// Why a write is refused.
pub enum WriteRefusal {
    /// No file is being ingested under the handle.
    NotPending,
    /// The content is of no supported type: remove these staged files.
    Unsupported(Vec<String>),
}

impl WriteRefusal {
    pub fn errno(&self) -> (r: Errno)
        ensures
            r == match self {
                WriteRefusal::NotPending => Errno::ENOENT,
                WriteRefusal::Unsupported(_) => Errno::ENOSYS,
            },
    {
        match self {
            WriteRefusal::NotPending => Errno::ENOENT,
            WriteRefusal::Unsupported(_) => Errno::ENOSYS,
        }
    }
}

/// The files that an unlink removes: the payload and the sidecar, then the
/// content marker where there is one.
pub struct Removal {
    pub payload: String,
    pub sidecar: String,
    pub marker: String,
}

/// One line of a folder listing: the child's inode, the offset of the next
/// line, its kind and its shown name.
pub struct DirItem {
    pub ino: u64,
    pub offset: u64,
    pub kind: crate::direntry::FileKind,
    pub name: String,
}

/// The adapter state: the store's folder and the three handle tables, each
/// keyed by inode. `F` is an open payload file.
pub struct RMXFS<F> {
    source_dir: String,
    /// Open folders: a reference count and the children seen at first open.
    dir_map: HashMap<u64, (u32, Vec<DirEntry>)>,
    /// Open payloads: a reference count and the file.
    file_map: HashMap<u64, (u32, F)>,
    /// Files being ingested: the entry and its staged payload.
    pending_map: HashMap<u64, (DirEntry, F)>,
}


/// Whether `name` holds a dot.
pub open spec fn has_dot(name: Seq<char>) -> bool {
    exists|i: int| 0 <= i < name.len() && name[i] == '.'
}

fn contains_dot(name: &str) -> (r: bool)
    ensures
        r == has_dot(name@),
{
    let n = name.unicode_len();
    let mut i: usize = 0;
    while i < n
        invariant
            n == name@.len(),
            i <= n,
            forall|j: int| 0 <= j < i ==> name@[j] != '.',
        decreases n - i,
    {
        if name.get_char(i) == '.' {
            return true;
        }
        i = i + 1;
    }
    false
}

impl<F> RMXFS<F> {
    /// The store's folder.
    pub closed spec fn source(&self) -> Seq<char> {
        self.source_dir@
    }

    /// The open folders by inode: count and children.
    pub closed spec fn dirs(&self) -> Map<u64, (u32, Vec<DirEntry>)> {
        self.dir_map@
    }

    /// The open payloads by inode: count and file.
    pub closed spec fn files(&self) -> Map<u64, (u32, F)> {
        self.file_map@
    }

    /// The files being ingested by inode: entry and staged payload.
    pub closed spec fn pending(&self) -> Map<u64, (DirEntry, F)> {
        self.pending_map@
    }

    pub fn source_dir(&self) -> (r: &str)
        ensures
            r@ == self.source(),
    {
        self.source_dir.as_str()
    }

    /// Every handle still held has a count of at least one, and every file
    /// being ingested is held under its own inode.
    pub closed spec fn wf(&self) -> bool {
        &&& forall|k: u64| #[trigger] self.dir_map@.contains_key(k) ==> self.dir_map@[k].0 >= 1
        &&& forall|k: u64| #[trigger] self.file_map@.contains_key(k) ==> self.file_map@[k].0 >= 1
        &&& forall|k: u64| #[trigger] self.pending_map@.contains_key(k) ==> self.pending_map@[k].0.attr.ino == k
    }

    pub fn new(source: &str) -> (r: RMXFS<F>)
        ensures
            r.source() == source@,
            r.dirs() == Map::<u64, (u32, Vec<DirEntry>)>::empty(),
            r.files() == Map::<u64, (u32, F)>::empty(),
            r.pending() == Map::<u64, (DirEntry, F)>::empty(),
            r.wf(),
    {
        RMXFS {
            source_dir: String::from_str(source),
            dir_map: HashMap::new(),
            file_map: HashMap::new(),
            pending_map: HashMap::new(),
        }
    }

    /// The folder that `ino` names: the root, or a copy of the listed entry
    /// with that inode.
    pub fn dir_from_ino(&self, ino: u64, listing: &Vec<DirEntry>) -> (r: Option<DirEntry>)
        ensures
            resolves_to(self.source(), ino, listing@, r),
    {
        if ino == ROOT_INO {
            return Some(DirEntry::make_root(self.source_dir.as_str()));
        }
        match find_first(&Query::Ino(ino), listing) {
            Some(k) => Some(listing[k].duplicate()),
            None => None,
        }
    }

    /// The attributes of the entry that shows `name` inside the folder of
    /// inode `parent`.
    pub fn lookup(&self, parent: u64, name: &str, listing: &Vec<DirEntry>) -> (r: Result<Attr, Errno>)
        ensures
            match found(listing@, Pick::Shown(parent, name@)) {
                Some(k) => r == Ok::<Attr, Errno>(listing@[k].attr),
                None => r == Err::<Attr, Errno>(Errno::ENOENT),
            },
    {
        match find_first(&Query::Shown(parent, String::from_str(name)), listing) {
            Some(k) => Ok(listing[k].attr),
            None => Err(Errno::ENOENT),
        }
    }

    /// The attributes of inode `ino`: a file being ingested first, then the
    /// root, then the listed entry.
    pub fn getattr(&self, ino: u64, listing: &Vec<DirEntry>) -> (r: Result<Attr, Errno>)
        ensures
            self.pending().contains_key(ino) ==> r == Ok::<Attr, Errno>(
                self.pending()[ino].0.attr,
            ),
            !self.pending().contains_key(ino) ==> match resolve(ino, listing@) {
                Resolved::Root => r == Ok::<Attr, Errno>(spec_root_attr()),
                Resolved::At(k) => r == Ok::<Attr, Errno>(listing@[k].attr),
                Resolved::Missing => r == Err::<Attr, Errno>(Errno::ENOENT),
            },
    {
        match self.pending_map.get(&ino) {
            Some(p) => {
                return Ok(p.0.attr);
            },
            None => {},
        }
        match self.dir_from_ino(ino, listing) {
            Some(e) => Ok(e.attr),
            None => Err(Errno::ENOENT),
        }
    }

    /// The folder in which `mkdir` makes `name`. A name with a dot is
    /// refused (`ENOSYS`), so that companion files that some readers write
    /// beside a document never become folders.
    pub fn mkdir(&self, parent: u64, name: &str, listing: &Vec<DirEntry>) -> (r: Result<
        DirEntry,
        Errno,
    >)
        ensures
            has_dot(name@) ==> r == Err::<DirEntry, Errno>(Errno::ENOSYS),
            !has_dot(name@) ==> match resolve(parent, listing@) {
                Resolved::Missing => r == Err::<DirEntry, Errno>(Errno::ENOENT),
                _ => r is Ok && resolves_to(self.source(), parent, listing@, Some(r->Ok_0)),
            },
    {
        if contains_dot(name) {
            return Err(Errno::ENOSYS);
        }
        match self.dir_from_ino(parent, listing) {
            Some(d) => Ok(d),
            None => Err(Errno::ENOENT),
        }
    }

    /// The sidecar to remove for `rmdir` of the folder `name` inside the
    /// folder of inode `parent`; `ENOTEMPTY` while any entry names it as parent.
    pub fn rmdir(&self, parent: u64, name: &str, listing: &Vec<DirEntry>) -> (r: Result<
        String,
        Errno,
    >)
        ensures
            match resolve(parent, listing@) {
                Resolved::Missing => r == Err::<String, Errno>(Errno::ENOENT),
                _ => match found(
                    listing@,
                    Pick::Folder(resolved_prefix(parent, listing@), name@),
                ) {
                    None => r == Err::<String, Errno>(Errno::ENOENT),
                    Some(k) => if found(listing@, Pick::ChildOf(listing@[k].prefix@)) is Some {
                        r == Err::<String, Errno>(Errno::ENOTEMPTY)
                    } else {
                        r is Ok && r->Ok_0@ == listing@[k].metadata_path()
                    },
                },
            },
    {
        let parent_dir = match self.dir_from_ino(parent, listing) {
            Some(d) => d,
            None => {
                return Err(Errno::ENOENT);
            },
        };
        proof {
            if parent == ROOT_INO {
                assert(parent_dir.prefix@ =~= Seq::<char>::empty());
            }
            assert(parent_dir.prefix@ == resolved_prefix(parent, listing@));
        }
        let k = match find_first(&Query::Folder(parent_dir.prefix, String::from_str(name)), listing) {
            Some(k) => k,
            None => {
                return Err(Errno::ENOENT);
            },
        };
        let dir = &listing[k];
        if find_first(&Query::ChildOf(dir.prefix.clone()), listing).is_some() {
            return Err(Errno::ENOTEMPTY);
        }
        Ok(dir.metadata_file_name())
    }

    /// The files to remove for `unlink` of the entry that shows `name` inside
    /// the folder of inode `parent`; `EBUSY` while its payload is open.
    pub fn unlink(&self, parent: u64, name: &str, listing: &Vec<DirEntry>) -> (r: Result<
        Removal,
        Errno,
    >)
        ensures
            match resolve(parent, listing@) {
                Resolved::Missing => r == Err::<Removal, Errno>(Errno::ENOENT),
                _ => match found(
                    listing@,
                    Pick::ShownIn(resolved_prefix(parent, listing@), name@),
                ) {
                    None => r == Err::<Removal, Errno>(Errno::ENOENT),
                    Some(k) => if self.files().contains_key(listing@[k].attr.ino) {
                        r == Err::<Removal, Errno>(Errno::EBUSY)
                    } else {
                        &&& r is Ok
                        &&& r->Ok_0.payload@ == listing@[k].source_path()
                        &&& r->Ok_0.sidecar@ == listing@[k].metadata_path()
                        &&& r->Ok_0.marker@ == listing@[k].content_path()
                    },
                },
            },
    {
        let parent_dir = match self.dir_from_ino(parent, listing) {
            Some(d) => d,
            None => {
                return Err(Errno::ENOENT);
            },
        };
        proof {
            if parent == ROOT_INO {
                assert(parent_dir.prefix@ =~= Seq::<char>::empty());
            }
            assert(parent_dir.prefix@ == resolved_prefix(parent, listing@));
        }
        let k = match find_first(&Query::ShownIn(parent_dir.prefix, String::from_str(name)), listing) {
            Some(k) => k,
            None => {
                return Err(Errno::ENOENT);
            },
        };
        let entry = &listing[k];
        if self.file_map.contains_key(&entry.attr.ino) {
            return Err(Errno::EBUSY);
        }
        Ok(
            Removal {
                payload: entry.source_file_path(),
                sidecar: entry.metadata_file_name(),
                marker: entry.content_file_path(),
            },
        )
    }

    /// The renamed entry for a move of the entry that shows `name` inside the
    /// folder of inode `parent` to `newname` inside the folder of inode
    /// `newparent`; its record is then written over its sidecar.
    pub fn rename(
        &self,
        parent: u64,
        name: &str,
        newparent: u64,
        newname: &str,
        listing: &Vec<DirEntry>,
    ) -> (r: Result<DirEntry, Errno>)
        ensures
            match found(listing@, Pick::Shown(parent, name@)) {
                None => r == Err::<DirEntry, Errno>(Errno::ENOENT),
                Some(k) => match resolve(newparent, listing@) {
                    Resolved::Missing => r == Err::<DirEntry, Errno>(Errno::ENOENT),
                    _ => r is Ok && DirEntry::is_renamed(
                        r->Ok_0,
                        listing@[k],
                        resolved_prefix(newparent, listing@),
                        newname@,
                    ),
                },
            },
    {
        let k = match find_first(&Query::Shown(parent, String::from_str(name)), listing) {
            Some(k) => k,
            None => {
                return Err(Errno::ENOENT);
            },
        };
        match self.dir_from_ino(newparent, listing) {
            Some(np) => {
                proof {
                    if newparent == ROOT_INO {
                        assert(np.prefix@ =~= Seq::<char>::empty());
                    }
                }
                Ok(listing[k].rename(&np, newname))
            },
            None => Err(Errno::ENOENT),
        }
    }

    /// Whether one more open of the payload `ino` can be counted.
    pub open spec fn file_open_fits(&self, ino: u64) -> bool {
        self.files().contains_key(ino) ==> self.files()[ino].0 < u32::MAX
    }

    /// Whether one more open of the folder `ino` can be counted.
    pub open spec fn dir_open_fits(&self, ino: u64) -> bool {
        self.dirs().contains_key(ino) ==> self.dirs()[ino].0 < u32::MAX
    }

    pub fn can_open_file(&self, ino: u64) -> (r: bool)
        ensures
            r == self.file_open_fits(ino),
    {
        match self.file_map.get(&ino) {
            Some(p) => p.0 < u32::MAX,
            None => true,
        }
    }

    pub fn can_open_dir(&self, ino: u64) -> (r: bool)
        ensures
            r == self.dir_open_fits(ino),
    {
        match self.dir_map.get(&ino) {
            Some(p) => p.0 < u32::MAX,
            None => true,
        }
    }

    /// Opens the payload of inode `ino`: a second open shares the handle;
    /// a first one names the payload to open under the store's folder.
    pub fn open(&mut self, ino: u64, listing: &Vec<DirEntry>) -> (r: Result<OpenStep, Errno>)
        requires
            old(self).wf(),
            old(self).file_open_fits(ino),
        ensures
            final(self).wf(),
            final(self).source() == old(self).source(),
            final(self).dirs() == old(self).dirs(),
            final(self).pending() == old(self).pending(),
            old(self).files().contains_key(ino) ==> {
                &&& r is Ok && r->Ok_0 is Shared
                &&& refcounts(final(self).files()) == count_opened(refcounts(old(self).files()), ino)
                &&& final(self).files() == old(self).files().insert(
                    ino,
                    ((old(self).files()[ino].0 + 1) as u32, old(self).files()[ino].1),
                )
            },
            !old(self).files().contains_key(ino) ==> {
                &&& final(self).files() == old(self).files()
                &&& match found(listing@, Pick::Ino(ino)) {
                    Some(k) => r is Ok && r->Ok_0 is Load && r->Ok_0->Load_0@ == with_ext(
                        join(old(self).source(), listing@[k].prefix@),
                        ext_of(listing@[k].entry_type),
                    ),
                    None => r is Err && r->Err_0 == Errno::ENOENT,
                }
            },
    {
        match self.file_map.remove(&ino) {
            Some(p) => {
                let (counter, file) = p;
                self.file_map.insert(ino, (counter + 1, file));
                proof {
                    assert(refcounts(self.files()) =~= count_opened(refcounts(old(self).files()), ino));
                }
                return Ok(OpenStep::Shared);
            },
            None => {},
        }
        match find_first(&Query::Ino(ino), listing) {
            Some(k) => {
                let entry = &listing[k];
                let path = path_with_ext(
                    path_join(self.source_dir.as_str(), entry.prefix.as_str()),
                    entry_type_ext(&entry.entry_type),
                );
                Ok(OpenStep::Load(path))
            },
            None => Err(Errno::ENOENT),
        }
    }

    /// Holds the payload `file`, just opened for inode `ino`, with one holder.
    pub fn insert_open_file(&mut self, ino: u64, file: F)
        requires
            old(self).wf(),
        ensures
            final(self).wf(),
            final(self).source() == old(self).source(),
            final(self).dirs() == old(self).dirs(),
            final(self).pending() == old(self).pending(),
            final(self).files() == old(self).files().insert(ino, (1u32, file)),
            !old(self).files().contains_key(ino) ==> refcounts(final(self).files()) == count_opened(
                refcounts(old(self).files()),
                ino,
            ),
    {
        self.file_map.insert(ino, (1, file));
        proof {
            if !old(self).files().contains_key(ino) {
                assert(refcounts(self.files()) =~= count_opened(refcounts(old(self).files()), ino));
            }
        }
    }

    /// Holds the staged payload `file` of the new `entry` under its inode.
    pub fn insert_pending(&mut self, entry: DirEntry, file: F)
        requires
            old(self).wf(),
        ensures
            final(self).wf(),
            final(self).source() == old(self).source(),
            final(self).dirs() == old(self).dirs(),
            final(self).files() == old(self).files(),
            final(self).pending() == old(self).pending().insert(entry.attr.ino, (entry, file)),
    {
        let ino = entry.attr.ino;
        self.pending_map.insert(ino, (entry, file));
    }

    /// Releases handle `fh`: a file being ingested leaves its table and is
    /// returned for promotion; an open payload loses one holder.
    pub fn release(&mut self, fh: u64) -> (r: Result<Option<DirEntry>, Errno>)
        requires
            old(self).wf(),
        ensures
            final(self).wf(),
            final(self).source() == old(self).source(),
            final(self).dirs() == old(self).dirs(),
            old(self).pending().contains_key(fh) ==> {
                &&& r is Ok && r->Ok_0 == Some(old(self).pending()[fh].0)
                &&& old(self).pending()[fh].0.attr.ino == fh
                &&& final(self).pending() == old(self).pending().remove(fh)
                &&& final(self).files() == old(self).files()
            },
            !old(self).pending().contains_key(fh) ==> {
                &&& final(self).pending() == old(self).pending()
                &&& refcounts(final(self).files()) == count_released(refcounts(old(self).files()), fh)
                &&& if old(self).files().contains_key(fh) {
                    &&& r is Ok && r->Ok_0 is None
                    &&& if old(self).files()[fh].0 > 1 {
                        final(self).files() == old(self).files().insert(
                            fh,
                            ((old(self).files()[fh].0 - 1) as u32, old(self).files()[fh].1),
                        )
                    } else {
                        final(self).files() == old(self).files().remove(fh)
                    }
                } else {
                    r is Err && r->Err_0 == Errno::ENOENT && final(self).files() == old(self).files()
                }
            },
    {
        match self.pending_map.remove(&fh) {
            Some(p) => {
                let (entry, _file) = p;
                return Ok(Some(entry));
            },
            None => {},
        }
        let ghost before = self.files();
        match self.file_map.remove(&fh) {
            Some(p) => {
                let (counter, file) = p;
                if counter > 1 {
                    self.file_map.insert(fh, (counter - 1, file));
                }
                proof {
                    assert(refcounts(self.files()) =~= count_released(refcounts(before), fh));
                }
                Ok(None)
            },
            None => {
                proof {
                    assert(refcounts(self.files()) =~= count_released(refcounts(before), fh));
                }
                Err(Errno::ENOENT)
            },
        }
    }

    /// The open payload of handle `fh`.
    pub fn read(&self, fh: u64) -> (r: Result<&F, Errno>)
        ensures
            self.files().contains_key(fh) ==> r is Ok && *r->Ok_0 == self.files()[fh].1,
            !self.files().contains_key(fh) ==> r is Err && r->Err_0 == Errno::ENOENT,
    {
        match self.file_map.get(&fh) {
            Some(p) => Ok(&p.1),
            None => Err(Errno::ENOENT),
        }
    }

    /// The staged payload of handle `fh`.
    pub fn pending_file(&self, fh: u64) -> (r: Option<&F>)
        ensures
            self.pending().contains_key(fh) ==> r is Some && *r->0 == self.pending()[fh].1,
            !self.pending().contains_key(fh) ==> r is None,
    {
        match self.pending_map.get(&fh) {
            Some(p) => Some(&p.1),
            None => None,
        }
    }

    /// Checks a write of `data` at `offset` to handle `fh`: the first bytes
    /// of a file being ingested decide its type, and content of no supported
    /// type is refused with the staged files to remove.
    pub fn write(&mut self, fh: u64, offset: i64, data: &[u8]) -> (r: Result<(), WriteRefusal>)
        requires
            old(self).wf(),
        ensures
            final(self).wf(),
            final(self).source() == old(self).source(),
            final(self).dirs() == old(self).dirs(),
            final(self).files() == old(self).files(),
            !old(self).pending().contains_key(fh) ==> r is Err && r->Err_0 is NotPending
                && final(self).pending() == old(self).pending(),
            old(self).pending().contains_key(fh) ==> {
                let (e, f) = old(self).pending()[fh];
                if offset != 0 {
                    r is Ok && final(self).pending() == old(self).pending()
                } else {
                    if sniffed_ext(data@) is Some && type_of_ext(sniffed_ext(data@)->0)
                        != EntryType::NONE {
                        &&& r is Ok
                        &&& final(self).pending() == old(self).pending().insert(
                            fh,
                            (DirEntry { entry_type: type_of_ext(sniffed_ext(data@)->0), ..e }, f),
                        )
                    } else {
                        &&& final(self).pending() == old(self).pending()
                        &&& r is Err && r->Err_0 is Unsupported
                        &&& r->Err_0->Unsupported_0@.len() == 2
                        &&& r->Err_0->Unsupported_0@[0]@ == e.source_path()
                        &&& r->Err_0->Unsupported_0@[1]@ == e.metadata_path()
                    }
                }
            },
    {
        if offset != 0 {
            if self.pending_map.contains_key(&fh) {
                return Ok(());
            } else {
                return Err(WriteRefusal::NotPending);
            }
        }
        match self.pending_map.remove(&fh) {
            Some(p) => {
                let (mut entry, file) = p;
                let res = entry.update_type(data);
                match res {
                    Ok(()) => {
                        self.pending_map.insert(fh, (entry, file));
                        Ok(())
                    },
                    Err(_) => {
                        let forget = entry.forget_pending();
                        self.pending_map.insert(fh, (entry, file));
                        proof {
                            assert(self.pending() =~= old(self).pending());
                        }
                        Err(WriteRefusal::Unsupported(forget))
                    },
                }
            },
            None => Err(WriteRefusal::NotPending),
        }
    }
}

/// How many bytes a read of `size` bytes at `offset` gets from a payload of
/// `file_size` bytes: what is asked for, as far as the payload reaches.
pub open spec fn spec_read_size(size: u32, file_size: u64, offset: i64) -> u32 {
    if offset < 0 || offset >= file_size {
        0
    } else if file_size - offset < size {
        (file_size - offset) as u32
    } else {
        size
    }
}

pub fn read_size(size: u32, file_size: u64, offset: i64) -> (r: u32)
    ensures
        r == spec_read_size(size, file_size, offset),
{
    if offset < 0 || offset as u64 >= file_size {
        0
    } else {
        let rest = file_size - offset as u64;
        if rest < size as u64 {
            rest as u32
        } else {
            size
        }
    }
}


/// The entries of `listing` that lie directly inside `parent`, in order.
pub fn filter_children(listing: Vec<DirEntry>, parent: &DirEntry) -> (r: Vec<DirEntry>)
    ensures
        r@ == children(listing@, parent.prefix@),
{
    let ghost all = listing@;
    let ghost n = all.len() as int;
    let ghost mut j: int = 0;
    let mut v = listing;
    let mut i: usize = 0;
    proof {
        assert(all.subrange(0, 0) =~= Seq::<DirEntry>::empty());
        assert(v@ =~= children(all.subrange(0, 0), parent.prefix@) + all.subrange(0, n));
    }
    while i < v.len()
        invariant
            0 <= j <= n,
            n == all.len(),
            i == children(all.subrange(0, j), parent.prefix@).len(),
            v@ == children(all.subrange(0, j), parent.prefix@) + all.subrange(j, n),
        decreases n - j,
    {
        proof {
            assert(v@[i as int] == all[j]);
            let pre = all.subrange(0, j + 1);
            assert(pre.drop_last() =~= all.subrange(0, j));
            assert(pre.last() == all[j]);
            assert(all.subrange(j + 1, n) =~= all.subrange(j, n).drop_first());
        }
        if v[i].is_parent(parent) {
            i = i + 1;
            proof {
                j = j + 1;
                assert(v@ =~= children(all.subrange(0, j), parent.prefix@) + all.subrange(j, n));
            }
        } else {
            v.remove(i);
            proof {
                j = j + 1;
                assert(v@ =~= children(all.subrange(0, j), parent.prefix@) + all.subrange(j, n));
            }
        }
    }
    proof {
        if j < n {
            assert(v@.len() > i);
        }
        assert(all.subrange(0, n) =~= all);
        assert(v@ =~= children(all, parent.prefix@));
    }
    v
}

/// The position from which a folder listing of `n` entries resumes at
/// `offset`.
pub open spec fn resume_at(offset: i64, n: int) -> int {
    if offset < 0 || offset >= n {
        n
    } else {
        offset as int
    }
}

/// `item` is the line that shows `e`, the child at position `pos`.
pub open spec fn shows(item: DirItem, e: DirEntry, pos: int) -> bool {
    &&& item.ino == e.attr.ino
    &&& item.offset == pos + 1
    &&& item.kind == if e.entry_type == EntryType::NONE {
        FileKind::Directory
    } else {
        FileKind::RegularFile
    }
    &&& item.name@ == e.display_name()
}

/// Whether a file being ingested shows `name` inside the folder of inode
/// `parent`.
pub open spec fn pending_named<F>(m: Map<u64, (DirEntry, F)>, name: Seq<char>, parent: u64, listing: Seq<DirEntry>) -> bool {
    exists|k: u64| #[trigger] m.contains_key(k) && m[k].0.name@ == name && m[k].0.parent_ino_in(listing) == parent
}

impl<F> RMXFS<F> {
    fn pending_has(&self, name: &String, parent: u64, listing: &Vec<DirEntry>) -> (r: bool)
        ensures
            r == pending_named(self.pending(), name@, parent, listing@),
    {
        let ghost m = self.pending();
        for p in it: self.pending_map.values()
            invariant
                m == self.pending(),
                forall|j: int| 0 <= j < it.index() ==> !((#[trigger] it.seq()[j]).0.name@ == name@ && it.seq()[j].0.parent_ino_in(listing@) == parent),
        {
            if p.0.name == *name && p.0.parent_inode(listing) == parent {
                proof {
                    assert(self.pending().values().contains(*p));
                }
                return true;
            }
        }
        proof {
            if pending_named(m, name@, parent, listing@) {
                let k = choose|k: u64| #[trigger] m.contains_key(k) && m[k].0.name@ == name@ && m[k].0.parent_ino_in(listing@) == parent;
                assert(m.values().contains(m[k]));
            }
        }
        false
    }

    /// The folder in which `create` makes the file `name`: `ENOENT` when
    /// `parent` names no folder, `EEXIST` when a file being ingested or a
    /// listed entry already shows that name there, `EINVAL` unless `flags`
    /// open it write-only.
    pub fn create(&self, parent: u64, name: &str, flags: i32, listing: &Vec<DirEntry>) -> (r: Result<
        DirEntry,
        Errno,
    >)
        ensures
            match resolve(parent, listing@) {
                Resolved::Missing => r == Err::<DirEntry, Errno>(Errno::ENOENT),
                _ => if pending_named(self.pending(), name@, parent, listing@) {
                    r == Err::<DirEntry, Errno>(Errno::EEXIST)
                } else if found(listing@, Pick::Shown(parent, name@)) is Some {
                    r == Err::<DirEntry, Errno>(Errno::EEXIST)
                } else if flags & O_ACCMODE != O_WRONLY {
                    r == Err::<DirEntry, Errno>(Errno::EINVAL)
                } else {
                    r is Ok && resolves_to(self.source(), parent, listing@, Some(r->Ok_0))
                },
            },
    {
        let parent_dir = match self.dir_from_ino(parent, listing) {
            Some(d) => d,
            None => {
                return Err(Errno::ENOENT);
            },
        };
        let wanted = String::from_str(name);
        if self.pending_has(&wanted, parent, listing) {
            return Err(Errno::EEXIST);
        }
        if find_first(&Query::Shown(parent, wanted), listing).is_some() {
            return Err(Errno::EEXIST);
        }
        if flags & O_ACCMODE != O_WRONLY {
            return Err(Errno::EINVAL);
        }
        Ok(parent_dir)
    }

    /// Opens folder `ino`: a second open shares the handle; a first one
    /// keeps the children that `listing` shows, or fails when the store
    /// could not be listed (`None`).
    pub fn opendir(&mut self, ino: u64, listing: Option<Vec<DirEntry>>) -> (r: Result<(), Errno>)
        requires
            old(self).wf(),
            old(self).dir_open_fits(ino),
        ensures
            final(self).wf(),
            final(self).source() == old(self).source(),
            final(self).files() == old(self).files(),
            final(self).pending() == old(self).pending(),
            r is Ok ==> refcounts(final(self).dirs()) == count_opened(refcounts(old(self).dirs()), ino),
            ({
                let seen = match listing {
                    Some(l) => l@,
                    None => Seq::empty(),
                };
                match resolve(ino, seen) {
                    Resolved::Missing => r == Err::<(), Errno>(Errno::ENOENT) && final(self).dirs()
                        == old(self).dirs(),
                    _ => if old(self).dirs().contains_key(ino) {
                        &&& r is Ok
                        &&& final(self).dirs() == old(self).dirs().insert(
                            ino,
                            ((old(self).dirs()[ino].0 + 1) as u32, old(self).dirs()[ino].1),
                        )
                    } else if listing is None {
                        r == Err::<(), Errno>(Errno::ENOENT) && final(self).dirs() == old(
                            self,
                        ).dirs()
                    } else {
                        &&& r is Ok
                        &&& final(self).dirs().contains_key(ino)
                        &&& final(self).dirs()[ino].0 == 1
                        &&& final(self).dirs()[ino].1@ == children(seen, resolved_prefix(ino, seen))
                        &&& final(self).dirs().remove(ino) == old(self).dirs()
                    },
                }
            }),
    {
        let empty: Vec<DirEntry> = Vec::new();
        let parent = match &listing {
            Some(l) => self.dir_from_ino(ino, l),
            None => self.dir_from_ino(ino, &empty),
        };
        let parent = match parent {
            Some(p) => p,
            None => {
                return Err(Errno::ENOENT);
            },
        };
        match self.dir_map.remove(&ino) {
            Some(p) => {
                let (counter, entries) = p;
                self.dir_map.insert(ino, (counter + 1, entries));
                proof {
                    assert(refcounts(self.dirs()) =~= count_opened(refcounts(old(self).dirs()), ino));
                }
                return Ok(());
            },
            None => {},
        }
        match listing {
            Some(l) => {
                proof {
                    if ino == ROOT_INO {
                        assert(parent.prefix@ =~= Seq::<char>::empty());
                    }
                }
                let kids = filter_children(l, &parent);
                self.dir_map.insert(ino, (1, kids));
                proof {
                    assert(self.dirs().remove(ino) =~= old(self).dirs());
                    assert(refcounts(self.dirs()) =~= count_opened(refcounts(old(self).dirs()), ino));
                }
                Ok(())
            },
            None => Err(Errno::ENOENT),
        }
    }

    /// Releases folder handle `fh`; it goes when its last holder lets go.
    pub fn releasedir(&mut self, fh: u64) -> (r: Result<(), Errno>)
        requires
            old(self).wf(),
        ensures
            final(self).wf(),
            final(self).source() == old(self).source(),
            final(self).files() == old(self).files(),
            final(self).pending() == old(self).pending(),
            refcounts(final(self).dirs()) == count_released(refcounts(old(self).dirs()), fh),
            old(self).dirs().contains_key(fh) ==> {
                &&& r is Ok
                &&& if old(self).dirs()[fh].0 > 1 {
                    final(self).dirs() == old(self).dirs().insert(
                        fh,
                        ((old(self).dirs()[fh].0 - 1) as u32, old(self).dirs()[fh].1),
                    )
                } else {
                    final(self).dirs() == old(self).dirs().remove(fh)
                }
            },
            !old(self).dirs().contains_key(fh) ==> r == Err::<(), Errno>(Errno::ENOENT)
                && final(self).dirs() == old(self).dirs(),
    {
        let ghost before = self.dirs();
        match self.dir_map.remove(&fh) {
            Some(p) => {
                let (counter, entries) = p;
                if counter > 1 {
                    self.dir_map.insert(fh, (counter - 1, entries));
                }
                proof {
                    assert(refcounts(self.dirs()) =~= count_released(refcounts(before), fh));
                }
                Ok(())
            },
            None => {
                proof {
                    assert(refcounts(self.dirs()) =~= count_released(refcounts(before), fh));
                }
                Err(Errno::ENOENT)
            },
        }
    }

    /// The lines of open folder `fh` from `offset` on. Every file is shown
    /// as a regular file, whatever its payload type, as `lookup` and
    /// `getattr` report it.
    pub fn readdir(&self, fh: u64, offset: i64) -> (r: Result<Vec<DirItem>, Errno>)
        ensures
            !self.dirs().contains_key(fh) ==> r is Err && r->Err_0 == Errno::ENOENT,
            self.dirs().contains_key(fh) ==> {
                let entries = self.dirs()[fh].1@;
                let start = resume_at(offset, entries.len() as int);
                &&& r is Ok
                &&& r->Ok_0@.len() == entries.len() - start
                &&& forall|t: int|
                    0 <= t < r->Ok_0@.len() ==> shows(
                        #[trigger] r->Ok_0@[t],
                        entries[start + t],
                        start + t,
                    )
            },
    {
        let entries = match self.dir_map.get(&fh) {
            Some(p) => &p.1,
            None => {
                return Err(Errno::ENOENT);
            },
        };
        let n = entries.len();
        let start: usize = if offset < 0 || offset as u64 >= n as u64 {
            n
        } else {
            offset as usize
        };
        let mut items: Vec<DirItem> = Vec::new();
        let mut i: usize = start;
        while i < n
            invariant
                start <= i <= n,
                n == entries@.len(),
                start == resume_at(offset, n as int),
                items@.len() == i - start,
                forall|t: int|
                    0 <= t < items@.len() ==> shows(#[trigger] items@[t], entries@[start + t], start + t),
            decreases n - i,
        {
            let e = &entries[i];
            items.push(
                DirItem {
                    ino: e.attr.ino,
                    offset: (i + 1) as u64,
                    kind: if e.entry_type == EntryType::NONE {
                        FileKind::Directory
                    } else {
                        FileKind::RegularFile
                    },
                    name: e.file_name(),
                },
            );
            i = i + 1;
        }
        Ok(items)
    }
}


/// The counts after the opens (`true`) and releases (`false`) of `ops`,
/// in order, on inode `ino`.
pub open spec fn replay(c: Map<u64, nat>, ino: u64, ops: Seq<bool>) -> Map<u64, nat>
    decreases ops.len(),
{
    if ops.len() == 0 {
        c
    } else {
        let prev = replay(c, ino, ops.drop_last());
        if ops.last() {
            count_opened(prev, ino)
        } else {
            count_released(prev, ino)
        }
    }
}

/// Opens less releases in `ops`.
pub open spec fn net(ops: Seq<bool>) -> int
    decreases ops.len(),
{
    if ops.len() == 0 {
        0
    } else {
        net(ops.drop_last()) + if ops.last() {
            1int
        } else {
            -1int
        }
    }
}

/// Every release in `ops` follows an open that it matches, and every open
/// is released.
pub open spec fn balanced(ops: Seq<bool>) -> bool {
    &&& net(ops) == 0
    &&& forall|i: int| 0 <= i <= ops.len() ==> net(#[trigger] ops.take(i)) >= 0
}

/// Along any run of opens and releases of one inode that never releases
/// more than it opened, starting from a table that holds no handle for it,
/// the table holds a handle exactly while opens outnumber releases, and its
/// count is their difference.
pub proof fn lemma_replay_counts(c: Map<u64, nat>, ino: u64, ops: Seq<bool>)
    requires
        !c.contains_key(ino),
        forall|i: int| 0 <= i <= ops.len() ==> net(#[trigger] ops.take(i)) >= 0,
    ensures
        replay(c, ino, ops).contains_key(ino) ==> replay(c, ino, ops)[ino] == net(ops) && net(ops)
            >= 1,
        !replay(c, ino, ops).contains_key(ino) ==> net(ops) == 0,
    decreases ops.len(),
{
    if ops.len() > 0 {
        let prev = ops.drop_last();
        assert forall|i: int| 0 <= i <= prev.len() implies net(#[trigger] prev.take(i)) >= 0 by {
            assert(prev.take(i) =~= ops.take(i));
        }
        lemma_replay_counts(c, ino, prev);
        assert(ops.take(ops.len() as int) =~= ops);
    }
}

/// After any balanced run of opens and releases of one inode, starting from
/// a table that holds no handle for it, the table holds none again.
pub proof fn lemma_balanced_handles_close(c: Map<u64, nat>, ino: u64, ops: Seq<bool>)
    requires
        !c.contains_key(ino),
        balanced(ops),
    ensures
        !replay(c, ino, ops).contains_key(ino),
{
    lemma_replay_counts(c, ino, ops);
}


/// What `lookup` finds in a listing of the store is the trash folder or the
/// entry read from a sidecar of the scan, and it carries that sidecar's
/// inode.
pub proof fn lemma_lookup_finds_sidecar_inode(
    dir: Seq<char>,
    sidecars: Seq<Sidecar>,
    listing: Seq<DirEntry>,
    parent: u64,
    name: Seq<char>,
)
    requires
        is_listing_of(listing, dir, sidecars),
        found(listing, Pick::Shown(parent, name)) is Some,
    ensures
        ({
            let k = found(listing, Pick::Shown(parent, name))->0;
            ||| k == 0 && listing[k].attr.ino == TRASH_INO
            ||| 1 <= k < listing.len() && listing[k].attr.ino == sidecars[k - 1].stat.ino
        }),
{
    let k = found(listing, Pick::Shown(parent, name))->0;
    assert(is_first(listing, Pick::Shown(parent, name), k));
    if k >= 1 {
        assert(DirEntry::is_read_from(
            listing[(k - 1) + 1],
            dir,
            sidecars[k - 1].file_name@,
            crate::scanner::spec_conv_attr(sidecars[k - 1].stat),
            sidecars[k - 1].record@,
            sidecars[k - 1].payload_sizes@,
        ));
    }
}

/// The entry read from each sidecar of the scan is what `lookup` finds for
/// its own folder and shown name, with the sidecar's inode, unless an
/// earlier entry shows the same name in the same folder.
pub proof fn lemma_sidecar_found_by_lookup(
    dir: Seq<char>,
    sidecars: Seq<Sidecar>,
    listing: Seq<DirEntry>,
    j: int,
)
    requires
        is_listing_of(listing, dir, sidecars),
        0 <= j < sidecars.len(),
        forall|m: int|
            0 <= m <= j ==> !holds(
                Pick::Shown(listing[j + 1].parent_ino_in(listing), listing[j + 1].display_name()),
                #[trigger] listing[m],
                listing,
            ),
    ensures
        found(
            listing,
            Pick::Shown(listing[j + 1].parent_ino_in(listing), listing[j + 1].display_name()),
        ) == Some(j + 1),
        listing[j + 1].attr.ino == sidecars[j].stat.ino,
{
    let q = Pick::Shown(listing[j + 1].parent_ino_in(listing), listing[j + 1].display_name());
    assert(is_first(listing, q, j + 1));
    lemma_found_at(listing, q, j + 1);
}


proof fn lemma_children_listed(listing: Seq<DirEntry>, prefix: Seq<char>, t: int)
    requires
        0 <= t < children(listing, prefix).len(),
    ensures
        exists|i: int|
            0 <= i < listing.len() && listing[i] == children(listing, prefix)[t]
                && listing[i].parent@ == prefix,
    decreases listing.len(),
{
    let rest = children(listing.drop_last(), prefix);
    if t < rest.len() {
        lemma_children_listed(listing.drop_last(), prefix, t);
        let i = choose|i: int|
            0 <= i < listing.drop_last().len() && listing.drop_last()[i] == rest[t]
                && listing.drop_last()[i].parent@ == prefix;
        assert(listing[i] == children(listing, prefix)[t]);
    } else {
        assert(listing[listing.len() - 1] == children(listing, prefix)[t]);
    }
}

/// Each child that a folder keeps from a listing of the store is the trash
/// or the entry read from exactly one sidecar of the scan: the one at the
/// child's sidecar path, with the child's inode, whose record names the
/// folder as parent and gives the child's visible name.
pub proof fn lemma_child_has_one_sidecar(
    dir: Seq<char>,
    sidecars: Seq<Sidecar>,
    listing: Seq<DirEntry>,
    prefix: Seq<char>,
    t: int,
)
    requires
        is_listing_of(listing, dir, sidecars),
        forall|j: int| 0 <= j < sidecars.len() ==> is_sidecar(#[trigger] sidecars[j].file_name@),
        forall|j: int, k: int|
            0 <= j < k < sidecars.len() ==> #[trigger] sidecars[j].file_name@
                != #[trigger] sidecars[k].file_name@,
        0 <= t < children(listing, prefix).len(),
    ensures
        ({
            let c = children(listing, prefix)[t];
            exists|i: int|
                #![trigger listing[i]]
                0 <= i < listing.len() && listing[i] == c && c.parent@ == prefix && (i == 0 || {
                    &&& join(dir, sidecars[i - 1].file_name@) == c.metadata_path()
                    &&& sidecars[i - 1].stat.ino == c.attr.ino
                    &&& sidecars[i - 1].record.parent@ == prefix
                    &&& sidecars[i - 1].record.visible_name@ == c.name@
                    &&& forall|j: int|
                        0 <= j < sidecars.len() && j != i - 1 ==> join(
                            dir,
                            #[trigger] sidecars[j].file_name@,
                        ) != c.metadata_path()
                })
        }),
{
    let c = children(listing, prefix)[t];
    lemma_children_listed(listing, prefix, t);
    let i = choose|i: int| 0 <= i < listing.len() && listing[i] == c && listing[i].parent@ == prefix;
    if i > 0 {
        lemma_entry_has_one_sidecar(dir, sidecars, listing, i);
        assert(DirEntry::is_read_from(
            listing[(i - 1) + 1],
            dir,
            sidecars[i - 1].file_name@,
            crate::scanner::spec_conv_attr(sidecars[i - 1].stat),
            sidecars[i - 1].record@,
            sidecars[i - 1].payload_sizes@,
        ));
    }
}

} // verus!
