use vstd::prelude::*;

use crate::direntry::{
    last_dot, lemma_last_dot_prefix, ext_of, join, probe_order, stem, with_ext, Attr, DirEntry, FileKind, SysTime, path_join,
    path_with_ext, entry_type_ext, EntryType,
};
use crate::jsonmetadata::JsonMetadata;

verus! {

/// The status of a sidecar file as the store reports it: times of access,
/// change and status change in seconds from the epoch.
#[derive(Debug, Copy, Clone, PartialEq, Eq, Structural)]
pub struct Stat {
    pub ino: u64,
    pub size: u64,
    pub blocks: u64,
    pub atime: i64,
    pub mtime: i64,
    pub ctime: i64,
    pub crtime: SysTime,
    pub is_dir: bool,
    pub mode: u32,
    pub uid: u32,
    pub gid: u32,
    pub rdev: u64,
    pub blksize: u64,
}

/// One sidecar found in the store: its file name, status, record, and the
/// sizes of `<prefix>.epub`, `<prefix>.pdf` and `<prefix>.rm` where they exist.
pub struct Sidecar {
    pub file_name: String,
    pub stat: Stat,
    pub record: JsonMetadata,
    pub payload_sizes: [Option<u64>; 3],
}

/// The point in time `secs` seconds after the epoch (before it, when
/// negative).
pub open spec fn spec_systime(secs: i64) -> SysTime {
    SysTime {
        before_epoch: secs < 0,
        secs: if secs < 0 {
            (-secs) as u64
        } else {
            secs as u64
        },
        nanos: 0,
    }
}

pub fn secs_to_systime(secs: i64) -> (r: SysTime)
    ensures
        r == spec_systime(secs),
{
    let magnitude: u64 = if secs < 0 {
        (-(secs as i128)) as u64
    } else {
        secs as u64
    };
    SysTime { before_epoch: secs < 0, secs: magnitude, nanos: 0 }
}

/// The attributes reported for a file of status `st`.
pub open spec fn spec_conv_attr(st: Stat) -> Attr {
    Attr {
        ino: st.ino,
        size: st.size,
        blocks: st.blocks,
        atime: spec_systime(st.atime),
        mtime: spec_systime(st.mtime),
        ctime: spec_systime(st.ctime),
        crtime: st.crtime,
        kind: if st.is_dir {
            FileKind::Directory
        } else {
            FileKind::RegularFile
        },
        perm: #[verifier::truncate] (st.mode as u16),
        nlink: 1,
        uid: st.uid,
        gid: st.gid,
        rdev: #[verifier::truncate] (st.rdev as u32),
        flags: 0,
        blksize: #[verifier::truncate] (st.blksize as u32),
    }
}

pub fn conv_attr(st: &Stat) -> (r: Attr)
    ensures
        r == spec_conv_attr(*st),
{
    Attr {
        ino: st.ino,
        size: st.size,
        blocks: st.blocks,
        atime: secs_to_systime(st.atime),
        mtime: secs_to_systime(st.mtime),
        ctime: secs_to_systime(st.ctime),
        crtime: st.crtime,
        kind: if st.is_dir {
            FileKind::Directory
        } else {
            FileKind::RegularFile
        },
        perm: #[verifier::truncate] (st.mode as u16),
        nlink: 1,
        uid: st.uid,
        gid: st.gid,
        rdev: #[verifier::truncate] (st.rdev as u32),
        flags: 0,
        blksize: #[verifier::truncate] (st.blksize as u32),
    }
}

/// A name that the scan reads as a sidecar: it ends in `.metadata` and is
/// no dotfile.
pub open spec fn is_sidecar(name: Seq<char>) -> bool {
    &&& name.len() >= 9
    &&& name.subrange(name.len() - 9, name.len() as int) == ".metadata"@
    &&& name[0] != '.'
}

pub fn is_sidecar_name(name: &str) -> (r: bool)
    ensures
        r == is_sidecar(name@),
{
    let suffix = ".metadata";
    proof {
        reveal_strlit(".metadata");
    }
    let n = name.unicode_len();
    if n < 9 {
        return false;
    }
    if name.get_char(0) == '.' {
        return false;
    }
    crate::direntry::str_eq(name.substring_char(n - 9, n), suffix)
}

/// The payload paths probed for the sidecar `file_name` in `dir`, in probe
/// order.
pub open spec fn spec_probe_paths(dir: Seq<char>, file_name: Seq<char>) -> Seq<Seq<char>> {
    probe_order().map_values(|t: EntryType| with_ext(join(dir, stem(file_name)), ext_of(t)))
}

pub fn probe_paths(dir: &str, file_name: &str) -> (r: Vec<String>)
    ensures
        r@.len() == 3,
        forall|i: int| 0 <= i < 3 ==> #[trigger] r@[i]@ == spec_probe_paths(dir@, file_name@)[i],
{
    let base = path_join(dir, crate::direntry::file_stem(file_name).as_str());
    let mut r: Vec<String> = Vec::new();
    r.push(path_with_ext(base.clone(), entry_type_ext(&EntryType::EPUB)));
    r.push(path_with_ext(base.clone(), entry_type_ext(&EntryType::PDF)));
    r.push(path_with_ext(base, entry_type_ext(&EntryType::RMLINES)));
    r
}

/// The listing of the store at `dir` whose sidecars are `sidecars`: the
/// trash folder first, then one entry for each sidecar, in order.
pub open spec fn is_listing_of(r: Seq<DirEntry>, dir: Seq<char>, sidecars: Seq<Sidecar>) -> bool {
    &&& r.len() == sidecars.len() + 1
    &&& DirEntry::is_trash(r[0], dir)
    &&& forall|i: int|
        0 <= i < sidecars.len() ==> DirEntry::is_read_from(
            #[trigger] r[i + 1],
            dir,
            sidecars[i].file_name@,
            spec_conv_attr(sidecars[i].stat),
            sidecars[i].record@,
            sidecars[i].payload_sizes@,
        )
}

pub fn list_dir_metadata(dir: &str, sidecars: &Vec<Sidecar>) -> (r: Vec<DirEntry>)
    ensures
        is_listing_of(r@, dir@, sidecars@),
{
    let mut res: Vec<DirEntry> = Vec::new();
    res.push(DirEntry::make_trash(dir));
    let mut i: usize = 0;
    while i < sidecars.len()
        invariant
            i <= sidecars@.len(),
            res@.len() == i + 1,
            DirEntry::is_trash(res@[0], dir@),
            forall|k: int|
                0 <= k < i ==> DirEntry::is_read_from(
                    #[trigger] res@[k + 1],
                    dir@,
                    sidecars@[k].file_name@,
                    spec_conv_attr(sidecars@[k].stat),
                    sidecars@[k].record@,
                    sidecars@[k].payload_sizes@,
                ),
        decreases sidecars@.len() - i,
    {
        let sc = &sidecars[i];
        let attr = conv_attr(&sc.stat);
        let e = DirEntry::new(dir, sc.file_name.as_str(), &attr, &sc.record, &sc.payload_sizes);
        res.push(e);
        i = i + 1;
    }
    res
}


/// A sidecar name is the sidecar name of its own stem.
proof fn lemma_sidecar_name_stem(name: Seq<char>)
    requires
        is_sidecar(name),
    ensures
        stem(name).len() > 0,
        with_ext(stem(name), "metadata"@) == name,
{
    reveal_strlit(".metadata");
    reveal_strlit("metadata");
    let n = name.len() as int;
    let tail = name.subrange(n - 9, n);
    assert(tail == ".metadata"@);
    assert forall|j: int| n - 8 <= j < n implies name[j] != '.' by {
        assert(name[j] == tail[j - (n - 9)]);
    }
    assert(name[n - 9] == tail[0]);
    lemma_last_dot_prefix(name, n - 8);
    assert(name.subrange(0, n - 8).last() == '.');
    assert(last_dot(name) == n - 9);
    assert(n - 9 > 0) by {
        if n == 9 {
            assert(name[0] == tail[0]);
        }
    }
    assert(with_ext(stem(name), "metadata"@) =~= name) by {
        assert forall|j: int| n - 8 <= j < n implies name[j] == "metadata"@[j - (n - 8)] by {
            assert(name[j] == tail[j - (n - 9)]);
        }
    }
}

/// Placing two names in one folder gives one path only for one name.
proof fn lemma_join_injective(dir: Seq<char>, a: Seq<char>, b: Seq<char>)
    requires
        join(dir, a) == join(dir, b),
    ensures
        a == b,
{
    if dir.len() > 0 {
        let d = if dir.last() == '/' {
            dir
        } else {
            dir + seq!['/']
        };
        assert(join(dir, a) == d + a);
        assert(join(dir, b) == d + b);
        assert(a =~= (d + a).subrange(d.len() as int, (d + a).len() as int));
        assert(b =~= (d + b).subrange(d.len() as int, (d + b).len() as int));
    }
}

/// A sidecar's path in `dir` is the sidecar path of the entry read from it.
proof fn lemma_join_sidecar(dir: Seq<char>, name: Seq<char>)
    requires
        is_sidecar(name),
    ensures
        with_ext(join(dir, stem(name)), "metadata"@) == join(dir, name),
{
    lemma_sidecar_name_stem(name);
    reveal_strlit("metadata");
    assert(with_ext(join(dir, stem(name)), "metadata"@) =~= join(dir, with_ext(stem(name), "metadata"@)));
}

/// Every entry of a listing but the trash is read from exactly one sidecar
/// of the scan: the one at the entry's sidecar path, whose record gives the
/// entry's visible name and parent.
pub proof fn lemma_entry_has_one_sidecar(
    dir: Seq<char>,
    sidecars: Seq<Sidecar>,
    listing: Seq<DirEntry>,
    i: int,
)
    requires
        is_listing_of(listing, dir, sidecars),
        1 <= i < listing.len(),
        forall|j: int| 0 <= j < sidecars.len() ==> is_sidecar(#[trigger] sidecars[j].file_name@),
        forall|j: int, k: int|
            0 <= j < k < sidecars.len() ==> #[trigger] sidecars[j].file_name@
                != #[trigger] sidecars[k].file_name@,
    ensures
        join(dir, sidecars[i - 1].file_name@) == listing[i].metadata_path(),
        sidecars[i - 1].record.visible_name@ == listing[i].name@,
        sidecars[i - 1].record.parent@ == listing[i].parent@,
        forall|j: int|
            0 <= j < sidecars.len() && j != i - 1 ==> join(dir, #[trigger] sidecars[j].file_name@)
                != listing[i].metadata_path(),
{
    let e = listing[i];
    let name = sidecars[i - 1].file_name@;
    assert(DirEntry::is_read_from(
        listing[(i - 1) + 1],
        dir,
        name,
        spec_conv_attr(sidecars[i - 1].stat),
        sidecars[i - 1].record@,
        sidecars[i - 1].payload_sizes@,
    ));
    assert(e.entry_type != EntryType::PENDING);
    lemma_join_sidecar(dir, name);
    assert forall|j: int|
        0 <= j < sidecars.len() && j != i - 1 implies join(dir, #[trigger] sidecars[j].file_name@)
        != e.metadata_path() by {
        if join(dir, sidecars[j].file_name@) == e.metadata_path() {
            lemma_join_injective(dir, sidecars[j].file_name@, name);
            if j < i - 1 {
                assert(sidecars[j].file_name@ != sidecars[i - 1].file_name@);
            } else {
                assert(sidecars[i - 1].file_name@ != sidecars[j].file_name@);
            }
        }
    }
}

} // verus!
