//! The filesystem core: name lookup, attribute computation, byte-window
//! reads, symlink reading and resumable directory enumeration, all over the
//! item cache.
//!
//! Every operation is a pure function of the namespace state. When an
//! operation cannot be answered before a remote fetch has happened, it
//! reports `FsError::NeedLatest` or `FsError::NeedItem(id)`; the host fetches
//! the missing data, deposits it in the cache, and retries the operation.

use vstd::prelude::*;
use vstd::string::StringSliceAdditionalSpecFns;

use crate::address::{
    spec_entity_of, entity_of, Entity, ABOUT_INODE, COMIC_INODE_SHIFT, DESKTOP_INODE,
    LATEST_INODE, MAX_ITEM_ID, ROOT_INODE,
};
use crate::cache::{ItemCache, Record};
use crate::content::{
    about_bytes, about_content, all_digits, decimal_digits, desktop_bytes, desktop_content,
    digits_value, parse_decimal, read_window, render_decimal, window_of,
};

verus! {

/// How an operation fails.
///
/// `NotFound` and `InvalidArgument` are final, per-operation answers.
/// `NeedLatest` and `NeedItem` say that the answer depends on data the cache
/// does not hold yet: the host must fetch the latest record (respectively the
/// record of the named item), deposit it, and retry. `RemoteUnavailable` is
/// never produced here; the host uses it for a fetch that failed.
#[derive(Clone, Copy, Debug, PartialEq, Eq, Structural)]
pub enum FsError {
    NotFound,
    InvalidArgument,
    RemoteUnavailable,
    NeedLatest,
    NeedItem(u64),
}

/// The kind of a namespace entity, as a kernel filesystem reports it.
#[derive(Clone, Copy, Debug, PartialEq, Eq, Structural)]
pub enum EntryKind {
    Directory,
    RegularFile,
    Symlink,
}

/// The attributes of one entity: directories are listable and traversable by
/// all, files and the symlink readable by all, nothing is writable.
#[derive(Clone, Copy, Debug, PartialEq, Eq, Structural)]
pub struct Attr {
    pub ino: u64,
    pub size: u64,
    pub blocks: u64,
    pub kind: EntryKind,
    pub perm: u16,
    pub nlink: u32,
}

/// The attributes of a directory.
pub open spec fn spec_dir_attr(ino: u64) -> Attr {
    Attr { ino, size: 0, blocks: 0, kind: EntryKind::Directory, perm: 0o555, nlink: 2 }
}

/// The attributes of a regular file of `size` bytes.
pub open spec fn spec_file_attr(ino: u64, size: u64) -> Attr {
    Attr { ino, size, blocks: 1, kind: EntryKind::RegularFile, perm: 0o444, nlink: 1 }
}

/// The attributes of the "latest" symlink whose target renders as `size`
/// bytes.
pub open spec fn spec_symlink_attr(size: u64) -> Attr {
    Attr { ino: LATEST_INODE, size, blocks: 0, kind: EntryKind::Symlink, perm: 0o444, nlink: 1 }
}

/// An exec byte-result agrees with its model.
pub open spec fn bytes_result_models(r: Result<Vec<u8>, FsError>, m: Result<Seq<u8>, FsError>) -> bool {
    match (r, m) {
        (Ok(v), Ok(s)) => v@ == s,
        (Err(a), Err(b)) => a == b,
        _ => false,
    }
}

/// The byte window `[offset, offset + size)` of content `s`, under the
/// content-window contract: a negative offset is invalid, and otherwise the
/// window is clamped to the content (empty at or past the end).
pub open spec fn spec_window_read(s: Seq<u8>, offset: i64, size: u32) -> Result<Seq<u8>, FsError> {
    if offset < 0 {
        Err(FsError::InvalidArgument)
    } else {
        Ok(window_of(s, offset as int, size as int))
    }
}

/// The namespace instance: the verified core of the filesystem, owning the
/// item cache.
pub struct XkcdFs {
    pub cache: ItemCache,
}

impl XkcdFs {
    /// The namespace is well formed when its cache is.
    pub open spec fn wf(self) -> bool {
        self.cache.wf()
    }

    /// A fresh namespace that has not yet learned the latest item id.
    pub fn new() -> (fs: XkcdFs)
        ensures
            fs.wf(),
            !fs.cache.has_latest(),
            fs.cache.records@ == Map::<u64, Record>::empty(),
    {
        XkcdFs { cache: ItemCache::new() }
    }

    /// The latest item id, if the cache has learned it; the host must fetch
    /// it otherwise.
    pub fn get_latest_num(&self) -> (r: Result<u64, FsError>)
        ensures
            self.cache.has_latest() ==> r == Ok::<u64, FsError>(self.cache.latest),
            !self.cache.has_latest() ==> r == Err::<u64, FsError>(FsError::NeedLatest),
    {
        if self.cache.latest == 0 {
            Err(FsError::NeedLatest)
        } else {
            Ok(self.cache.latest)
        }
    }

    /// The cached record of the item that `inode` belongs to, when `inode`
    /// addresses an item directory or field file whose record is cached.
    pub fn inode_to_comic(&self, inode: u64) -> (r: Option<&Record>)
        ensures
            match spec_entity_of(inode) {
                Some(Entity::ItemDir { id }) | Some(Entity::ItemField { id, .. }) => match r {
                    Some(rec) => self.cache.records@.contains_key(id) && *rec
                        == self.cache.records@[id],
                    None => !self.cache.records@.contains_key(id),
                },
                _ => r is None,
            },
    {
        match entity_of(inode) {
            Some(Entity::ItemDir { id }) => self.cache.get_record(id),
            Some(Entity::ItemField { id, kind: _ }) => self.cache.get_record(id),
            _ => None,
        }
    }

    /// The attributes of the entity at `ino`, as a function of the namespace
    /// state. Fixed files have their content's byte length as size; the
    /// symlink's size is the decimal length of the latest id; a field file's
    /// size is the cached field's byte length.
    pub open spec fn spec_attr_of(self, ino: u64) -> Result<Attr, FsError> {
        match spec_entity_of(ino) {
            None => Err(FsError::NotFound),
            Some(Entity::Root) => Ok(spec_dir_attr(ROOT_INODE)),
            Some(Entity::DesktopFile) => Ok(
                spec_file_attr(DESKTOP_INODE, desktop_content().len() as u64),
            ),
            Some(Entity::AboutFile) => Ok(
                spec_file_attr(ABOUT_INODE, about_content().len() as u64),
            ),
            Some(Entity::LatestSymlink) => if !self.cache.has_latest() {
                Err(FsError::NeedLatest)
            } else {
                Ok(spec_symlink_attr(decimal_digits(self.cache.latest as nat).len() as u64))
            },
            Some(Entity::ItemDir { id: _ }) => Ok(spec_dir_attr(ino)),
            Some(Entity::ItemField { id, kind }) => if !self.cache.records@.contains_key(id) {
                Err(FsError::NeedItem(id))
            } else {
                Ok(spec_file_attr(ino, self.cache.records@[id].spec_field_bytes(kind).len() as u64))
            },
        }
    }

    /// Builds the attributes of a regular file.
    pub fn create_file_attr(&self, ino: u64, size: u64) -> (a: Attr)
        ensures
            a == spec_file_attr(ino, size),
    {
        Attr { ino, size, blocks: 1, kind: EntryKind::RegularFile, perm: 0o444, nlink: 1 }
    }

    /// The attributes of the entity at `ino`: `NotFound` exactly on
    /// unassigned inodes, `NeedLatest` for the symlink before the latest id
    /// is known, `NeedItem` for a field file whose record is not yet cached,
    /// and the entity's attributes otherwise.
    pub fn get_file_attr(&self, ino: u64) -> (r: Result<Attr, FsError>)
        ensures
            r == self.spec_attr_of(ino),
    {
        match entity_of(ino) {
            None => Err(FsError::NotFound),
            Some(Entity::Root) => Ok(
                Attr {
                    ino: ROOT_INODE,
                    size: 0,
                    blocks: 0,
                    kind: EntryKind::Directory,
                    perm: 0o555,
                    nlink: 2,
                },
            ),
            Some(Entity::DesktopFile) => {
                let content = desktop_bytes();
                Ok(self.create_file_attr(DESKTOP_INODE, content.len() as u64))
            },
            Some(Entity::AboutFile) => {
                let content = about_bytes();
                Ok(self.create_file_attr(ABOUT_INODE, content.len() as u64))
            },
            Some(Entity::LatestSymlink) => {
                if self.cache.latest == 0 {
                    Err(FsError::NeedLatest)
                } else {
                    let target = render_decimal(self.cache.latest);
                    Ok(
                        Attr {
                            ino: LATEST_INODE,
                            size: target.len() as u64,
                            blocks: 0,
                            kind: EntryKind::Symlink,
                            perm: 0o444,
                            nlink: 1,
                        },
                    )
                }
            },
            Some(Entity::ItemDir { id: _ }) => Ok(
                Attr {
                    ino,
                    size: 0,
                    blocks: 0,
                    kind: EntryKind::Directory,
                    perm: 0o555,
                    nlink: 2,
                },
            ),
            Some(Entity::ItemField { id, kind }) => match self.cache.get_record(id) {
                None => Err(FsError::NeedItem(id)),
                Some(rec) => {
                    let size: u64 = rec.field_bytes(kind).len() as u64;
                    Ok(self.create_file_attr(ino, size))
                },
            },
        }
    }

    /// The bytes that a window read of `ino` returns, as a function of the
    /// namespace state. Only the two fixed files and the three field files
    /// have readable content; directories, the symlink and unassigned inodes
    /// are `NotFound` (the symlink target is read through `readlink`).
    pub open spec fn spec_read_of(self, ino: u64, offset: i64, size: u32) -> Result<
        Seq<u8>,
        FsError,
    > {
        match spec_entity_of(ino) {
            Some(Entity::DesktopFile) => spec_window_read(desktop_content(), offset, size),
            Some(Entity::AboutFile) => spec_window_read(about_content(), offset, size),
            Some(Entity::ItemField { id, kind }) => if !self.cache.records@.contains_key(id) {
                Err(FsError::NeedItem(id))
            } else {
                spec_window_read(self.cache.records@[id].spec_field_bytes(kind), offset, size)
            },
            _ => Err(FsError::NotFound),
        }
    }

    /// Reads the byte window `[offset, offset + size)` of the file at `ino`,
    /// clamped to its content.
    pub fn read_data(&self, ino: u64, offset: i64, size: u32) -> (r: Result<Vec<u8>, FsError>)
        ensures
            bytes_result_models(r, self.spec_read_of(ino, offset, size)),
    {
        match entity_of(ino) {
            Some(Entity::DesktopFile) => {
                let content = desktop_bytes();
                read_window(content.as_slice(), offset, size)
            },
            Some(Entity::AboutFile) => {
                let content = about_bytes();
                read_window(content.as_slice(), offset, size)
            },
            Some(Entity::ItemField { id, kind }) => match self.cache.get_record(id) {
                None => Err(FsError::NeedItem(id)),
                Some(rec) => read_window(rec.field_bytes(kind).as_slice(), offset, size),
            },
            _ => Err(FsError::NotFound),
        }
    }

    /// The target bytes of the symlink at `ino`: the decimal rendering of the
    /// latest id for the "latest" symlink, `NotFound` for everything else.
    pub open spec fn spec_readlink_of(self, ino: u64) -> Result<Seq<u8>, FsError> {
        if ino == LATEST_INODE {
            if !self.cache.has_latest() {
                Err(FsError::NeedLatest)
            } else {
                Ok(decimal_digits(self.cache.latest as nat))
            }
        } else {
            Err(FsError::NotFound)
        }
    }

    /// Reads the target of the "latest" symlink.
    pub fn readlink(&self, ino: u64) -> (r: Result<Vec<u8>, FsError>)
        ensures
            bytes_result_models(r, self.spec_readlink_of(ino)),
    {
        if ino == LATEST_INODE {
            if self.cache.latest == 0 {
                Err(FsError::NeedLatest)
            } else {
                Ok(render_decimal(self.cache.latest))
            }
        } else {
            Err(FsError::NotFound)
        }
    }

    /// The inode that the name `name` resolves to under the directory
    /// `parent`, in priority order: under the root a numeric name resolves to
    /// that item's directory when `1 <= n < latest`; under an item directory
    /// the three fixed field names resolve to that item's field files; under
    /// the root the three fixed names resolve to the symlink and the two
    /// fixed files; everything else is `NotFound`. The most recent item is
    /// reachable only through the "latest" alias, never by its own number.
    pub open spec fn spec_lookup_ino(self, parent: u64, name: Seq<u8>) -> Result<u64, FsError> {
        if parent == ROOT_INODE && name.len() > 0 && all_digits(name) {
            let n = digits_value(name);
            if n < 1 || n > u64::MAX {
                Err(FsError::NotFound)
            } else if !self.cache.has_latest() {
                Err(FsError::NeedLatest)
            } else if n < self.cache.latest {
                Ok((n * COMIC_INODE_SHIFT as int) as u64)
            } else {
                Err(FsError::NotFound)
            }
        } else {
            match spec_entity_of(parent) {
                Some(Entity::ItemDir { id }) => if name == "title.txt".spec_bytes() {
                    Ok((id * COMIC_INODE_SHIFT + 4) as u64)
                } else if name == "alt.txt".spec_bytes() {
                    Ok((id * COMIC_INODE_SHIFT + 5) as u64)
                } else if name == "image.png".spec_bytes() {
                    Ok((id * COMIC_INODE_SHIFT + 6) as u64)
                } else {
                    Err(FsError::NotFound)
                },
                _ => if parent == ROOT_INODE {
                    if name == "latest".spec_bytes() {
                        Ok(LATEST_INODE)
                    } else if name == "xkcd.desktop".spec_bytes() {
                        Ok(DESKTOP_INODE)
                    } else if name == "about.txt".spec_bytes() {
                        Ok(ABOUT_INODE)
                    } else {
                        Err(FsError::NotFound)
                    }
                } else {
                    Err(FsError::NotFound)
                },
            }
        }
    }

    /// What `lookup` returns: the attributes of the resolved inode, or the
    /// resolution error.
    pub open spec fn spec_lookup(self, parent: u64, name: Seq<u8>) -> Result<Attr, FsError> {
        match self.spec_lookup_ino(parent, name) {
            Ok(ino) => self.spec_attr_of(ino),
            Err(e) => Err(e),
        }
    }

    /// Resolves `name` under the directory `parent` and returns the resolved
    /// entity's attributes.
    pub fn lookup(&self, parent: u64, name: &[u8]) -> (r: Result<Attr, FsError>)
        requires
            self.wf(),
        ensures
            r == self.spec_lookup(parent, name@),
    {
        if parent == ROOT_INODE && is_nonempty_digits(name) {
            match parse_decimal(name) {
                None => {
                    // all digits, but the value exceeds any possible id range
                    return Err(FsError::NotFound);
                },
                Some(n) => {
                    if n < 1 {
                        return Err(FsError::NotFound);
                    }
                    if self.cache.latest == 0 {
                        return Err(FsError::NeedLatest);
                    }
                    if n < self.cache.latest {
                        let ino = crate::address::dir_inode_of(n);
                        return self.get_file_attr(ino);
                    }
                    return Err(FsError::NotFound);
                },
            }
        }
        let parent_entity = entity_of(parent);
        if let Some(Entity::ItemDir { id }) = parent_entity {
            proof {
                crate::address::lemma_item_inode_round_trip(id);
            }
            if bytes_eq(name, "title.txt".as_bytes()) {
                return self.get_file_attr(id * COMIC_INODE_SHIFT + 4);
            }
            if bytes_eq(name, "alt.txt".as_bytes()) {
                return self.get_file_attr(id * COMIC_INODE_SHIFT + 5);
            }
            if bytes_eq(name, "image.png".as_bytes()) {
                return self.get_file_attr(id * COMIC_INODE_SHIFT + 6);
            }
            return Err(FsError::NotFound);
        }
        if parent == ROOT_INODE {
            if bytes_eq(name, "latest".as_bytes()) {
                return self.get_file_attr(LATEST_INODE);
            }
            if bytes_eq(name, "xkcd.desktop".as_bytes()) {
                return self.get_file_attr(DESKTOP_INODE);
            }
            if bytes_eq(name, "about.txt".as_bytes()) {
                return self.get_file_attr(ABOUT_INODE);
            }
            return Err(FsError::NotFound);
        }
        Err(FsError::NotFound)
    }
}

/// The mathematical model of one directory entry.
pub struct EntryModel {
    pub ino: u64,
    pub kind: EntryKind,
    pub name: Seq<u8>,
}

/// One delivered directory entry.
#[derive(Debug)]
pub struct DirEntry {
    pub ino: u64,
    pub kind: EntryKind,
    pub name: Vec<u8>,
}

impl DirEntry {
    /// The entry's mathematical model.
    pub open spec fn model(self) -> EntryModel {
        EntryModel { ino: self.ino, kind: self.kind, name: self.name@ }
    }
}

/// The model of a delivered entry sequence.
pub open spec fn entries_model(s: Seq<DirEntry>) -> Seq<EntryModel> {
    s.map_values(|e: DirEntry| e.model())
}

/// The full ordered listing of an item's directory: self, parent, then the
/// three field files in their declaration order.
pub open spec fn item_listing(id: u64) -> Seq<EntryModel> {
    seq![
        EntryModel {
            ino: (id * COMIC_INODE_SHIFT) as u64,
            kind: EntryKind::Directory,
            name: ".".spec_bytes(),
        },
        EntryModel { ino: ROOT_INODE, kind: EntryKind::Directory, name: "..".spec_bytes() },
        EntryModel {
            ino: (id * COMIC_INODE_SHIFT + 4) as u64,
            kind: EntryKind::RegularFile,
            name: "title.txt".spec_bytes(),
        },
        EntryModel {
            ino: (id * COMIC_INODE_SHIFT + 5) as u64,
            kind: EntryKind::RegularFile,
            name: "alt.txt".spec_bytes(),
        },
        EntryModel {
            ino: (id * COMIC_INODE_SHIFT + 6) as u64,
            kind: EntryKind::RegularFile,
            name: "image.png".spec_bytes(),
        },
    ]
}

/// The full ordered listing of the root directory: self, parent, the fixed
/// children in declaration order, then the item directories in numerically
/// ascending order from 1 up to but excluding the latest id.
pub open spec fn root_listing(latest: u64) -> Seq<EntryModel>
    recommends
        latest >= 1,
{
    seq![
        EntryModel { ino: ROOT_INODE, kind: EntryKind::Directory, name: ".".spec_bytes() },
        EntryModel { ino: ROOT_INODE, kind: EntryKind::Directory, name: "..".spec_bytes() },
        EntryModel {
            ino: DESKTOP_INODE,
            kind: EntryKind::RegularFile,
            name: "xkcd.desktop".spec_bytes(),
        },
        EntryModel { ino: ABOUT_INODE, kind: EntryKind::RegularFile, name: "about.txt".spec_bytes() },
        EntryModel { ino: LATEST_INODE, kind: EntryKind::Directory, name: "latest".spec_bytes() },
    ] + Seq::new(
        (latest - 1) as nat,
        |i: int|
            EntryModel {
                ino: ((i + 1) * (COMIC_INODE_SHIFT as int)) as u64,
                kind: EntryKind::Directory,
                name: decimal_digits((i + 1) as nat),
            },
    )
}

/// The window of a listing delivered by one enumerator call that resumes at
/// `cursor` and delivers at most `max` entries.
pub open spec fn listing_window(l: Seq<EntryModel>, cursor: int, max: int) -> Seq<EntryModel> {
    if cursor >= l.len() {
        Seq::empty()
    } else if cursor + max <= l.len() {
        l.subrange(cursor, cursor + max)
    } else {
        l.subrange(cursor, l.len() as int)
    }
}

impl XkcdFs {
    /// The full listing of the directory at `ino`, as a function of the
    /// namespace state: the root listing needs the latest id; item
    /// directories list their three field files; nothing else is enumerable.
    pub open spec fn spec_dir_listing(self, ino: u64) -> Result<Seq<EntryModel>, FsError> {
        match spec_entity_of(ino) {
            Some(Entity::Root) => if !self.cache.has_latest() {
                Err(FsError::NeedLatest)
            } else {
                Ok(root_listing(self.cache.latest))
            },
            Some(Entity::ItemDir { id }) => Ok(item_listing(id)),
            _ => Err(FsError::NotFound),
        }
    }

    /// Enumerates the directory at `ino` from the resumption cursor on,
    /// delivering at most `max` entries. The delivered window is exactly
    /// `listing_window` of the directory's full listing, so resumed calls
    /// never skip and never duplicate an entry.
    pub fn readdir(&self, ino: u64, cursor: u64, max: u64) -> (r: Result<Vec<DirEntry>, FsError>)
        requires
            self.wf(),
        ensures
            match (r, self.spec_dir_listing(ino)) {
                (Ok(v), Ok(l)) => entries_model(v@) == listing_window(l, cursor as int, max as int),
                (Err(a), Err(b)) => a == b,
                _ => false,
            },
    {
        match entity_of(ino) {
            Some(Entity::Root) => {
                if self.cache.latest == 0 {
                    return Err(FsError::NeedLatest);
                }
                let latest: u64 = self.cache.latest;
                let ghost l = root_listing(latest);
                let total: u64 = 4 + latest;
                proof {
                    assert(l.len() == total);
                }
                let v = deliver_window(latest, true, total, cursor, max, Ghost(l));
                Ok(v)
            },
            Some(Entity::ItemDir { id }) => {
                let ghost l = item_listing(id);
                proof {
                    assert(l.len() == 5);
                    assert(id <= MAX_ITEM_ID) by {
                        assert(ino / COMIC_INODE_SHIFT <= u64::MAX / COMIC_INODE_SHIFT) by (nonlinear_arith)
                            requires ino <= u64::MAX;
                    }
                }
                let v = deliver_window(id, false, 5, cursor, max, Ghost(l));
                Ok(v)
            },
            _ => Err(FsError::NotFound),
        }
    }
}

/// Delivers the entries of one directory listing from `cursor` on, at most
/// `max` of them. `base` is the latest id for the root listing and the item
/// id for an item listing.
fn deliver_window(base: u64, root: bool, total: u64, cursor: u64, max: u64, Ghost(l): Ghost<
    Seq<EntryModel>,
>) -> (v: Vec<DirEntry>)
    requires
        1 <= base <= MAX_ITEM_ID,
        root ==> total == 4 + base && l == root_listing(base),
        !root ==> total == 5 && l == item_listing(base),
        l.len() == total,
    ensures
        entries_model(v@) == listing_window(l, cursor as int, max as int),
{
    let start: u64 = if cursor <= total {
        cursor
    } else {
        total
    };
    let count: u64 = if max <= total - start {
        max
    } else {
        total - start
    };
    let mut v: Vec<DirEntry> = Vec::new();
    let mut k: u64 = 0;
    proof {
        assert(entries_model(v@) =~= l.subrange(start as int, start as int));
    }
    while k < count
        invariant
            0 <= k <= count,
            start + count <= total,
            total == l.len(),
            1 <= base <= MAX_ITEM_ID,
            root ==> total == 4 + base && l == root_listing(base),
            !root ==> total == 5 && l == item_listing(base),
            v@.len() == k,
            entries_model(v@) == l.subrange(start as int, (start + k) as int),
        decreases count - k,
    {
        let e = if root {
            root_entry_at(base, start + k)
        } else {
            item_entry_at(base, start + k)
        };
        v.push(e);
        proof {
            let w = l.subrange(start as int, (start + k + 1) as int);
            assert forall|i: int| 0 <= i < w.len() implies entries_model(v@)[i] == w[i] by {
                if i < k {
                    assert(entries_model(v@)[i] == l.subrange(start as int, (start + k) as int)[i]);
                }
            }
            assert(entries_model(v@) =~= w);
        }
        k = k + 1;
    }
    proof {
        assert(l.subrange(start as int, (start + count) as int) =~= listing_window(
            l,
            cursor as int,
            max as int,
        ));
    }
    v
}

/// Builds the entry at position `idx` of the root listing.
fn root_entry_at(latest: u64, idx: u64) -> (e: DirEntry)
    requires
        1 <= latest <= MAX_ITEM_ID,
        idx < 4 + latest,
    ensures
        e.model() == root_listing(latest)[idx as int],
{
    if idx == 0 {
        DirEntry {
            ino: ROOT_INODE,
            kind: EntryKind::Directory,
            name: vstd::slice::slice_to_vec(".".as_bytes()),
        }
    } else if idx == 1 {
        DirEntry {
            ino: ROOT_INODE,
            kind: EntryKind::Directory,
            name: vstd::slice::slice_to_vec("..".as_bytes()),
        }
    } else if idx == 2 {
        DirEntry {
            ino: DESKTOP_INODE,
            kind: EntryKind::RegularFile,
            name: vstd::slice::slice_to_vec("xkcd.desktop".as_bytes()),
        }
    } else if idx == 3 {
        DirEntry {
            ino: ABOUT_INODE,
            kind: EntryKind::RegularFile,
            name: vstd::slice::slice_to_vec("about.txt".as_bytes()),
        }
    } else if idx == 4 {
        DirEntry {
            ino: LATEST_INODE,
            kind: EntryKind::Directory,
            name: vstd::slice::slice_to_vec("latest".as_bytes()),
        }
    } else {
        let id: u64 = idx - 4;
        proof {
            crate::address::lemma_item_inode_round_trip(id);
        }
        let e = DirEntry {
            ino: id * COMIC_INODE_SHIFT,
            kind: EntryKind::Directory,
            name: render_decimal(id),
        };
        proof {
            assert(root_listing(latest)[idx as int] == EntryModel {
                ino: ((idx - 4) * (COMIC_INODE_SHIFT as int)) as u64,
                kind: EntryKind::Directory,
                name: decimal_digits((idx - 4) as nat),
            });
        }
        e
    }
}

/// Builds the entry at position `idx` of an item directory's listing.
fn item_entry_at(id: u64, idx: u64) -> (e: DirEntry)
    requires
        1 <= id <= MAX_ITEM_ID,
        idx < 5,
    ensures
        e.model() == item_listing(id)[idx as int],
{
    proof {
        crate::address::lemma_item_inode_round_trip(id);
    }
    if idx == 0 {
        DirEntry {
            ino: id * COMIC_INODE_SHIFT,
            kind: EntryKind::Directory,
            name: vstd::slice::slice_to_vec(".".as_bytes()),
        }
    } else if idx == 1 {
        DirEntry {
            ino: ROOT_INODE,
            kind: EntryKind::Directory,
            name: vstd::slice::slice_to_vec("..".as_bytes()),
        }
    } else if idx == 2 {
        DirEntry {
            ino: id * COMIC_INODE_SHIFT + 4,
            kind: EntryKind::RegularFile,
            name: vstd::slice::slice_to_vec("title.txt".as_bytes()),
        }
    } else if idx == 3 {
        DirEntry {
            ino: id * COMIC_INODE_SHIFT + 5,
            kind: EntryKind::RegularFile,
            name: vstd::slice::slice_to_vec("alt.txt".as_bytes()),
        }
    } else {
        DirEntry {
            ino: id * COMIC_INODE_SHIFT + 6,
            kind: EntryKind::RegularFile,
            name: vstd::slice::slice_to_vec("image.png".as_bytes()),
        }
    }
}

/// Law: each fixed inode carries its expected kind and its expected size.
/// The root is a directory; the desktop-link and about files are regular
/// files sized by their fixed contents; the latest-alias is a symlink sized
/// by the decimal rendering of the latest id, and needs that id to be known.
pub proof fn lemma_fixed_inode_attributes(fs: XkcdFs)
    ensures
        fs.spec_attr_of(ROOT_INODE) == Ok::<Attr, FsError>(spec_dir_attr(ROOT_INODE)),
        fs.spec_attr_of(DESKTOP_INODE) == Ok::<Attr, FsError>(
            spec_file_attr(DESKTOP_INODE, desktop_content().len() as u64),
        ),
        fs.spec_attr_of(ABOUT_INODE) == Ok::<Attr, FsError>(
            spec_file_attr(ABOUT_INODE, about_content().len() as u64),
        ),
        fs.cache.has_latest() ==> fs.spec_attr_of(LATEST_INODE) == Ok::<Attr, FsError>(
            spec_symlink_attr(decimal_digits(fs.cache.latest as nat).len() as u64),
        ),
        !fs.cache.has_latest() ==> fs.spec_attr_of(LATEST_INODE) == Err::<Attr, FsError>(
            FsError::NeedLatest,
        ),
{
}

/// Law: on an unassigned inode, every operation reports `NotFound`: its
/// attributes, a window read, a symlink read, an enumeration, and a lookup
/// under it of any name.
pub proof fn lemma_unassigned_inode_operations(
    fs: XkcdFs,
    ino: u64,
    name: Seq<u8>,
    offset: i64,
    size: u32,
)
    requires
        spec_entity_of(ino) is None,
    ensures
        fs.spec_attr_of(ino) == Err::<Attr, FsError>(FsError::NotFound),
        fs.spec_read_of(ino, offset, size) == Err::<Seq<u8>, FsError>(FsError::NotFound),
        fs.spec_readlink_of(ino) == Err::<Seq<u8>, FsError>(FsError::NotFound),
        fs.spec_dir_listing(ino) == Err::<Seq<EntryModel>, FsError>(FsError::NotFound),
        fs.spec_lookup(ino, name) == Err::<Attr, FsError>(FsError::NotFound),
{
}

/// The concatenation of the enumeration windows cut at `cuts`: window `t`
/// holds the entries from cursor `cuts[t]` up to cursor `cuts[t + 1]`, as
/// `readdir` delivers them.
pub open spec fn concat_windows(l: Seq<EntryModel>, cuts: Seq<int>) -> Seq<EntryModel>
    decreases cuts.len(),
{
    if cuts.len() < 2 {
        Seq::empty()
    } else {
        l.subrange(cuts[0], cuts[1]) + concat_windows(l, cuts.drop_first())
    }
}

/// Law: enumeration is resumable. Concatenating enumerator calls that start
/// at cursor 0, stop at arbitrary points, and each resume exactly where the
/// previous one stopped, yields the same full ordered listing as a single
/// unbounded call: no entry is skipped and none is duplicated.
pub proof fn lemma_enumeration_resumable(l: Seq<EntryModel>, cuts: Seq<int>)
    requires
        cuts.len() >= 2,
        cuts[0] == 0,
        cuts.last() == l.len(),
        forall|i: int, j: int|
            #![trigger cuts[i], cuts[j]]
            0 <= i <= j < cuts.len() ==> cuts[i] <= cuts[j],
        forall|i: int| 0 <= i < cuts.len() ==> 0 <= #[trigger] cuts[i] <= l.len(),
    ensures
        concat_windows(l, cuts) == l,
{
    lemma_concat_windows_subrange(l, cuts);
    assert(l.subrange(0, l.len() as int) =~= l);
}

/// The concatenated windows cover exactly the range from the first cut to
/// the last.
proof fn lemma_concat_windows_subrange(l: Seq<EntryModel>, cuts: Seq<int>)
    requires
        cuts.len() >= 2,
        forall|i: int, j: int|
            #![trigger cuts[i], cuts[j]]
            0 <= i <= j < cuts.len() ==> cuts[i] <= cuts[j],
        forall|i: int| 0 <= i < cuts.len() ==> 0 <= #[trigger] cuts[i] <= l.len(),
    ensures
        concat_windows(l, cuts) == l.subrange(cuts[0], cuts.last()),
    decreases cuts.len(),
{
    if cuts.len() == 2 {
        assert(cuts.drop_first().len() == 1);
        assert(concat_windows(l, cuts.drop_first()) == Seq::<EntryModel>::empty());
        assert(concat_windows(l, cuts) =~= l.subrange(cuts[0], cuts[1]));
    } else {
        let tail = cuts.drop_first();
        assert forall|i: int, j: int|
            #![trigger tail[i], tail[j]]
            0 <= i <= j < tail.len() implies tail[i] <= tail[j] by {
            assert(cuts[i + 1] <= cuts[j + 1]);
        }
        assert forall|i: int| 0 <= i < tail.len() implies 0 <= #[trigger] tail[i] <= l.len() by {
            assert(0 <= cuts[i + 1] <= l.len());
        }
        lemma_concat_windows_subrange(l, tail);
        assert(tail[0] == cuts[1]);
        assert(tail.last() == cuts.last());
        assert(cuts[0] <= cuts[1] <= cuts.last());
        assert(l.subrange(cuts[0], cuts[1]) + l.subrange(cuts[1], cuts.last()) =~= l.subrange(
            cuts[0],
            cuts.last(),
        ));
    }
}

/// Whether `name` is nonempty and all decimal digits.
pub fn is_nonempty_digits(name: &[u8]) -> (r: bool)
    ensures
        r == (name@.len() > 0 && all_digits(name@)),
{
    if name.len() == 0 {
        return false;
    }
    let mut i: usize = 0;
    while i < name.len()
        invariant
            0 <= i <= name@.len(),
            forall|j: int| 0 <= j < i ==> crate::content::is_digit(#[trigger] name@[j]),
        decreases name@.len() - i,
    {
        let b: u8 = *vstd::slice::slice_index_get(name, i);
        if b < 48 || b > 57 {
            assert(!crate::content::is_digit(name@[i as int]));
            return false;
        }
        i = i + 1;
    }
    true
}

/// Whether two byte strings hold the same bytes.
pub fn bytes_eq(a: &[u8], b: &[u8]) -> (r: bool)
    ensures
        r == (a@ == b@),
{
    if a.len() != b.len() {
        return false;
    }
    let mut i: usize = 0;
    while i < a.len()
        invariant
            a@.len() == b@.len(),
            0 <= i <= a@.len(),
            forall|j: int| 0 <= j < i ==> a@[j] == b@[j],
        decreases a@.len() - i,
    {
        if *vstd::slice::slice_index_get(a, i) != *vstd::slice::slice_index_get(b, i) {
            return false;
        }
        i = i + 1;
    }
    proof {
        assert(a@ =~= b@);
    }
    true
}

} // verus!
