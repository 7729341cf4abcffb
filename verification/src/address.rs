//! The address translator: a pure bijection between inode numbers and the
//! logical entities of the namespace.
//!
//! Fixed inodes: 1 is the root directory, 2 the desktop-link file, 3 the
//! about file, 100 the "latest" symlink. For an item id `n >= 1`, the item's
//! directory inode is `n * COMIC_INODE_SHIFT` and its three field files are
//! at remainders 4 (title), 5 (alt text) and 6 (image bytes). Every other
//! inode value is unassigned.

use vstd::prelude::*;

verus! {

/// Distance between the directory inodes of two consecutive item ids; the
/// remainder of an inode modulo this constant selects the field kind.
pub const COMIC_INODE_SHIFT: u64 = 1000;

/// The largest item id whose field-file inodes still fit in a `u64`.
pub const MAX_ITEM_ID: u64 = 18446744073709551;

/// Inode of the root directory.
pub const ROOT_INODE: u64 = 1;

/// Inode of the fixed desktop-link file.
pub const DESKTOP_INODE: u64 = 2;

/// Inode of the fixed about file.
pub const ABOUT_INODE: u64 = 3;

/// Inode of the "latest" symlink.
pub const LATEST_INODE: u64 = 100;

/// One of the three synthesized files under an item's directory.
#[derive(Clone, Copy, Debug, PartialEq, Eq, Structural)]
pub enum FieldKind {
    Title,
    Alt,
    Image,
}

/// The remainder, modulo `COMIC_INODE_SHIFT`, of a field file's inode.
pub open spec fn field_rem(kind: FieldKind) -> u64 {
    match kind {
        FieldKind::Title => 4,
        FieldKind::Alt => 5,
        FieldKind::Image => 6,
    }
}

/// A logical entity of the namespace.
#[derive(Clone, Copy, Debug, PartialEq, Eq, Structural)]
pub enum Entity {
    Root,
    DesktopFile,
    AboutFile,
    LatestSymlink,
    ItemDir { id: u64 },
    ItemField { id: u64, kind: FieldKind },
}

/// The entity assigned to an inode, or `None` for an unassigned inode.
/// This is a pure function of the inode value alone, so an inode never
/// changes meaning within a session.
pub open spec fn spec_entity_of(ino: u64) -> Option<Entity> {
    if ino == ROOT_INODE {
        Some(Entity::Root)
    } else if ino == DESKTOP_INODE {
        Some(Entity::DesktopFile)
    } else if ino == ABOUT_INODE {
        Some(Entity::AboutFile)
    } else if ino == LATEST_INODE {
        Some(Entity::LatestSymlink)
    } else if ino >= COMIC_INODE_SHIFT && ino % COMIC_INODE_SHIFT == 0 {
        Some(Entity::ItemDir { id: ino / COMIC_INODE_SHIFT })
    } else if ino >= COMIC_INODE_SHIFT && ino % COMIC_INODE_SHIFT == 4 {
        Some(Entity::ItemField { id: ino / COMIC_INODE_SHIFT, kind: FieldKind::Title })
    } else if ino >= COMIC_INODE_SHIFT && ino % COMIC_INODE_SHIFT == 5 {
        Some(Entity::ItemField { id: ino / COMIC_INODE_SHIFT, kind: FieldKind::Alt })
    } else if ino >= COMIC_INODE_SHIFT && ino % COMIC_INODE_SHIFT == 6 {
        Some(Entity::ItemField { id: ino / COMIC_INODE_SHIFT, kind: FieldKind::Image })
    } else {
        None
    }
}

/// Classifies an inode into its entity, or `None` when the inode is
/// unassigned.
pub fn entity_of(ino: u64) -> (r: Option<Entity>)
    ensures
        r == spec_entity_of(ino),
{
    if ino == ROOT_INODE {
        Some(Entity::Root)
    } else if ino == DESKTOP_INODE {
        Some(Entity::DesktopFile)
    } else if ino == ABOUT_INODE {
        Some(Entity::AboutFile)
    } else if ino == LATEST_INODE {
        Some(Entity::LatestSymlink)
    } else if ino >= COMIC_INODE_SHIFT && ino % COMIC_INODE_SHIFT == 0 {
        Some(Entity::ItemDir { id: ino / COMIC_INODE_SHIFT })
    } else if ino >= COMIC_INODE_SHIFT && ino % COMIC_INODE_SHIFT == 4 {
        Some(Entity::ItemField { id: ino / COMIC_INODE_SHIFT, kind: FieldKind::Title })
    } else if ino >= COMIC_INODE_SHIFT && ino % COMIC_INODE_SHIFT == 5 {
        Some(Entity::ItemField { id: ino / COMIC_INODE_SHIFT, kind: FieldKind::Alt })
    } else if ino >= COMIC_INODE_SHIFT && ino % COMIC_INODE_SHIFT == 6 {
        Some(Entity::ItemField { id: ino / COMIC_INODE_SHIFT, kind: FieldKind::Image })
    } else {
        None
    }
}

/// The directory inode of item `id`; inverse of `entity_of` on item
/// directories.
pub fn dir_inode_of(id: u64) -> (ino: u64)
    requires
        1 <= id <= MAX_ITEM_ID,
    ensures
        ino == id * COMIC_INODE_SHIFT,
        spec_entity_of(ino) == Some(Entity::ItemDir { id }),
{
    proof {
        lemma_item_inode_round_trip(id);
    }
    id * COMIC_INODE_SHIFT
}

/// The inode of one of item `id`'s field files; inverse of `entity_of` on
/// field files.
pub fn field_inode_of(id: u64, kind: FieldKind) -> (ino: u64)
    requires
        1 <= id <= MAX_ITEM_ID,
    ensures
        ino == id * COMIC_INODE_SHIFT + field_rem(kind),
        spec_entity_of(ino) == Some(Entity::ItemField { id, kind }),
{
    proof {
        lemma_item_inode_round_trip(id);
    }
    let rem: u64 = match kind {
        FieldKind::Title => 4,
        FieldKind::Alt => 5,
        FieldKind::Image => 6,
    };
    id * COMIC_INODE_SHIFT + rem
}

/// Each fixed inode is assigned its expected entity.
pub proof fn lemma_fixed_inodes()
    ensures
        spec_entity_of(ROOT_INODE) == Some(Entity::Root),
        spec_entity_of(DESKTOP_INODE) == Some(Entity::DesktopFile),
        spec_entity_of(ABOUT_INODE) == Some(Entity::AboutFile),
        spec_entity_of(LATEST_INODE) == Some(Entity::LatestSymlink),
{
}

/// Round trip of the addressing scheme: for every representable item id, the
/// directory inode built for it classifies back to that item's directory,
/// and each field inode classifies back to that item and field kind.
pub proof fn lemma_item_inode_round_trip(id: u64)
    requires
        1 <= id <= MAX_ITEM_ID,
    ensures
        id * COMIC_INODE_SHIFT + 6 <= u64::MAX,
        spec_entity_of((id * COMIC_INODE_SHIFT) as u64) == Some(Entity::ItemDir { id }),
        forall|kind: FieldKind|
            spec_entity_of((id * COMIC_INODE_SHIFT + field_rem(kind)) as u64) == Some(
                Entity::ItemField { id, kind },
            ),
{
    assert(id * 1000 + 6 <= u64::MAX && id * 1000 >= 1000) by (nonlinear_arith)
        requires 1 <= id <= 18446744073709551;
    lemma_shift_decompose(id, 0);
    lemma_shift_decompose(id, 4);
    lemma_shift_decompose(id, 5);
    lemma_shift_decompose(id, 6);
    assert(id * 1000 == id * 1000 + 0);
}

/// Decomposition of an inode built from an item id and a remainder.
proof fn lemma_shift_decompose(id: u64, r: u64)
    requires
        1 <= id <= MAX_ITEM_ID,
        r < 1000,
    ensures
        (id * 1000 + r) % 1000 == r,
        (id * 1000 + r) / 1000 == id,
{
    assert((id * 1000 + r) % 1000 == r && (id * 1000 + r) / 1000 == id) by (nonlinear_arith)
        requires 1 <= id <= 18446744073709551 && r < 1000;
}

/// Every inode outside the fixed set and the item arithmetic is unassigned.
pub proof fn lemma_unassigned_inode(ino: u64)
    requires
        ino != ROOT_INODE,
        ino != DESKTOP_INODE,
        ino != ABOUT_INODE,
        ino != LATEST_INODE,
        !(ino >= COMIC_INODE_SHIFT && (ino % COMIC_INODE_SHIFT == 0 || ino % COMIC_INODE_SHIFT == 4
            || ino % COMIC_INODE_SHIFT == 5 || ino % COMIC_INODE_SHIFT == 6)),
    ensures
        spec_entity_of(ino) is None,
{
}

} // verus!
