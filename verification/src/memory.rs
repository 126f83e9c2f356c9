//! Address arithmetic and the plain values exchanged with the address space:
//! page-table entries, mapping permissions and requested areas.
use vstd::prelude::*;

verus! {

/// Bytes in a page.
pub const PAGE_SIZE: usize = 4096;

/// Number of the page that holds address `va`.
pub fn page_number(va: usize) -> (r: usize)
    ensures
        r == va / PAGE_SIZE,
{
    va / PAGE_SIZE
}

/// Offset of address `va` within its page.
pub fn page_offset(va: usize) -> (r: usize)
    ensures
        r == va % PAGE_SIZE,
        r < PAGE_SIZE,
{
    va % PAGE_SIZE
}

/// The translation of a virtual page: its frame and its access bits.
#[derive(PartialEq, Eq, Structural, Debug, Clone, Copy)]
pub struct PageTableEntry {
    /// Physical page number of the frame.
    pub ppn: usize,
    /// The entry is in use.
    pub valid: bool,
    /// The page may be read.
    pub readable: bool,
    /// The page may be written.
    pub writable: bool,
}

/// Access rights of a mapped area.
#[derive(PartialEq, Eq, Structural, Debug, Clone, Copy)]
pub struct MapPermission {
    pub read: bool,
    pub write: bool,
    pub execute: bool,
    /// Reachable from user mode.
    pub user: bool,
}

/// An area `[start, end)` to be backed by fresh frames with permission `perm`.
#[derive(PartialEq, Eq, Structural, Debug, Clone, Copy)]
pub struct FramedArea {
    pub start: usize,
    pub end: usize,
    pub perm: MapPermission,
}

/// An address range `[start, end)`.
#[derive(PartialEq, Eq, Structural, Debug, Clone, Copy)]
pub struct AddrRange {
    pub start: usize,
    pub end: usize,
}

} // verus!
