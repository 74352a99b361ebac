//! Sv39 page table and address translation.
//!
//! A page table is a radix tree of exactly three levels; each level holds 512
//! entries. An entry is invalid, a leaf (physical page address plus
//! permission bits), or a branch owning the next-level table. A branch
//! carries no permission bits of its own: an entry with any of the
//! read/write/execute bits set terminates the walk, which is the
//! discriminator the hardware itself uses, so leaves always carry at least
//! one of those bits.
//!
//! The tree is modeled with owned nodes: every branch owns its child table,
//! so dropping a branch releases exactly the tables reachable from it and
//! never a leaf-referenced physical frame.

use vstd::prelude::*;

verus! {

use crate::PAGE_SIZE;

/// Exclusive top of the 39-bit virtual address space.
pub const VA_TOP: u64 = 0x80_0000_0000;

/// Leaf permission bit: readable.
pub const ENTRY_READ: u64 = 2;

/// Leaf permission bit: writable.
pub const ENTRY_WRITE: u64 = 4;

/// Leaf permission bit: executable.
pub const ENTRY_EXECUTE: u64 = 8;

/// Read + write, the usual bits for kernel data and device windows.
pub const ENTRY_READ_WRITE: u64 = 6;

/// Read + execute, the bits for the kernel's code and read-only data.
pub const ENTRY_READ_EXECUTE: u64 = 10;

/// One page-table entry.
pub enum Entry {
    Invalid,
    Leaf { pa: u64, bits: u64 },
    Branch(Box<Table>),
}

/// One level of the radix tree: 512 entries.
pub struct Table {
    pub entries: Vec<Entry>,
}

/// A successful translation: physical address and the leaf's permission bits.
#[derive(Clone, Copy, PartialEq, Eq, Structural, Debug)]
pub struct Mapping {
    pub pa: u64,
    pub bits: u64,
}

/// Virtual page number field of `va` for the given tree level.
pub open spec fn vpn_of(va: u64, level: nat) -> u64 {
    if level == 0 {
        (va >> 12) & 0x1ff
    } else if level == 1 {
        (va >> 21) & 0x1ff
    } else {
        (va >> 30) & 0x1ff
    }
}

/// Bytes covered by a leaf at the given level.
pub open spec fn page_span(level: nat) -> u64 {
    if level == 0 {
        0x1000
    } else if level == 1 {
        0x20_0000
    } else {
        0x4000_0000
    }
}

/// Offset mask within a leaf at the given level.
pub open spec fn off_mask(level: nat) -> u64 {
    if level == 0 {
        0xfff
    } else if level == 1 {
        0x1f_ffff
    } else {
        0x3fff_ffff
    }
}

/// Structural well-formedness of a table rooted at `level`: full 512-entry
/// nodes, branches only above level 0, and leaves aligned to their span and
/// carrying at least one of the read/write/execute bits.
pub open spec fn wf_table(t: Table, level: nat) -> bool
    decreases level, 1nat,
{
    &&& t.entries@.len() == 512
    &&& forall|k: int| 0 <= k < 512 ==> wf_entry(#[trigger] t.entries@[k], level)
}

/// Well-formedness of one entry found at `level`.
pub open spec fn wf_entry(e: Entry, level: nat) -> bool
    decreases level, 0nat,
{
    match e {
        Entry::Invalid => true,
        Entry::Leaf { pa, bits } => pa % page_span(level) == 0 && bits & 0xe != 0,
        Entry::Branch(sub) => level > 0 && wf_table(*sub, (level - 1) as nat),
    }
}

/// A tree whose leaves all sit at level 0 (no super-pages), as produced by
/// the finest-granularity mapping the boot path uses.
pub open spec fn fine_table(t: Table, level: nat) -> bool
    decreases level, 1nat,
{
    forall|k: int| 0 <= k < t.entries@.len() ==> fine_entry(#[trigger] t.entries@[k], level)
}

/// No leaf above level 0 in this entry.
pub open spec fn fine_entry(e: Entry, level: nat) -> bool
    decreases level, 0nat,
{
    match e {
        Entry::Invalid => true,
        Entry::Leaf { .. } => level == 0,
        Entry::Branch(sub) => level > 0 && fine_table(*sub, (level - 1) as nat),
    }
}

/// The translation a hardware walk would produce starting at a table rooted
/// at `level`: `None` as soon as an invalid entry is met, otherwise the
/// leaf's physical page plus the untranslated low bits of `va`.
pub open spec fn translate_at(t: Table, level: nat, va: u64) -> Option<Mapping>
    decreases level,
{
    if t.entries@.len() != 512 {
        None
    } else {
        match t.entries@[vpn_of(va, level) as int] {
            Entry::Invalid => None,
            Entry::Leaf { pa, bits } => Some(
                Mapping { pa: (pa + (va & off_mask(level))) as u64, bits },
            ),
            Entry::Branch(sub) => if level == 0 {
                None
            } else {
                translate_at(*sub, (level - 1) as nat, va)
            },
        }
    }
}

/// Translation through a full three-level tree.
pub open spec fn translate(t: Table, va: u64) -> Option<Mapping> {
    translate_at(t, 2, va)
}

/// What a walk of `v` returns after mapping `va -> pa` with `bits` at
/// `target` into a tree that was previously all-new along the walk of `va`.
pub open spec fn fresh_subtree_translate(
    level: nat,
    va: u64,
    pa: u64,
    bits: u64,
    target: nat,
    v: u64,
) -> Option<Mapping>
    decreases level,
{
    if vpn_of(v, level) != vpn_of(va, level) {
        None
    } else if level == target {
        Some(Mapping { pa: (pa + (v & off_mask(target))) as u64, bits })
    } else if level == 0 {
        None
    } else {
        fresh_subtree_translate((level - 1) as nat, va, pa, bits, target, v)
    }
}

/// What a walk of `v` returns after mapping `va -> pa` with `bits` at level
/// `target` into the tree `t` rooted at `level`. This mirrors the mapping
/// operation exactly, including the overwrite of whatever used to sit on the
/// walk of `va`.
pub open spec fn translate_after_map(
    t: Table,
    level: nat,
    va: u64,
    pa: u64,
    bits: u64,
    target: nat,
    v: u64,
) -> Option<Mapping>
    decreases level,
{
    if vpn_of(v, level) != vpn_of(va, level) {
        translate_at(t, level, v)
    } else if level == target {
        Some(Mapping { pa: (pa + (v & off_mask(target))) as u64, bits })
    } else if level == 0 {
        None
    } else {
        match t.entries@[vpn_of(va, level) as int] {
            Entry::Branch(sub) => translate_after_map(
                *sub,
                (level - 1) as nat,
                va,
                pa,
                bits,
                target,
                v,
            ),
            _ => fresh_subtree_translate((level - 1) as nat, va, pa, bits, target, v),
        }
    }
}

/// `va` and `v` agree on every virtual page number field from `level` down
/// to 0, i.e. a walk for `v` follows the walk for `va` all the way to a
/// level-0 leaf.
pub open spec fn same_vpns_upto(va: u64, v: u64, level: nat) -> bool {
    forall|l: nat| l <= level ==> vpn_of(va, l) == vpn_of(v, l)
}

impl Table {
    /// A fresh table with all 512 entries invalid: nothing translates.
    pub fn new() -> (r: Table)
        ensures
            r.entries@.len() == 512,
            forall|k: int| 0 <= k < 512 ==> #[trigger] r.entries@[k] is Invalid,
            forall|level: nat| wf_table(r, level),
            forall|level: nat| fine_table(r, level),
            forall|level: nat, va: u64| translate_at(r, level, va) is None,
    {
        let mut entries: Vec<Entry> = Vec::new();
        let mut i: usize = 0;
        while i < 512
            invariant
                i <= 512,
                entries@.len() == i,
                forall|k: int| 0 <= k < i ==> #[trigger] entries@[k] is Invalid,
            decreases 512 - i,
        {
            entries.push(Entry::Invalid);
            i = i + 1;
        }
        let t = Table { entries };
        assert forall|level: nat, va: u64| translate_at(t, level, va) is None by {
            assert((va >> 12) & 0x1ff < 512 && (va >> 21) & 0x1ff < 512 && (va >> 30) & 0x1ff
                < 512) by (bit_vector);
        }
        t
    }
}

/// Index of `va`'s virtual page number field for `level`.
fn vpn_index(va: u64, level: usize) -> (r: usize)
    requires
        level <= 2,
    ensures
        r == vpn_of(va, level as nat),
        r < 512,
{
    let x: u64 = if level == 0 {
        (va >> 12) & 0x1ff
    } else if level == 1 {
        (va >> 21) & 0x1ff
    } else {
        (va >> 30) & 0x1ff
    };
    assert((va >> 12) & 0x1ff < 512 && (va >> 21) & 0x1ff < 512 && (va >> 30) & 0x1ff < 512)
        by (bit_vector);
    x as usize
}

/// Recursive worker for the mapping operation.
fn map_rec(t: &mut Table, level: usize, va: u64, pa: u64, bits: u64, target: usize)
    requires
        wf_table(*old(t), level as nat),
        target <= level <= 2,
        pa % page_span(target as nat) == 0,
        bits & 0xe != 0,
    ensures
        wf_table(*final(t), level as nat),
        forall|v: u64|
            translate_at(*final(t), level as nat, v) == translate_after_map(
                *old(t),
                level as nat,
                va,
                pa,
                bits,
                target as nat,
                v,
            ),
        fine_table(*old(t), level as nat) && target == 0 ==> fine_table(*final(t), level as nat),
    decreases level,
{
    let i = vpn_index(va, level);
    if level == target {
        t.entries[i] = Entry::Leaf { pa, bits };
        proof {
            let lv = level as nat;
            assert forall|v: u64|
                translate_at(*t, lv, v) == translate_after_map(
                    *old(t),
                    lv,
                    va,
                    pa,
                    bits,
                    target as nat,
                    v,
                ) by {
                assert((v >> 12) & 0x1ff < 512 && (v >> 21) & 0x1ff < 512 && (v >> 30) & 0x1ff
                    < 512) by (bit_vector);
                if vpn_of(v, lv) == vpn_of(va, lv) {
                    assert(t.entries@[vpn_of(v, lv) as int] == Entry::Leaf { pa, bits });
                } else {
                    assert(t.entries@[vpn_of(v, lv) as int] == old(t).entries@[vpn_of(
                        v,
                        lv,
                    ) as int]);
                }
            }
        }
    } else {
        let e = t.entries.remove(i);
        let ghost e0 = e;
        let mut sub: Table = match e {
            Entry::Branch(b) => *b,
            _ => Table::new(),
        };
        let ghost sub0 = sub;
        map_rec(&mut sub, level - 1, va, pa, bits, target);
        let ghost sub1 = sub;
        t.entries.insert(i, Entry::Branch(Box::new(sub)));
        proof {
            let lv = level as nat;
            let lw = (level - 1) as nat;
            let tg = target as nat;
            assert(t.entries@ =~= old(t).entries@.update(i as int, t.entries@[i as int]));
            assert(t.entries@[i as int] matches Entry::Branch(bb) && *bb == sub1);
            assert forall|v: u64|
                translate_at(*t, lv, v) == translate_after_map(
                    *old(t),
                    lv,
                    va,
                    pa,
                    bits,
                    tg,
                    v,
                ) by {
                assert((v >> 12) & 0x1ff < 512 && (v >> 21) & 0x1ff < 512 && (v >> 30) & 0x1ff
                    < 512) by (bit_vector);
                if vpn_of(v, lv) == vpn_of(va, lv) {
                    assert(translate_at(*t, lv, v) == translate_at(sub1, lw, v));
                    assert(translate_at(sub1, lw, v) == translate_after_map(
                        sub0,
                        lw,
                        va,
                        pa,
                        bits,
                        tg,
                        v,
                    ));
                    if e0 is Branch {
                        assert(e0 matches Entry::Branch(bb) && sub0 == *bb);
                        assert(old(t).entries@[vpn_of(va, lv) as int] == e0);
                    } else {
                        // the walk descends into a freshly created subtree
                        assert(translate_at(sub0, lw, v) is None);
                        assert(translate_after_map(sub0, lw, va, pa, bits, tg, v)
                            == fresh_subtree_translate(lw, va, pa, bits, tg, v));
                    }
                } else {
                    assert(t.entries@[vpn_of(v, lv) as int] == old(t).entries@[vpn_of(
                        v,
                        lv,
                    ) as int]);
                }
            }
        }
    }
}

/// Maps `vaddr` to `paddr` with permission bits `bits`, creating any missing
/// intermediate tables on the way down and overwriting whatever entry sits
/// at the destination slot (remap semantics).
///
/// `level` selects the mapping granularity: 0 is a 4 KiB page, 1 a 2 MiB and
/// 2 a 1 GiB super-page; `paddr` must be aligned to that granularity. The
/// exact effect on every translation is given by `translate_after_map`; for
/// the finest granularity on a tree without super-pages this reduces to: the
/// page of `vaddr` now translates to `paddr` with `bits`, and every other
/// address translates as before.
pub fn map_page(root: &mut Table, vaddr: u64, paddr: u64, bits: u64, level: usize)
    requires
        wf_table(*old(root), 2),
        level <= 2,
        vaddr < VA_TOP,
        paddr % page_span(level as nat) == 0,
        bits & 0xe != 0,
    ensures
        wf_table(*final(root), 2),
        forall|v: u64|
            translate(*final(root), v) == translate_after_map(
                *old(root),
                2,
                vaddr,
                paddr,
                bits,
                level as nat,
                v,
            ),
        fine_table(*old(root), 2) && level == 0 ==> {
            &&& fine_table(*final(root), 2)
            &&& forall|v: u64|
                v >> 12 == vaddr >> 12 ==> translate(*final(root), v) == Some(
                    Mapping { pa: (paddr + (v & 0xfff)) as u64, bits },
                )
            &&& forall|v: u64|
                v < VA_TOP && v >> 12 != vaddr >> 12 ==> translate(*final(root), v) == translate(
                    *old(root),
                    v,
                )
        },
{
    map_rec(root, 2, vaddr, paddr, bits, level);
    proof {
        if fine_table(*old(root), 2) && level == 0 {
            assert forall|v: u64| v >> 12 == vaddr >> 12 implies translate(*final(root), v)
                == Some(Mapping { pa: (paddr + (v & 0xfff)) as u64, bits }) by {
                lemma_after_map_fine(*old(root), 2, vaddr, paddr, bits, v);
                lemma_same_page_same_vpns(vaddr, v);
            }
            assert forall|v: u64| v < VA_TOP && v >> 12 != vaddr >> 12 implies translate(
                *final(root),
                v,
            ) == translate(*old(root), v) by {
                lemma_after_map_fine(*old(root), 2, vaddr, paddr, bits, v);
                if same_vpns_upto(vaddr, v, 2) {
                    lemma_same_vpns_same_page(vaddr, v);
                }
            }
        }
    }
}

/// Start of the 4 KiB page containing `a`.
pub open spec fn page_down(a: u64) -> int {
    (a as int / (PAGE_SIZE as int)) * (PAGE_SIZE as int)
}

/// First page boundary at or above `a`.
pub open spec fn page_up(a: u64) -> int {
    ((a as int + PAGE_SIZE - 1) / (PAGE_SIZE as int)) * (PAGE_SIZE as int)
}

/// Drops every entry of the root table, releasing all intermediate tables
/// reachable from it (each branch owns its subtree). The root itself stays;
/// physical frames referenced by leaves are not owned by the tree and are
/// untouched. Afterwards nothing translates.
pub fn unmap(root: &mut Table)
    requires
        wf_table(*old(root), 2),
    ensures
        wf_table(*final(root), 2),
        fine_table(*final(root), 2),
        forall|va: u64| translate(*final(root), va) is None,
{
    let mut i: usize = 0;
    while i < 512
        invariant
            i <= 512,
            root.entries@.len() == 512,
            forall|k: int| 0 <= k < i ==> #[trigger] root.entries@[k] is Invalid,
            forall|k: int| i <= k < 512 ==> wf_entry(#[trigger] root.entries@[k], 2),
        decreases 512 - i,
    {
        root.entries[i] = Entry::Invalid;
        i = i + 1;
    }
    proof {
        assert forall|va: u64| translate(*root, va) is None by {
            assert((va >> 30) & 0x1ff < 512) by (bit_vector);
        }
    }
}

/// Offset mask for a leaf at the given level.
fn off_mask_at(level: usize) -> (r: u64)
    requires
        level <= 2,
    ensures
        r == off_mask(level as nat),
{
    if level == 0 {
        0xfff
    } else if level == 1 {
        0x1f_ffff
    } else {
        0x3fff_ffff
    }
}

/// Recursive walk, exactly as the hardware would do it.
fn walk(t: &Table, level: usize, va: u64) -> (r: Option<Mapping>)
    requires
        wf_table(*t, level as nat),
        level <= 2,
    ensures
        r == translate_at(*t, level as nat, va),
    decreases level,
{
    let i = vpn_index(va, level);
    match &t.entries[i] {
        Entry::Invalid => None,
        Entry::Leaf { pa, bits } => {
            let mask = off_mask_at(level);
            proof {
                assert(wf_entry(t.entries@[i as int], level as nat));
                let sp = page_span(level as nat);
                let p = *pa;
                assert(p % 0x1000 == 0 ==> p + 0xfff <= u64::MAX) by (bit_vector);
                assert(p % 0x20_0000 == 0 ==> p + 0x1f_ffff <= u64::MAX) by (bit_vector);
                assert(p % 0x4000_0000 == 0 ==> p + 0x3fff_ffff <= u64::MAX) by (bit_vector);
                assert((va & 0xfff) <= 0xfff && (va & 0x1f_ffff) <= 0x1f_ffff && (va
                    & 0x3fff_ffff) <= 0x3fff_ffff) by (bit_vector);
            }
            Some(Mapping { pa: *pa + (va & mask), bits: *bits })
        },
        Entry::Branch(sub) => {
            if level == 0 {
                None
            } else {
                proof {
                    assert(wf_entry(t.entries@[i as int], level as nat));
                }
                walk(&**sub, level - 1, va)
            }
        },
    }
}

/// Walks `vaddr` and returns the full translation, physical address and
/// the leaf's permission bits, or `None` at the first invalid entry.
pub fn lookup(root: &Table, vaddr: u64) -> (r: Option<Mapping>)
    requires
        wf_table(*root, 2),
    ensures
        r == translate(*root, vaddr),
{
    walk(root, 2, vaddr)
}

/// Walks `vaddr` through the tree exactly as the hardware would and returns
/// the physical address it resolves to, or `None` at the first invalid
/// entry: an address that was never mapped yields `None`, never a stale or
/// partial result.
pub fn virt_to_phys(root: &Table, vaddr: u64) -> (r: Option<u64>)
    requires
        wf_table(*root, 2),
    ensures
        match translate(*root, vaddr) {
            Some(m) => r == Some(m.pa),
            None => r is None,
        },
{
    match walk(root, 2, vaddr) {
        Some(m) => Some(m.pa),
        None => None,
    }
}

/// Identity-maps every 4 KiB page touching `[start, end)`: `start` is
/// rounded down and `end` rounded up to page boundaries, and each page in
/// between is mapped to itself with the given permission bits. Every address
/// inside the rounded range then translates to itself carrying `bits`;
/// every address outside it translates exactly as before.
#[verifier::loop_isolation(false)]
pub fn id_map_range(root: &mut Table, start: u64, end: u64, bits: u64)
    requires
        wf_table(*old(root), 2),
        fine_table(*old(root), 2),
        bits & 0xe != 0,
        start <= end,
        end <= VA_TOP,
    ensures
        wf_table(*final(root), 2),
        fine_table(*final(root), 2),
        forall|v: u64|
            page_down(start) <= v < page_up(end) ==> translate(*final(root), v) == Some(
                Mapping { pa: v, bits },
            ),
        forall|v: u64|
            v < VA_TOP && !(page_down(start) <= v < page_up(end)) ==> translate(*final(root), v)
                == translate(*old(root), v),
{
    let mut m: u64 = (start / PAGE_SIZE) * PAGE_SIZE;
    let top: u64 = ((end + (PAGE_SIZE - 1)) / PAGE_SIZE) * PAGE_SIZE;
    assert(m == page_down(start) && top == page_up(end) && m <= start && end <= top && top
        <= VA_TOP && m % PAGE_SIZE == 0 && top % PAGE_SIZE == 0) by (nonlinear_arith)
        requires
            m == (start as int / (PAGE_SIZE as int)) * (PAGE_SIZE as int),
            top == ((end + PAGE_SIZE - 1) as int / (PAGE_SIZE as int)) * (PAGE_SIZE as int),
            start <= end,
            end <= VA_TOP,
    ;
    while m < top
        invariant
            wf_table(*root, 2),
            fine_table(*root, 2),
            page_down(start) <= m <= top,
            m % PAGE_SIZE == 0,
            forall|v: u64|
                page_down(start) <= v < m ==> translate(*root, v) == Some(Mapping { pa: v, bits }),
            forall|v: u64|
                v < VA_TOP && !(page_down(start) <= v < m) ==> translate(*root, v) == translate(
                    *old(root),
                    v,
                ),
        decreases top - m,
    {
        let ghost before = *root;
        map_page(root, m, m, bits, 0);
        proof {
            assert forall|v: u64| page_down(start) <= v < m + PAGE_SIZE implies translate(
                *root,
                v,
            ) == Some(Mapping { pa: v, bits }) by {
                if m <= v {
                    assert(m % 0x1000 == 0 && m <= v < m + 0x1000 ==> v >> 12 == m >> 12 && m + (v
                        & 0xfff) == v) by (bit_vector);
                } else {
                    assert(m % 0x1000 == 0 && v < m && v >> 12 == m >> 12 ==> false)
                        by (bit_vector);
                }
            }
            assert forall|v: u64| v < VA_TOP && !(page_down(start) <= v < m + PAGE_SIZE) implies
                translate(*root, v) == translate(*old(root), v) by {
                assert(m % 0x1000 == 0 && (v < m || v >= m + 0x1000) ==> v >> 12 != m >> 12)
                    by (bit_vector)
                    requires
                        m % PAGE_SIZE == 0,
                ;
                assert(translate(*root, v) == translate(before, v));
            }
            assert(m % 0x1000 == 0 && 0x1000 <= top - m ==> m + 0x1000 <= top) by (bit_vector)
                requires
                    m % PAGE_SIZE == 0,
                    top % PAGE_SIZE == 0,
                    m < top,
            ;
            assert(m < top && m % 0x1000 == 0 && top % 0x1000 == 0 ==> m + 0x1000 <= top)
                by (bit_vector);
        }
        m = m + PAGE_SIZE;
    }
}

/// Two addresses of the same 4 KiB page agree on every virtual page number.
proof fn lemma_same_page_same_vpns(va: u64, v: u64)
    requires
        v >> 12 == va >> 12,
    ensures
        same_vpns_upto(va, v, 2),
{
    assert((va >> 12) & 0x1ff == (v >> 12) & 0x1ff && (va >> 21) & 0x1ff == (v >> 21) & 0x1ff && (
    va >> 30) & 0x1ff == (v >> 30) & 0x1ff) by (bit_vector)
        requires
            v >> 12 == va >> 12,
    ;
    assert forall|l: nat| l <= 2 implies vpn_of(va, l) == vpn_of(v, l) by {
        assert(l == 0 || l == 1 || l == 2);
    }
}

/// Inside the 39-bit space, agreeing on every virtual page number means
/// being in the same 4 KiB page.
proof fn lemma_same_vpns_same_page(va: u64, v: u64)
    requires
        va < VA_TOP,
        v < VA_TOP,
        same_vpns_upto(va, v, 2),
    ensures
        v >> 12 == va >> 12,
{
    assert(vpn_of(va, 0) == vpn_of(v, 0) && vpn_of(va, 1) == vpn_of(v, 1) && vpn_of(va, 2)
        == vpn_of(v, 2));
    assert((va < 0x80_0000_0000 && v < 0x80_0000_0000 && (va >> 12) & 0x1ff == (v >> 12) & 0x1ff
        && (va >> 21) & 0x1ff == (v >> 21) & 0x1ff && (va >> 30) & 0x1ff == (v >> 30) & 0x1ff)
        ==> v >> 12 == va >> 12) by (bit_vector);
}

/// On a tree without super-pages, a finest-granularity map either rewrites
/// the one page whose walk it follows or leaves a translation untouched.
proof fn lemma_after_map_fine(t: Table, level: nat, va: u64, pa: u64, bits: u64, v: u64)
    requires
        wf_table(t, level),
        fine_table(t, level),
        level <= 2,
    ensures
        translate_after_map(t, level, va, pa, bits, 0, v) == if same_vpns_upto(va, v, level) {
            Some(Mapping { pa: (pa + (v & 0xfff)) as u64, bits })
        } else {
            translate_at(t, level, v)
        },
    decreases level,
{
    assert((va >> 12) & 0x1ff < 512 && (va >> 21) & 0x1ff < 512 && (va >> 30) & 0x1ff < 512)
        by (bit_vector);
    if vpn_of(v, level) != vpn_of(va, level) {
        assert(!same_vpns_upto(va, v, level));
    } else if level == 0 {
        assert(same_vpns_upto(va, v, 0)) by {
            assert forall|l: nat| l <= 0 implies vpn_of(va, l) == vpn_of(v, l) by {
                assert(l == 0);
            }
        }
    } else {
        assert(vpn_of(va, level) < 512);
        assert(same_vpns_upto(va, v, level) <==> same_vpns_upto(va, v, (level - 1) as nat)) by {
            if same_vpns_upto(va, v, (level - 1) as nat) {
                assert forall|l: nat| l <= level implies vpn_of(va, l) == vpn_of(v, l) by {
                    if l < level {
                        assert(vpn_of(va, l) == vpn_of(v, l));
                    }
                }
            }
        }
        match t.entries@[vpn_of(va, level) as int] {
            Entry::Branch(sub) => {
                assert(wf_entry(t.entries@[vpn_of(va, level) as int], level));
                assert(fine_entry(t.entries@[vpn_of(va, level) as int], level));
                lemma_after_map_fine(*sub, (level - 1) as nat, va, pa, bits, v);
            },
            Entry::Leaf { .. } => {
                assert(!fine_entry(t.entries@[vpn_of(va, level) as int], level));
            },
            Entry::Invalid => {
                lemma_fresh_fine((level - 1) as nat, va, pa, bits, v);
            },
        }
    }
}

/// The walk of `v` through a freshly created chain of tables.
proof fn lemma_fresh_fine(level: nat, va: u64, pa: u64, bits: u64, v: u64)
    requires
        level <= 2,
    ensures
        fresh_subtree_translate(level, va, pa, bits, 0, v) == if same_vpns_upto(va, v, level) {
            Some(Mapping { pa: (pa + (v & 0xfff)) as u64, bits })
        } else {
            None
        },
    decreases level,
{
    if vpn_of(v, level) != vpn_of(va, level) {
        assert(!same_vpns_upto(va, v, level));
    } else if level == 0 {
        assert(same_vpns_upto(va, v, 0)) by {
            assert forall|l: nat| l <= 0 implies vpn_of(va, l) == vpn_of(v, l) by {
                assert(l == 0);
            }
        }
    } else {
        lemma_fresh_fine((level - 1) as nat, va, pa, bits, v);
        assert(same_vpns_upto(va, v, level) <==> same_vpns_upto(va, v, (level - 1) as nat)) by {
            if same_vpns_upto(va, v, (level - 1) as nat) {
                assert forall|l: nat| l <= level implies vpn_of(va, l) == vpn_of(v, l) by {
                    if l < level {
                        assert(vpn_of(va, l) == vpn_of(v, l));
                    }
                }
            }
        }
    }
}

} // verus!
