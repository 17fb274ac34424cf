use vstd::prelude::*;

verus! {

#[verifier::external_type_specification]
#[verifier::external_body]
pub struct ExAtlasAllocator(etagere::AtlasAllocator);

#[verifier::external_type_specification]
#[verifier::external_body]
pub struct ExAllocId(etagere::AllocId);

/// Width and height of the canvas an atlas allocator was created over.
pub uninterp spec fn canvas_of(a: etagere::AtlasAllocator) -> (int, int);

/// The set of canvas cells lying in regions the allocator has handed out and
/// not taken back. Allocation never shrinks this set.
pub uninterp spec fn claimed_of(a: etagere::AtlasAllocator) -> Set<(int, int)>;

/// What allocating a `width` by `height` rectangle from the allocator in the
/// given state answers: the corner of the granted region, or nothing when no
/// free region fits. Allocation walks only the allocator's own shelf and item
/// lists, so the outcome is a function of the allocator value and the request.
pub uninterp spec fn alloc_outcome(a: etagere::AtlasAllocator, width: u32, height: u32) -> Option<
    (u32, u32),
>;

/// The allocator state a successful allocation of a `width` by `height`
/// rectangle leaves behind; a function of the state and the request for the
/// same reason as `alloc_outcome`.
pub uninterp spec fn alloc_next(
    a: etagere::AtlasAllocator,
    width: u32,
    height: u32,
) -> etagere::AtlasAllocator;

/// The number of shelf and item records the allocator holds. The allocator
/// indexes these records with 16-bit values, reserves the highest one as a
/// list sentinel, and extends the record lists with an unguarded truncating
/// cast, so its bookkeeping stays sound only while this count stays below
/// that range; the contracts here therefore require plenty of headroom and
/// bound the growth of each allocation.
pub uninterp spec fn record_count(a: etagere::AtlasAllocator) -> int;

/// One placed rectangle: the allocator's handle for it, kept so that a future
/// eviction pass could free the region, and the top left corner the region was
/// given inside the canvas.
pub struct Placement {
    pub id: etagere::AllocId,
    pub x: u32,
    pub y: u32,
}

/// Relies on etagere::AtlasAllocator::new: builds a shelf-packing allocator
/// over a canvas of the given size, with every cell free. Its constructor
/// asserts that each side is in 1..=65535 and that the area fits in a signed
/// 32-bit value, so those bounds are required here.
#[verifier::external_body]
pub(crate) fn allocator_new(width: u32, height: u32) -> (r: etagere::AtlasAllocator)
    requires
        1 <= width <= 0xFFFF,
        1 <= height <= 0xFFFF,
        width * height <= 0x7FFF_FFFF,
    ensures
        canvas_of(r) == (width as int, height as int),
        claimed_of(r) == Set::<(int, int)>::empty(),
        record_count(r) == 2,
{
    etagere::AtlasAllocator::new(etagere::size2(width as i32, height as i32))
}

/// Relies on etagere::AtlasAllocator::allocate: places a `width` by `height`
/// rectangle inside the canvas, or returns `None` exactly when no free region
/// fits (`alloc_outcome` names the deterministic result). The region handed
/// back starts at the returned corner, reaches at least `width` by `height`
/// cells, does not leave the canvas, and was free: its cells were unclaimed
/// and become claimed, while every previously claimed cell stays claimed. A
/// refused request leaves the allocator exactly as it was. It never panics:
/// oversized, zero-sized and negative requests are refused with `None`.
///
/// Each call grows the record lists by at most one shelf and two items; all
/// of this holds only while the 16-bit record indexing is sound, hence the
/// bound on `record_count`.
#[verifier::external_body]
pub(crate) fn allocator_allocate(a: &mut etagere::AtlasAllocator, width: u32, height: u32) -> (r:
    Option<Placement>)
    requires
        record_count(*old(a)) <= 0x7FFF,
    ensures
        canvas_of(*final(a)) == canvas_of(*old(a)),
        match r {
            Some(p) => {
                &&& alloc_outcome(*old(a), width, height) == Some((p.x, p.y))
                &&& *final(a) == alloc_next(*old(a), width, height)
                &&& p.x + width <= canvas_of(*old(a)).0
                &&& p.y + height <= canvas_of(*old(a)).1
                &&& forall|px: int, py: int|
                    p.x <= px < p.x + width && p.y <= py < p.y + height ==> !(
                    #[trigger] claimed_of(*old(a)).contains((px, py)))
                &&& forall|px: int, py: int|
                    p.x <= px < p.x + width && p.y <= py < p.y + height ==> #[trigger] claimed_of(
                        *final(a),
                    ).contains((px, py))
                &&& claimed_of(*old(a)).subset_of(claimed_of(*final(a)))
                &&& record_count(*final(a)) <= record_count(*old(a)) + 3
            },
            None => {
                &&& alloc_outcome(*old(a), width, height) is None
                &&& *final(a) == *old(a)
            },
        },
{
    let size = etagere::size2(
        i32::try_from(width).unwrap_or(i32::MAX),
        i32::try_from(height).unwrap_or(i32::MAX),
    );
    let alloc = a.allocate(size)?;
    Some(
        Placement {
            id: alloc.id,
            x: alloc.rectangle.min.x as u32,
            y: alloc.rectangle.min.y as u32,
        },
    )
}

} // verus!
