//! What holds of the registry and of the balancer across their operations,
//! stated over the models that the operations' contracts use.

use crate::kernel::{
    admit_outcome, after_admit, after_release, anonymous_request, is_live, locate_outcome,
    ranges_disjoint, region_wf, registry_wf, release_outcome, release_plan, request_outcome,
    MapRequest, Region, RegionError, RegionHandle, RegionState, UnmapRequest,
};
use crate::load_balancer::cursor_after;
use vstd::arithmetic::div_mod::{
    lemma_add_mod_noop_right, lemma_mod_add_multiples_vanish, lemma_small_mod,
};
use vstd::prelude::*;

verus! {

/// Registering a mapping keeps the registry's invariant, whatever the
/// operating system answered.
pub proof fn law_admit_keeps_invariant(regions: Seq<Region>, request: MapRequest, address: usize)
    requires
        registry_wf(regions),
    ensures
        registry_wf(after_admit(regions, request, address)),
{
    let after = after_admit(regions, request, address);
    if admit_outcome(regions, request, address) is Ok {
        let fresh = Region {
            base: address,
            length: request.length,
            state: RegionState::Live,
        };
        assert forall|i: int, j: int|
            #![trigger after[i], after[j]]
            0 <= i < after.len() && 0 <= j < after.len() && i != j && after[i].state
                == RegionState::Live && after[j].state
                == RegionState::Live implies ranges_disjoint(after[i], after[j]) by {
            if i < regions.len() && j < regions.len() {
                assert(ranges_disjoint(regions[i], regions[j]));
            } else if i < regions.len() {
                assert(ranges_disjoint(regions[i], fresh));
            } else {
                assert(ranges_disjoint(regions[j], fresh));
            }
        }
    }
}

/// Completing a release keeps the registry's invariant, whatever the
/// operating system answered.
pub proof fn law_release_keeps_invariant(regions: Seq<Region>, handle: RegionHandle, status: i32)
    requires
        registry_wf(regions),
    ensures
        registry_wf(after_release(regions, handle, status)),
{
    let after = after_release(regions, handle, status);
    if release_outcome(regions, handle, status) is Ok {
        assert forall|i: int, j: int|
            #![trigger after[i], after[j]]
            0 <= i < after.len() && 0 <= j < after.len() && i != j && after[i].state
                == RegionState::Live && after[j].state
                == RegionState::Live implies ranges_disjoint(after[i], after[j]) by {
            assert(ranges_disjoint(regions[i], regions[j]));
        }
    }
}

/// A request for a positive number of bytes is always accepted, and its
/// registration ends in exactly one of two ways. Either a live region of
/// exactly `size` bytes is recorded at the reported address, every offset
/// below `size` of which can be located and no other; or the allocation has
/// failed and the registry is what it was.
pub proof fn law_allocation_outcome(regions: Seq<Region>, size: usize, address: usize)
    requires
        registry_wf(regions),
        size > 0,
    ensures
        request_outcome(size) == Ok::<MapRequest, RegionError>(anonymous_request(size)),
        match admit_outcome(regions, anonymous_request(size), address) {
            Ok(handle) => {
                let after = after_admit(regions, anonymous_request(size), address);
                &&& handle.index == regions.len()
                &&& after.len() == regions.len() + 1
                &&& after[handle.index as int] == (Region {
                    base: address,
                    length: size,
                    state: RegionState::Live,
                })
                &&& is_live(after, handle)
                &&& address + size <= usize::MAX
                &&& forall|offset: usize|
                    offset < size ==> #[trigger] locate_outcome(after, handle, offset) == Ok::<
                        usize,
                        RegionError,
                    >((address + offset) as usize)
                &&& forall|offset: usize|
                    offset >= size ==> #[trigger] locate_outcome(after, handle, offset) == Err::<
                        usize,
                        RegionError,
                    >(RegionError::OutOfBounds)
            },
            Err(e) => {
                &&& e == RegionError::AllocationFailed
                &&& after_admit(regions, anonymous_request(size), address) == regions
            },
        },
{
}

/// A request for zero bytes is refused as invalid, and so is its
/// registration, whatever address is reported: the registry never records a
/// region for it.
pub proof fn law_empty_request_refused(regions: Seq<Region>, request: MapRequest, address: usize)
    requires
        request.length == 0,
    ensures
        request_outcome(0) == Err::<MapRequest, RegionError>(RegionError::InvalidRequest),
        admit_outcome(regions, request, address) == Err::<RegionHandle, RegionError>(
            RegionError::InvalidRequest,
        ),
        after_admit(regions, request, address) == regions,
{
}

/// Releasing a live region marks it released and touches no other entry.
/// From then on every further release of it, whatever status is reported,
/// is refused as a double release and changes nothing, and no byte of it can
/// be located any more.
pub proof fn law_release_is_final(
    regions: Seq<Region>,
    handle: RegionHandle,
    status: i32,
    offset: usize,
)
    requires
        registry_wf(regions),
        is_live(regions, handle),
    ensures
        release_outcome(regions, handle, 0) == Ok::<(), RegionError>(()),
        ({
            let after = after_release(regions, handle, 0);
            &&& after.len() == regions.len()
            &&& after[handle.index as int] == (Region {
                base: regions[handle.index as int].base,
                length: regions[handle.index as int].length,
                state: RegionState::Released,
            })
            &&& forall|i: int|
                0 <= i < regions.len() && i != handle.index ==> #[trigger] after[i] == regions[i]
            &&& !is_live(after, handle)
            &&& release_plan(after, handle) == Err::<UnmapRequest, RegionError>(
                RegionError::DoubleRelease,
            )
            &&& release_outcome(after, handle, status) == Err::<(), RegionError>(
                RegionError::DoubleRelease,
            )
            &&& after_release(after, handle, status) == after
            &&& locate_outcome(after, handle, offset) == Err::<usize, RegionError>(
                RegionError::UseAfterRelease,
            )
        }),
{
}

/// A release that the operating system rejects leaves the region live and
/// the registry unchanged.
pub proof fn law_rejected_release_keeps_region(
    regions: Seq<Region>,
    handle: RegionHandle,
    status: i32,
)
    requires
        is_live(regions, handle),
        status != 0,
    ensures
        release_outcome(regions, handle, status) == Err::<(), RegionError>(
            RegionError::ReleaseFailed,
        ),
        after_release(regions, handle, status) == regions,
{
}

/// No operation rewrites history: every entry keeps its position, base and
/// length, and an entry that is released stays released.
pub proof fn law_released_is_terminal(
    regions: Seq<Region>,
    i: int,
    request: MapRequest,
    address: usize,
    handle: RegionHandle,
    status: i32,
)
    requires
        0 <= i < regions.len(),
    ensures
        after_admit(regions, request, address)[i] == regions[i],
        after_release(regions, handle, status)[i].base == regions[i].base,
        after_release(regions, handle, status)[i].length == regions[i].length,
        regions[i].state == RegionState::Released ==> after_release(regions, handle, status)[i]
            == regions[i],
{
}

/// Two different live regions of a registry share no byte.
pub proof fn law_live_regions_disjoint(regions: Seq<Region>, a: RegionHandle, b: RegionHandle)
    requires
        registry_wf(regions),
        is_live(regions, a),
        is_live(regions, b),
        a != b,
    ensures
        ranges_disjoint(regions[a.index as int], regions[b.index as int]),
{
    assert(a.index != b.index);
}

/// A region that has just been registered shares no byte with any region
/// that was live before.
pub proof fn law_fresh_region_disjoint(
    regions: Seq<Region>,
    size: usize,
    address: usize,
    earlier: RegionHandle,
)
    requires
        registry_wf(regions),
        is_live(regions, earlier),
        admit_outcome(regions, anonymous_request(size), address) is Ok,
    ensures
        ranges_disjoint(
            regions[earlier.index as int],
            Region { base: address, length: size, state: RegionState::Live },
        ),
{
}

/// A located byte lies inside its region, and two different bytes of live
/// regions, in one region or in two, never share an address: what is
/// written to one is not changed by writing to another.
pub proof fn law_locations_distinct(
    regions: Seq<Region>,
    a: RegionHandle,
    offset_a: usize,
    b: RegionHandle,
    offset_b: usize,
)
    requires
        registry_wf(regions),
        locate_outcome(regions, a, offset_a) is Ok,
        locate_outcome(regions, b, offset_b) is Ok,
        a != b || offset_a != offset_b,
    ensures
        locate_outcome(regions, a, offset_a) == Ok::<usize, RegionError>(
            (regions[a.index as int].base + offset_a) as usize,
        ),
        regions[a.index as int].base <= regions[a.index as int].base + offset_a
            < regions[a.index as int].base + regions[a.index as int].length,
        locate_outcome(regions, a, offset_a) != locate_outcome(regions, b, offset_b),
{
    let ra = regions[a.index as int];
    let rb = regions[b.index as int];
    assert(region_wf(ra));
    assert(region_wf(rb));
    if a.index != b.index {
        assert(ranges_disjoint(ra, rb));
    }
}

/// Picking in turn is counting modulo the number of servers: after `picks`
/// picks the cursor has advanced by `picks` positions around the list, and
/// after as many picks as there are servers it is back where it started.
pub proof fn law_round_robin(cursor: nat, count: nat, picks: nat)
    requires
        count > 0,
        cursor < count,
    ensures
        cursor_after(cursor, count, picks) == (cursor + picks) % count,
        cursor_after(cursor, count, count) == cursor,
{
    lemma_cursor_advances(cursor, count, picks);
    lemma_cursor_advances(cursor, count, count);
    lemma_mod_add_multiples_vanish(cursor as int, count as int);
    lemma_small_mod(cursor, count);
}

proof fn lemma_cursor_advances(cursor: nat, count: nat, picks: nat)
    requires
        count > 0,
        cursor < count,
    ensures
        cursor_after(cursor, count, picks) == (cursor + picks) % count,
    decreases picks,
{
    if picks == 0 {
        lemma_small_mod(cursor, count);
    } else {
        lemma_cursor_advances(cursor, count, (picks - 1) as nat);
        lemma_add_mod_noop_right(1, cursor + picks - 1, count as int);
    }
}

} // verus!
