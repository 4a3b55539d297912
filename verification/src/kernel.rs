//! The region manager: a registry of anonymous memory mappings.
//!
//! Acquiring a region takes two steps. [`allocate_memory`] validates the size
//! and describes the mapping to ask the operating system for; once the caller
//! has made that request, [`RegionManager::register_mapping`] judges the
//! address that came back and, if it is usable, records a live region and
//! hands out its handle. Releasing mirrors this:
//! [`RegionManager::free_memory`] names the range to unmap, and
//! [`RegionManager::complete_release`] records the operating system's verdict.

use vstd::prelude::*;

verus! {

/// Where a region stands in its life. `Released` is terminal.
#[derive(Clone, Copy, Debug, PartialEq, Eq, Structural)]
pub enum RegionState {
    Live,
    Released,
}

/// Why an operation on the registry was refused.
#[derive(Clone, Copy, Debug, PartialEq, Eq, Structural)]
pub enum RegionError {
    /// A region of zero bytes was asked for.
    InvalidRequest,
    /// The operating system created no usable mapping.
    AllocationFailed,
    /// The operating system rejected the unmapping.
    ReleaseFailed,
    /// The region was released before.
    DoubleRelease,
    /// The region was released and can no longer be accessed.
    UseAfterRelease,
    /// The handle names no region of this registry.
    UnknownRegion,
    /// The offset lies beyond the region's length.
    OutOfBounds,
}

/// One entry of the registry: the range `[base, base + length)` and its state.
#[derive(Clone, Copy, Debug, PartialEq, Eq, Structural)]
pub struct Region {
    pub base: usize,
    pub length: usize,
    pub state: RegionState,
}

/// Names a region of a registry by its position; it is not an address.
#[derive(Clone, Copy, Debug, PartialEq, Eq, Structural)]
pub struct RegionHandle {
    pub index: usize,
}

/// A mapping to ask the operating system for. It is never backed by a file
/// and is placed wherever the operating system chooses.
#[derive(Clone, Copy, Debug, PartialEq, Eq, Structural)]
pub struct MapRequest {
    pub length: usize,
    pub readable: bool,
    pub writable: bool,
    pub private: bool,
    pub anonymous: bool,
}

/// A range to hand back to the operating system.
#[derive(Clone, Copy, Debug, PartialEq, Eq, Structural)]
pub struct UnmapRequest {
    pub address: usize,
    pub length: usize,
}

/// The request for `size` bytes of private, anonymous, read-write memory.
pub open spec fn anonymous_request(size: usize) -> MapRequest {
    MapRequest { length: size, readable: true, writable: true, private: true, anonymous: true }
}

/// What `allocate_memory` answers for `size`.
pub open spec fn request_outcome(size: usize) -> Result<MapRequest, RegionError> {
    if size == 0 {
        Err(RegionError::InvalidRequest)
    } else {
        Ok(anonymous_request(size))
    }
}

/// Validates the size of a region and describes the mapping to request for
/// it. A size of zero is refused here, before the operating system is
/// involved at all.
pub fn allocate_memory(size: usize) -> (outcome: Result<MapRequest, RegionError>)
    ensures
        outcome == request_outcome(size),
{
    if size == 0 {
        Err(RegionError::InvalidRequest)
    } else {
        Ok(MapRequest { length: size, readable: true, writable: true, private: true, anonymous: true })
    }
}

/// The two ranges share no byte.
pub open spec fn ranges_disjoint(a: Region, b: Region) -> bool {
    a.base + a.length <= b.base || b.base + b.length <= a.base
}

/// A registered region is never empty and ends within the address space.
pub open spec fn region_wf(r: Region) -> bool {
    r.length > 0 && r.base + r.length <= usize::MAX
}

/// The registry's invariant: its entries can be counted in a `usize`, every
/// entry is well formed, and no two live regions overlap.
pub open spec fn registry_wf(regions: Seq<Region>) -> bool {
    &&& regions.len() <= usize::MAX
    &&& forall|i: int| 0 <= i < regions.len() ==> region_wf(#[trigger] regions[i])
    &&& forall|i: int, j: int|
        #![trigger regions[i], regions[j]]
        0 <= i < regions.len() && 0 <= j < regions.len() && i != j
            && regions[i].state == RegionState::Live
            && regions[j].state == RegionState::Live
            ==> ranges_disjoint(regions[i], regions[j])
}

/// The handle names a region of the registry that is live.
pub open spec fn is_live(regions: Seq<Region>, handle: RegionHandle) -> bool {
    handle.index < regions.len() && regions[handle.index as int].state == RegionState::Live
}

/// The range `[base, base + length)` touches no live region of the registry.
pub open spec fn clear_of_live(regions: Seq<Region>, base: usize, length: usize) -> bool {
    forall|i: int|
        0 <= i < regions.len() && (#[trigger] regions[i]).state == RegionState::Live
            ==> ranges_disjoint(regions[i], Region { base, length, state: RegionState::Live })
}

/// The address that the operating system reported stands for a mapping that
/// the registry can hand out: it is not the failure marker (the all-ones
/// address), the range ends within the address space, it touches no live
/// region, and the registry has room for one entry more.
pub open spec fn mapping_usable(regions: Seq<Region>, length: usize, address: usize) -> bool {
    &&& regions.len() < usize::MAX
    &&& address != usize::MAX
    &&& address + length <= usize::MAX
    &&& clear_of_live(regions, address, length)
}

/// What registering the answer `address` to `request` yields.
pub open spec fn admit_outcome(regions: Seq<Region>, request: MapRequest, address: usize) -> Result<
    RegionHandle,
    RegionError,
> {
    if request.length == 0 {
        Err(RegionError::InvalidRequest)
    } else if !mapping_usable(regions, request.length, address) {
        Err(RegionError::AllocationFailed)
    } else {
        Ok(RegionHandle { index: regions.len() as usize })
    }
}

/// The registry after registering the answer `address` to `request`: one
/// live region more on success, unchanged otherwise.
pub open spec fn after_admit(regions: Seq<Region>, request: MapRequest, address: usize) -> Seq<
    Region,
> {
    if admit_outcome(regions, request, address) is Ok {
        regions.push(Region { base: address, length: request.length, state: RegionState::Live })
    } else {
        regions
    }
}

/// The range to unmap in order to release `handle`, or why it cannot be
/// released.
pub open spec fn release_plan(regions: Seq<Region>, handle: RegionHandle) -> Result<
    UnmapRequest,
    RegionError,
> {
    if handle.index >= regions.len() {
        Err(RegionError::UnknownRegion)
    } else if regions[handle.index as int].state == RegionState::Released {
        Err(RegionError::DoubleRelease)
    } else {
        Ok(
            UnmapRequest {
                address: regions[handle.index as int].base,
                length: regions[handle.index as int].length,
            },
        )
    }
}

/// What completing the release of `handle` yields when the unmapping
/// returned `status` (zero for success).
pub open spec fn release_outcome(regions: Seq<Region>, handle: RegionHandle, status: i32) -> Result<
    (),
    RegionError,
> {
    match release_plan(regions, handle) {
        Err(e) => Err(e),
        Ok(_) => if status == 0 {
            Ok(())
        } else {
            Err(RegionError::ReleaseFailed)
        },
    }
}

/// The registry after completing the release of `handle` with `status`: the
/// region is marked released on success, and nothing changes otherwise.
pub open spec fn after_release(regions: Seq<Region>, handle: RegionHandle, status: i32) -> Seq<
    Region,
> {
    if release_outcome(regions, handle, status) is Ok {
        regions.update(
            handle.index as int,
            Region {
                base: regions[handle.index as int].base,
                length: regions[handle.index as int].length,
                state: RegionState::Released,
            },
        )
    } else {
        regions
    }
}

/// The address of the byte at `offset` in the region `handle`, or why it may
/// not be accessed.
pub open spec fn locate_outcome(regions: Seq<Region>, handle: RegionHandle, offset: usize) -> Result<
    usize,
    RegionError,
> {
    if handle.index >= regions.len() {
        Err(RegionError::UnknownRegion)
    } else if regions[handle.index as int].state == RegionState::Released {
        Err(RegionError::UseAfterRelease)
    } else if offset >= regions[handle.index as int].length {
        Err(RegionError::OutOfBounds)
    } else {
        Ok((regions[handle.index as int].base + offset) as usize)
    }
}

/// The live regions of the registry, in the order of their registration.
pub open spec fn live_regions(regions: Seq<Region>) -> Seq<Region> {
    regions.filter(|r: Region| r.state == RegionState::Live)
}

/// The address that `libc::MAP_FAILED` stands for, which a mapping call
/// returns in place of an address when it fails. libc defines the constant
/// as the pointer with every bit set; the contract claims, without proof,
/// that as an address this is the largest `usize`.
#[verifier::external_body]
fn map_failed_address() -> (address: usize)
    ensures
        address == usize::MAX,
{
    libc::MAP_FAILED as usize
}

/// The registry of every region handed out so far, live or released.
pub struct RegionManager {
    regions: Vec<Region>,
}

impl View for RegionManager {
    type V = Seq<Region>;

    closed spec fn view(&self) -> Seq<Region> {
        self.regions@
    }
}

impl RegionManager {
    /// The registry's invariant, which every registry keeps at all times.
    #[verifier::type_invariant]
    pub open spec fn wf(&self) -> bool {
        registry_wf(self@)
    }

    /// An empty registry.
    pub fn new() -> (manager: RegionManager)
        ensures
            manager@ == Seq::<Region>::empty(),
            manager.wf(),
    {
        RegionManager { regions: Vec::new() }
    }

    /// Judges the address that the operating system returned for `request`
    /// and, if it stands for a usable mapping, records a live region of
    /// exactly `request.length` bytes there, however far the operating
    /// system rounded the mapping up. The allocation has failed when the
    /// address is the failure marker, and also when recording the range would
    /// break the registry's invariant. On any error the registry is left as
    /// it was.
    pub fn register_mapping(&mut self, request: MapRequest, address: usize) -> (outcome: Result<
        RegionHandle,
        RegionError,
    >)
        ensures
            final(self).wf(),
            outcome == admit_outcome(old(self)@, request, address),
            final(self)@ == after_admit(old(self)@, request, address),
    {
        proof {
            use_type_invariant(&*self);
        }
        let length: usize = request.length;
        if length == 0 {
            return Err(RegionError::InvalidRequest);
        }
        if address == map_failed_address() || address > usize::MAX - length {
            return Err(RegionError::AllocationFailed);
        }
        let end: usize = address + length;
        let count: usize = self.regions.len();
        if count == usize::MAX {
            return Err(RegionError::AllocationFailed);
        }
        let mut i: usize = 0;
        while i < count
            invariant
                i <= count,
                count == self.regions.len(),
                self.regions@ == old(self)@,
                registry_wf(self.regions@),
                length == request.length,
                length > 0,
                end == address + length,
                forall|j: int|
                    0 <= j < i && (#[trigger] self.regions@[j]).state == RegionState::Live
                        ==> ranges_disjoint(
                        self.regions@[j],
                        Region { base: address, length, state: RegionState::Live },
                    ),
            decreases count - i,
        {
            let r = self.regions[i];
            match r.state {
                RegionState::Live => {
                    if !(r.base + r.length <= address || end <= r.base) {
                        assert(!ranges_disjoint(
                            self.regions@[i as int],
                            Region { base: address, length, state: RegionState::Live },
                        ));
                        return Err(RegionError::AllocationFailed);
                    }
                },
                RegionState::Released => {},
            }
            i += 1;
        }
        // The entries are changed outside the registry and put back whole, so
        // that the registry keeps its invariant at every step.
        let mut regions: Vec<Region> = Vec::new();
        core::mem::swap(&mut self.regions, &mut regions);
        regions.push(Region { base: address, length, state: RegionState::Live });
        self.regions = regions;
        Ok(RegionHandle { index: count })
    }

    /// Names the range to unmap in order to release the region `handle`.
    /// The registry does not change: the region stays live until
    /// `complete_release` learns that the unmapping succeeded.
    pub fn free_memory(&self, handle: RegionHandle) -> (outcome: Result<UnmapRequest, RegionError>)
        ensures
            outcome == release_plan(self@, handle),
    {
        if handle.index >= self.regions.len() {
            return Err(RegionError::UnknownRegion);
        }
        let r = self.regions[handle.index];
        match r.state {
            RegionState::Released => Err(RegionError::DoubleRelease),
            RegionState::Live => Ok(UnmapRequest { address: r.base, length: r.length }),
        }
    }

    /// Records the operating system's answer to the unmapping of the region
    /// `handle`: a status of zero marks the region released, any other leaves
    /// it live and reports the failure.
    pub fn complete_release(&mut self, handle: RegionHandle, status: i32) -> (outcome: Result<
        (),
        RegionError,
    >)
        ensures
            final(self).wf(),
            outcome == release_outcome(old(self)@, handle, status),
            final(self)@ == after_release(old(self)@, handle, status),
    {
        proof {
            use_type_invariant(&*self);
        }
        if handle.index >= self.regions.len() {
            return Err(RegionError::UnknownRegion);
        }
        let r = self.regions[handle.index];
        match r.state {
            RegionState::Released => Err(RegionError::DoubleRelease),
            RegionState::Live => {
                if status != 0 {
                    return Err(RegionError::ReleaseFailed);
                }
                let mut regions: Vec<Region> = Vec::new();
                core::mem::swap(&mut self.regions, &mut regions);
                regions.set(
                    handle.index,
                    Region { base: r.base, length: r.length, state: RegionState::Released },
                );
                self.regions = regions;
                Ok(())
            },
        }
    }

    /// The address of the byte at `offset` within the live region `handle`.
    pub fn locate(&self, handle: RegionHandle, offset: usize) -> (outcome: Result<usize, RegionError>)
        ensures
            outcome == locate_outcome(self@, handle, offset),
    {
        proof {
            use_type_invariant(self);
        }
        if handle.index >= self.regions.len() {
            return Err(RegionError::UnknownRegion);
        }
        let r = self.regions[handle.index];
        match r.state {
            RegionState::Released => Err(RegionError::UseAfterRelease),
            RegionState::Live => {
                if offset >= r.length {
                    Err(RegionError::OutOfBounds)
                } else {
                    Ok(r.base + offset)
                }
            },
        }
    }

    /// Whether `handle` names a live region of this registry.
    pub fn is_live(&self, handle: RegionHandle) -> (live: bool)
        ensures
            live == is_live(self@, handle),
    {
        if handle.index < self.regions.len() {
            match self.regions[handle.index].state {
                RegionState::Live => true,
                RegionState::Released => false,
            }
        } else {
            false
        }
    }

    /// The registry's entry for `handle`, if it has one.
    pub fn region(&self, handle: RegionHandle) -> (entry: Option<Region>)
        ensures
            entry == (if handle.index < self@.len() {
                Some(self@[handle.index as int])
            } else {
                None
            }),
    {
        if handle.index < self.regions.len() {
            Some(self.regions[handle.index])
        } else {
            None
        }
    }

    /// How many regions are live.
    pub fn live_count(&self) -> (count: usize)
        ensures
            count == live_regions(self@).len(),
    {
        let mut count: usize = 0;
        let mut i: usize = 0;
        proof {
            reveal(Seq::filter);
        }
        while i < self.regions.len()
            invariant
                i <= self.regions.len(),
                count <= i,
                count == live_regions(self.regions@.take(i as int)).len(),
            decreases self.regions.len() - i,
        {
            proof {
                reveal(Seq::filter);
                assert(self.regions@.take(i + 1).drop_last() =~= self.regions@.take(i as int));
            }
            match self.regions[i].state {
                RegionState::Live => {
                    count += 1;
                },
                RegionState::Released => {},
            }
            i += 1;
        }
        proof {
            assert(self.regions@.take(i as int) =~= self.regions@);
        }
        count
    }
}

} // verus!
