//! Loads machine code into memory that passes from writable to read-only to
//! executable, and is never writable and executable at once.
use vstd::prelude::*;

verus! {

/// mmap-rs's read-only or executable mapping, carried as an opaque value.
#[verifier::external_type_specification]
#[verifier::external_body]
pub struct ExMmap(mmap_rs::Mmap);

/// mmap-rs's writable mapping, carried as an opaque value.
#[verifier::external_type_specification]
#[verifier::external_body]
pub struct ExMmapMut(mmap_rs::MmapMut);

/// mmap-rs's error, handed on to the caller as it is.
#[verifier::external_type_specification]
#[verifier::external_body]
pub struct ExMmapError(mmap_rs::Error);

/// The bytes that a writable mapping holds, as many as it is long.
pub uninterp spec fn writable_bytes(m: mmap_rs::MmapMut) -> Seq<u8>;

/// The bytes that a read-only or executable mapping holds.
pub uninterp spec fn mapped_bytes(m: mmap_rs::Mmap) -> Seq<u8>;

/// Whether a non-writable mapping may be run as code.
pub uninterp spec fn mapped_exec(m: mmap_rs::Mmap) -> bool;

/// Relies on `MmapOptions::new` and `MmapOptions::map_mut` of mmap-rs: a
/// fresh anonymous mapping, readable and writable, exactly `size` bytes long.
#[verifier::external_body]
fn map_writable(size: usize) -> (r: Result<mmap_rs::MmapMut, mmap_rs::Error>)
    ensures
        r matches Ok(m) ==> writable_bytes(m).len() == size,
{
    match mmap_rs::MmapOptions::new(size) {
        Ok(options) => options.map_mut(),
        Err(e) => Err(e),
    }
}

/// Relies on `MmapMut::as_mut_slice` of mmap-rs, a slice over the whole
/// mapping, which `copy_from_slice` then fills.
#[verifier::external_body]
fn copy_into(m: &mut mmap_rs::MmapMut, code: &[u8])
    requires
        writable_bytes(*old(m)).len() == code@.len(),
    ensures
        writable_bytes(*final(m)) == code@,
{
    m.as_mut_slice().copy_from_slice(code)
}

/// Relies on `MmapMut::make_read_only` of mmap-rs: the same pages are
/// remapped readable only; on failure the writable mapping comes back.
pub assume_specification[ mmap_rs::MmapMut::make_read_only ](m: mmap_rs::MmapMut) -> (r: Result<
    mmap_rs::Mmap,
    (mmap_rs::MmapMut, mmap_rs::Error),
>)
    ensures
        r matches Ok(ro) ==> mapped_bytes(ro) == writable_bytes(m) && !mapped_exec(ro),
        r matches Err((back, _)) ==> writable_bytes(back) == writable_bytes(m),
;

/// Relies on `Mmap::make_exec` of mmap-rs: the same pages are remapped
/// readable and executable and the instruction cache is flushed; on failure
/// the mapping comes back.
pub assume_specification[ mmap_rs::Mmap::make_exec ](m: mmap_rs::Mmap) -> (r: Result<
    mmap_rs::Mmap,
    (mmap_rs::Mmap, mmap_rs::Error),
>)
    ensures
        r matches Ok(x) ==> mapped_bytes(x) == mapped_bytes(m) && mapped_exec(x),
        r matches Err((back, _)) ==> mapped_bytes(back) == mapped_bytes(m),
;

/// Relies on `Mmap::as_slice` of mmap-rs: a slice over the whole mapping.
pub assume_specification[ mmap_rs::Mmap::as_slice ](m: &mmap_rs::Mmap) -> (r: &[u8])
    ensures
        r@ == mapped_bytes(*m),
;

/// Where a region of code is in its life.
#[derive(PartialEq, Eq, Debug, Clone, Copy, Structural)]
pub enum RegionState {
    /// Freshly mapped; bytes may be copied in.
    Writable,
    /// Readable only.
    ReadOnly,
    /// Readable and executable; may be called.
    Executable,
    /// Unmapped.
    Released,
}

impl RegionState {
    /// Whether the region may be written in this state.
    pub open spec fn writable(self) -> bool {
        self == RegionState::Writable
    }

    /// Whether the region may be run as code in this state.
    pub open spec fn executable(self) -> bool {
        self == RegionState::Executable
    }

    /// The position of the state in the region's life.
    pub open spec fn rank(self) -> nat {
        match self {
            RegionState::Writable => 0,
            RegionState::ReadOnly => 1,
            RegionState::Executable => 2,
            RegionState::Released => 3,
        }
    }
}

/// The transitions a region may take: writable to read-only, read-only to
/// executable, and from any live state to released.
pub open spec fn transition_ok(a: RegionState, b: RegionState) -> bool {
    ||| a == RegionState::Writable && b == RegionState::ReadOnly
    ||| a == RegionState::ReadOnly && b == RegionState::Executable
    ||| a != RegionState::Released && b == RegionState::Released
}

/// A sequence of states that a region may pass through: it starts writable
/// and takes only allowed transitions.
pub open spec fn lifecycle_ok(t: Seq<RegionState>) -> bool {
    &&& t.len() > 0
    &&& t[0] == RegionState::Writable
    &&& forall|k: int| 0 <= k < t.len() - 1 ==> transition_ok(#[trigger] t[k], t[k + 1])
}

/// Every life that a region may lead respects write-xor-execute: no state
/// on it is writable and executable at once, and it only moves forward, so
/// that no state is visited twice and none is left for an earlier one.
pub proof fn lemma_region_discipline(t: Seq<RegionState>)
    requires
        lifecycle_ok(t),
    ensures
        forall|k: int| 0 <= k < t.len() ==> !(#[trigger] t[k].writable() && t[k].executable()),
        forall|j: int, k: int| 0 <= j < k < t.len() ==> #[trigger] t[j].rank() < #[trigger] t[k].rank(),
{
    assert forall|j: int, k: int| 0 <= j < k < t.len() implies #[trigger] t[j].rank() < #[trigger] t[k].rank() by {
        lemma_rank_grows(t, j, k);
    }
}

proof fn lemma_rank_grows(t: Seq<RegionState>, j: int, k: int)
    requires
        lifecycle_ok(t),
        0 <= j < k < t.len(),
    ensures
        t[j].rank() < t[k].rank(),
    decreases k - j,
{
    assert(transition_ok(t[k - 1], t[k]));
    if j < k - 1 {
        lemma_rank_grows(t, j, k - 1);
    }
}

/// Why loading code failed.
#[derive(Debug)]
pub enum ExecError {
    /// No writable mapping of the needed size could be had.
    Allocation(mmap_rs::Error),
    /// The mapping could not be made read-only, or then executable.
    Permission(mmap_rs::Error),
}

/// A mapping that holds machine code and may be called.
pub struct ExecRegion {
    map: mmap_rs::Mmap,
    states: Ghost<Seq<RegionState>>,
}

impl ExecRegion {
    /// The bytes that the region holds.
    pub closed spec fn bytes(&self) -> Seq<u8> {
        mapped_bytes(self.map)
    }

    /// The states that the region has passed through, the current one last.
    pub closed spec fn history(&self) -> Seq<RegionState> {
        self.states@
    }

    /// The region took an allowed life and may now be run as code.
    #[verifier::type_invariant]
    pub closed spec fn wf(&self) -> bool {
        &&& lifecycle_ok(self.states@)
        &&& self.states@.last() == RegionState::Executable
        &&& mapped_exec(self.map)
    }

    /// The machine code in the region.
    pub fn code(&self) -> (r: &[u8])
        ensures
            r@ == self.bytes(),
    {
        self.map.as_slice()
    }

    /// The underlying mapping, whose start is the entry point of the code.
    pub fn mapping(&self) -> (r: &mmap_rs::Mmap)
        ensures
            mapped_exec(*r),
            mapped_bytes(*r) == self.bytes(),
    {
        proof {
            use_type_invariant(self);
        }
        &self.map
    }
}

/// Maps `code` into fresh memory: the bytes are copied in while the memory
/// is writable, then it is made read-only, then executable. Each failure
/// ends the attempt and unmaps what was mapped.
pub fn load(code: &Vec<u8>) -> (r: Result<ExecRegion, ExecError>)
    ensures
        r matches Ok(region) ==> {
            &&& region.wf()
            &&& region.bytes() == code@
            &&& region.history() == seq![
                RegionState::Writable,
                RegionState::ReadOnly,
                RegionState::Executable,
            ]
        },
{
    let mut writable = match map_writable(code.len()) {
        Ok(m) => m,
        Err(e) => {
            return Err(ExecError::Allocation(e));
        },
    };
    copy_into(&mut writable, code.as_slice());
    let read_only = match writable.make_read_only() {
        Ok(m) => m,
        Err((_, e)) => {
            return Err(ExecError::Permission(e));
        },
    };
    let exec = match read_only.make_exec() {
        Ok(m) => m,
        Err((_, e)) => {
            return Err(ExecError::Permission(e));
        },
    };
    let ghost states = seq![RegionState::Writable, RegionState::ReadOnly, RegionState::Executable];
    proof {
        assert(transition_ok(states[0], states[1]));
        assert(transition_ok(states[1], states[2]));
    }
    Ok(ExecRegion { map: exec, states: Ghost(states) })
}

} // verus!
