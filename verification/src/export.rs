//! Records written into the export buffers shared with the JVM.
//!
//! All numbers are in native byte order. A materialization request is 32
//! bytes: the body id as an `i32`, four zero bytes, then the three `f64`
//! coordinates of the body's position. A pose is 60 bytes: the body id as
//! an `i32`, then seven `f64` values (position x, y, z and rotation x, y,
//! z, w). A writer that is offered too little room writes nothing and
//! answers the negated number of records it holds, capped at `i32::MAX`.

use vstd::prelude::*;
use crate::native::{i32_to_native, native4, native8, signed32, u64_to_native};
use crate::command::VectorBits;
use crate::flush::ids_of;
use crate::universe::{DimensionUniverse, LevelColliderID, MaterializationRequest};

verus! {

broadcast use vstd::std_specs::hash::group_hash_axioms;

/// Size of one materialization request record.
pub const MATERIALIZATION_RECORD_SIZE: usize = 32;

/// Size of one pose record.
pub const POSE_RECORD_SIZE: usize = 60;

/// One pose to export: the body id, its position, and its rotation
/// quaternion `(x, y, z, w)`, each `f64` kept as its bit pattern.
#[derive(Clone, Copy, Debug)]
pub struct ExportPose {
    pub id: i32,
    pub position: VectorBits,
    pub rotation: [u64; 4],
}

/// The seven values of a pose record, in order.
pub open spec fn pose_values(p: ExportPose) -> Seq<u64> {
    seq![p.position.x, p.position.y, p.position.z, p.rotation[0], p.rotation[1], p.rotation[2], p.rotation[3]]
}

/// The `i32` stored in native byte order at `off`.
pub open spec fn i32_at(out: Seq<u8>, off: int) -> int {
    signed32(native4(out.subrange(off, off + 4)))
}

/// The `u64` stored in native byte order at `off`.
pub open spec fn u64_at(out: Seq<u8>, off: int) -> int {
    native8(out.subrange(off, off + 8))
}

/// `rec` is the 32-byte record of request `r`.
pub open spec fn is_request_record(rec: Seq<u8>, r: MaterializationRequest) -> bool {
    &&& rec.len() == 32
    &&& i32_at(rec, 0) == r.id as i32
    &&& rec[4] == 0 && rec[5] == 0 && rec[6] == 0 && rec[7] == 0
    &&& u64_at(rec, 8) == r.position.x
    &&& u64_at(rec, 16) == r.position.y
    &&& u64_at(rec, 24) == r.position.z
}

/// `rec` is the 60-byte record of pose `p`.
pub open spec fn is_pose_record(rec: Seq<u8>, p: ExportPose) -> bool {
    &&& rec.len() == 60
    &&& i32_at(rec, 0) == p.id
    &&& forall|s: int| 0 <= s < 7 ==> u64_at(rec, 4 + 8 * s) == #[trigger] pose_values(p)[s]
}

/// The number of records that fit: at most `max_records` (none if it is
/// negative) and at most as many as `capacity` bytes hold.
pub open spec fn export_limit_spec(max_records: i32, capacity: usize, record_size: usize) -> int {
    let wanted = if max_records < 0 { 0 } else { max_records as int };
    let room = capacity as int / record_size as int;
    if wanted < room { wanted } else { room }
}

/// The answer of a writer that holds `count` records and was offered too
/// little room.
pub open spec fn overflow_code_spec(count: usize) -> int {
    if count > i32::MAX { -(i32::MAX as int) } else { -(count as int) }
}

/// The number of records that fit: at most `max_records` (none if it is
/// negative) and at most as many as `capacity` bytes hold.
pub fn export_limit(max_records: i32, capacity: usize, record_size: usize) -> (n: usize)
    requires
        record_size > 0,
    ensures
        n == export_limit_spec(max_records, capacity, record_size),
{
    let wanted: usize = if max_records < 0 { 0 } else { max_records as usize };
    let room = capacity / record_size;
    if wanted < room { wanted } else { room }
}

/// The answer of a writer that holds `count` records and was offered too
/// little room: `-count`, capped at `-i32::MAX`.
pub fn overflow_code(count: usize) -> (code: i32)
    ensures
        code == overflow_code_spec(count),
{
    if count > 0x7fff_ffffusize { -0x7fff_ffffi32 } else { -(count as i32) }
}

fn push_bytes(out: &mut Vec<u8>, bytes: &[u8])
    ensures
        final(out)@ == old(out)@ + bytes@,
{
    let ghost start = out@;
    let mut i: usize = 0;
    while i < bytes.len()
        invariant
            0 <= i <= bytes@.len(),
            out@ == start + bytes@.subrange(0, i as int),
        decreases bytes@.len() - i,
    {
        out.push(bytes[i]);
        proof {
            assert(bytes@.subrange(0, i + 1) =~= bytes@.subrange(0, i as int).push(bytes@[i as int]));
        }
        i = i + 1;
    }
    proof {
        assert(bytes@.subrange(0, bytes@.len() as int) =~= bytes@);
    }
}

/// The record of request `r`.
fn request_record(r: &MaterializationRequest) -> (rec: Vec<u8>)
    ensures
        is_request_record(rec@, *r),
{
    let mut rec: Vec<u8> = Vec::new();
    let id_bytes = i32_to_native(r.id as i32);
    push_bytes(&mut rec, &id_bytes);
    let zeros: [u8; 4] = [0u8; 4];
    push_bytes(&mut rec, &zeros);
    let x = u64_to_native(r.position.x);
    push_bytes(&mut rec, &x);
    let y = u64_to_native(r.position.y);
    push_bytes(&mut rec, &y);
    let z = u64_to_native(r.position.z);
    push_bytes(&mut rec, &z);
    proof {
        let s = rec@;
        assert(s.subrange(0, 4) =~= id_bytes@);
        assert(s.subrange(8, 16) =~= x@);
        assert(s.subrange(16, 24) =~= y@);
        assert(s.subrange(24, 32) =~= z@);
        assert(s[4] == zeros@[0] && s[5] == zeros@[1] && s[6] == zeros@[2] && s[7] == zeros@[3]);
    }
    rec
}

/// The record of pose `p`.
fn pose_record(p: &ExportPose) -> (rec: Vec<u8>)
    ensures
        is_pose_record(rec@, *p),
{
    let values: [u64; 7] = [
        p.position.x, p.position.y, p.position.z, p.rotation[0], p.rotation[1], p.rotation[2], p.rotation[3],
    ];
    assert(values@ =~= pose_values(*p));
    let mut rec: Vec<u8> = Vec::new();
    let id_bytes = i32_to_native(p.id);
    push_bytes(&mut rec, &id_bytes);
    proof {
        assert(rec@.subrange(0, 4) =~= id_bytes@);
    }
    let mut s: usize = 0;
    while s < 7
        invariant
            0 <= s <= 7,
            rec@.len() == 4 + 8 * s,
            rec@.subrange(0, 4) =~= id_bytes@,
            signed32(native4(id_bytes@)) == p.id,
            values@ == pose_values(*p),
            forall|t: int| 0 <= t < s ==> u64_at(rec@, 4 + 8 * t) == #[trigger] values@[t],
        decreases 7 - s,
    {
        let ghost before = rec@;
        let v = u64_to_native(values[s]);
        push_bytes(&mut rec, &v);
        proof {
            assert(rec@.subrange(4 + 8 * s, 4 + 8 * s + 8) =~= v@);
            assert(rec@.subrange(0, 4) =~= before.subrange(0, 4));
            assert forall|t: int| 0 <= t < s + 1 implies u64_at(rec@, 4 + 8 * t) == #[trigger] values@[t] by {
                if t < s {
                    assert(rec@.subrange(4 + 8 * t, 4 + 8 * t + 8) =~= before.subrange(4 + 8 * t, 4 + 8 * t + 8));
                }
            }
        }
        s = s + 1;
    }
    rec
}

/// The records of `poses`, one after another.
pub fn encode_active_poses(poses: &Vec<ExportPose>) -> (out: Vec<u8>)
    requires
        poses@.len() * 60 <= usize::MAX,
    ensures
        out@.len() == poses@.len() * 60,
        forall|i: int| 0 <= i < poses@.len() ==> is_pose_record(out@.subrange(i * 60, i * 60 + 60), #[trigger] poses@[i]),
{
    let mut out: Vec<u8> = Vec::new();
    let mut i: usize = 0;
    while i < poses.len()
        invariant
            0 <= i <= poses@.len(),
            out@.len() == i * 60,
            forall|k: int| 0 <= k < i ==> is_pose_record(out@.subrange(k * 60, k * 60 + 60), #[trigger] poses@[k]),
        decreases poses@.len() - i,
    {
        let ghost before = out@;
        let rec = pose_record(&poses[i]);
        push_bytes(&mut out, rec.as_slice());
        proof {
            assert(out@.subrange(i * 60, i * 60 + 60) =~= rec@);
            assert forall|k: int| 0 <= k < i + 1 implies is_pose_record(out@.subrange(k * 60, k * 60 + 60), #[trigger] poses@[k]) by {
                if k < i {
                    assert(k * 60 + 60 <= i * 60) by (nonlinear_arith) requires k < i;
                    assert(out@.subrange(k * 60, k * 60 + 60) =~= before.subrange(k * 60, k * 60 + 60));
                }
            }
        }
        i = i + 1;
    }
    out
}

/// The pose records of the active bodies for an export buffer of
/// `capacity` bytes that takes at most `max_bodies` records: the overflow
/// code for their number when they do not fit, else their records one after
/// another.
pub fn export_active_poses(poses: &Vec<ExportPose>, max_bodies: i32, capacity: usize) -> (r: Result<Vec<u8>, i32>)
    ensures
        poses@.len() > export_limit_spec(max_bodies, capacity, POSE_RECORD_SIZE)
            <==> r == Err::<Vec<u8>, i32>(overflow_code_spec(poses@.len() as usize) as i32),
        poses@.len() <= export_limit_spec(max_bodies, capacity, POSE_RECORD_SIZE) <==> r is Ok,
        r matches Ok(out) ==> {
            &&& out@.len() == poses@.len() * 60
            &&& forall|i: int| 0 <= i < poses@.len()
                ==> is_pose_record(out@.subrange(i * 60, i * 60 + 60), #[trigger] poses@[i])
        },
{
    let limit = export_limit(max_bodies, capacity, POSE_RECORD_SIZE);
    if poses.len() > limit {
        return Err(overflow_code(poses.len()));
    }
    proof {
        assert(limit <= capacity / 60);
        assert(poses@.len() * 60 <= capacity) by (nonlinear_arith)
            requires poses@.len() <= capacity / 60;
    }
    Ok(encode_active_poses(poses))
}

/// The records of `requests`, one after another.
pub fn encode_materialization_requests(requests: &Vec<MaterializationRequest>) -> (out: Vec<u8>)
    requires
        requests@.len() * 32 <= usize::MAX,
    ensures
        out@.len() == requests@.len() * 32,
        forall|i: int| 0 <= i < requests@.len() ==> is_request_record(out@.subrange(i * 32, i * 32 + 32), #[trigger] requests@[i]),
{
    let mut out: Vec<u8> = Vec::new();
    let mut i: usize = 0;
    while i < requests.len()
        invariant
            0 <= i <= requests@.len(),
            out@.len() == i * 32,
            forall|k: int| 0 <= k < i ==> is_request_record(out@.subrange(k * 32, k * 32 + 32), #[trigger] requests@[k]),
        decreases requests@.len() - i,
    {
        let ghost before = out@;
        let rec = request_record(&requests[i]);
        push_bytes(&mut out, rec.as_slice());
        proof {
            assert(out@.subrange(i * 32, i * 32 + 32) =~= rec@);
            assert forall|k: int| 0 <= k < i + 1 implies is_request_record(out@.subrange(k * 32, k * 32 + 32), #[trigger] requests@[k]) by {
                if k < i {
                    assert(k * 32 + 32 <= i * 32) by (nonlinear_arith) requires k < i;
                    assert(out@.subrange(k * 32, k * 32 + 32) =~= before.subrange(k * 32, k * 32 + 32));
                }
            }
        }
        i = i + 1;
    }
    out
}

impl<P, B, O> DimensionUniverse<P, B, O> {
    /// Moves the queued materialization requests into an export buffer of
    /// `capacity` bytes that takes at most `max_requests` records. Answers
    /// `0` and changes nothing when the buffer is empty or no request is
    /// queued; answers the overflow code and changes nothing when the
    /// requests do not fit; otherwise answers the number of requests with
    /// their records, and forgets the requests and which bodies had one.
    pub fn write_materialization_requests(&mut self, max_requests: i32, capacity: usize) -> (written: (i32, Vec<u8>))
        requires
            old(self).wf(),
        ensures
            final(self).wf(),
            ({
                let n = old(self).materialization_requests@.len();
                let (code, bytes) = written;
                if capacity == 0 || n == 0 {
                    &&& code == 0
                    &&& bytes@ == Seq::<u8>::empty()
                    &&& *final(self) == *old(self)
                } else if n > export_limit_spec(max_requests, capacity, MATERIALIZATION_RECORD_SIZE) {
                    &&& code == overflow_code_spec(n as usize)
                    &&& bytes@ == Seq::<u8>::empty()
                    &&& *final(self) == *old(self)
                } else {
                    &&& code == n
                    &&& bytes@.len() == n * 32
                    &&& forall|i: int| 0 <= i < n ==> is_request_record(
                        bytes@.subrange(i * 32, i * 32 + 32),
                        #[trigger] old(self).materialization_requests@[i],
                    )
                    &&& final(self).materialization_requests@ == Seq::<MaterializationRequest>::empty()
                    &&& final(self).pending_materializations@ == Set::<LevelColliderID>::empty()
                    &&& final(self).same_scheduling(*old(self))
                    &&& final(self).pose_dirty_bodies@ == old(self).pose_dirty_bodies@
                    &&& final(self).pending_command_bodies@ == old(self).pending_command_bodies@
                    &&& final(self).eviction_events@ == old(self).eviction_events@
                    &&& final(self).pending_evictions@ == old(self).pending_evictions@
                    &&& final(self).terrain_sections@ == old(self).terrain_sections@
                    &&& final(self).body_geometries@ == old(self).body_geometries@
                }
            }),
    {
        let n = self.materialization_requests.len();
        if capacity == 0 || n == 0 {
            return (0, Vec::new());
        }
        let limit = export_limit(max_requests, capacity, MATERIALIZATION_RECORD_SIZE);
        if n > limit {
            return (overflow_code(n), Vec::new());
        }
        let requests = self.drain_materialization_requests();
        let bytes = encode_materialization_requests(&requests);
        (n as i32, bytes)
    }

    /// Takes the bodies whose pose changed outside any region, for an
    /// export buffer of `capacity` bytes that takes at most `max_bodies`
    /// records. Answers no body and changes nothing when the buffer is
    /// empty or no pose is marked; answers the overflow code for the number
    /// of marked bodies and changes nothing when they do not fit; otherwise
    /// clears the marks and answers, each once, the marked bodies that
    /// still have a record.
    pub fn take_dirty_pose_ids(&mut self, max_bodies: i32, capacity: usize) -> (taken: Result<Vec<LevelColliderID>, i32>)
        requires
            old(self).wf(),
        ensures
            final(self).wf(),
            ({
                let n = old(self).pose_dirty_bodies@.len();
                if capacity == 0 || n == 0 {
                    &&& taken matches Ok(ids) && ids@ == Seq::<LevelColliderID>::empty()
                    &&& *final(self) == *old(self)
                } else if n > export_limit_spec(max_bodies, capacity, POSE_RECORD_SIZE) {
                    &&& taken == Err::<Vec<LevelColliderID>, i32>(overflow_code_spec(n as usize) as i32)
                    &&& *final(self) == *old(self)
                } else {
                    &&& taken matches Ok(ids) && {
                        &&& ids@.no_duplicates()
                        &&& forall|id: LevelColliderID| #[trigger] ids@.contains(id) <==>
                            (old(self).pose_dirty_bodies@.contains(id) && old(self).universe_bodies@.contains_key(id))
                    }
                    &&& final(self).pose_dirty_bodies@ == Set::<LevelColliderID>::empty()
                    &&& final(self).same_scheduling(*old(self))
                    &&& final(self).pending_command_bodies@ == old(self).pending_command_bodies@
                    &&& final(self).materialization_requests@ == old(self).materialization_requests@
                    &&& final(self).pending_materializations@ == old(self).pending_materializations@
                    &&& final(self).eviction_events@ == old(self).eviction_events@
                    &&& final(self).pending_evictions@ == old(self).pending_evictions@
                    &&& final(self).terrain_sections@ == old(self).terrain_sections@
                    &&& final(self).body_geometries@ == old(self).body_geometries@
                }
            }),
    {
        let n = self.pose_dirty_bodies.len();
        if capacity == 0 || n == 0 {
            return Ok(Vec::new());
        }
        let limit = export_limit(max_bodies, capacity, POSE_RECORD_SIZE);
        if n > limit {
            return Err(overflow_code(n));
        }
        let dirty = ids_of(&self.pose_dirty_bodies);
        self.pose_dirty_bodies.clear();
        let mut ids: Vec<LevelColliderID> = Vec::new();
        let mut i: usize = 0;
        while i < dirty.len()
            invariant
                0 <= i <= dirty@.len(),
                dirty@.no_duplicates(),
                ids@.no_duplicates(),
                forall|id: LevelColliderID| #[trigger] ids@.contains(id) <==>
                    (dirty@.take(i as int).contains(id) && self.universe_bodies@.contains_key(id)),
            decreases dirty@.len() - i,
        {
            let id = dirty[i];
            proof {
                assert(dirty@.take(i + 1) =~= dirty@.take(i as int).push(id));
                assert(!dirty@.take(i as int).contains(id)) by {
                    if dirty@.take(i as int).contains(id) {
                        let k = choose|k: int| 0 <= k < i && dirty@.take(i as int)[k] == id;
                        assert(dirty@[k] == dirty@[i as int]);
                    }
                }
            }
            if self.universe_bodies.contains_key(&id) {
                let ghost before = ids@;
                ids.push(id);
                proof {
                    assert forall|x: LevelColliderID| #[trigger] ids@.contains(x) <==> (before.contains(x) || x == id) by {
                        if ids@.contains(x) {
                            let k = choose|k: int| 0 <= k < ids@.len() && ids@[k] == x;
                            if k < before.len() { assert(before[k] == x); }
                        }
                        if before.contains(x) {
                            let k = choose|k: int| 0 <= k < before.len() && before[k] == x;
                            assert(ids@[k] == x);
                        }
                        if x == id { assert(ids@[before.len() as int] == x); }
                    }
                    assert forall|a: int, b: int| 0 <= a < b < ids@.len() implies ids@[a] != ids@[b] by {
                        if b == before.len() {
                            assert(before.contains(ids@[a]));
                        }
                    }
                }
            }
            proof {
                assert forall|x: LevelColliderID| #[trigger] dirty@.take(i + 1).contains(x) <==>
                    (dirty@.take(i as int).contains(x) || x == id) by {
                    let d1 = dirty@.take(i + 1);
                    let d0 = dirty@.take(i as int);
                    if d1.contains(x) {
                        let k = choose|k: int| 0 <= k < d1.len() && d1[k] == x;
                        if k < d0.len() { assert(d0[k] == x); }
                    }
                    if d0.contains(x) {
                        let k = choose|k: int| 0 <= k < d0.len() && d0[k] == x;
                        assert(d1[k] == x);
                    }
                    if x == id { assert(d1[i as int] == x); }
                }
            }
            i = i + 1;
        }
        proof {
            assert(dirty@.take(dirty@.len() as int) =~= dirty@);
            assert forall|id: LevelColliderID| #[trigger] dirty@.contains(id) <==> old(self).pose_dirty_bodies@.contains(id) by {
                assert(dirty@.to_set().contains(id) == dirty@.contains(id));
            }
        }
        Ok(ids)
    }
}

} // verus!
