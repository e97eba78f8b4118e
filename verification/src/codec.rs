//! The byte encoding of every channel payload.
//!
//! Each payload type has a specification-level encoder `enc_*` (the
//! encoding as a byte sequence), a specification-level decoder `dec_*`
//! (reading one value at a position, returning the value and the position
//! after it), executable counterparts proved equal to them, and two laws:
//! decoding an encoding yields the value back (`*_prefix` lemmas), and a
//! successful decode pins the bytes to be exactly the value's encoding
//! (`*_sound` lemmas).  Integers are little-endian; enums carry a leading
//! tag byte; the node list is length-prefixed.
use vstd::prelude::*;
use vstd::bytes::*;
use vstd::slice::slice_subrange;
use crate::control::{ControlRequest, ControlResponse, ResponseModel};
use crate::geometry::{GlobalPosition, LocalPosition, Vector3d};
use crate::mission::{Duration, MissionItem, MissionNode, MissionParams, MissionPlan, PlanModel, Uid, Waypoint};

verus! {

// ---------------------------------------------------------------------
// Primitive values: single bytes, booleans, little-endian integers, and
// the step index (a signed 32-bit value carried as its two's-complement
// bit pattern).
// ---------------------------------------------------------------------

pub open spec fn enc_u8(x: u8) -> Seq<u8> {
    seq![x]
}

pub open spec fn dec_u8(b: Seq<u8>, pos: int) -> Option<(u8, int)> {
    if 0 <= pos && pos + 1 <= b.len() {
        Some((b[pos], pos + 1))
    } else {
        None
    }
}

pub open spec fn enc_bool(v: bool) -> Seq<u8> {
    seq![if v { 1u8 } else { 0u8 }]
}

/// A boolean is one byte, `0` or `1`; any other byte is rejected.
pub open spec fn dec_bool(b: Seq<u8>, pos: int) -> Option<(bool, int)> {
    match dec_u8(b, pos) {
        Some((t, p)) => if t == 0 {
            Some((false, p))
        } else if t == 1 {
            Some((true, p))
        } else {
            None
        },
        None => None,
    }
}

pub open spec fn enc_u32(x: u32) -> Seq<u8> {
    spec_u32_to_le_bytes(x)
}

pub open spec fn dec_u32(b: Seq<u8>, pos: int) -> Option<(u32, int)> {
    if 0 <= pos && pos + 4 <= b.len() {
        Some((spec_u32_from_le_bytes(b.subrange(pos, pos + 4)), pos + 4))
    } else {
        None
    }
}

pub open spec fn enc_u64(x: u64) -> Seq<u8> {
    spec_u64_to_le_bytes(x)
}

pub open spec fn dec_u64(b: Seq<u8>, pos: int) -> Option<(u64, int)> {
    if 0 <= pos && pos + 8 <= b.len() {
        Some((spec_u64_from_le_bytes(b.subrange(pos, pos + 8)), pos + 8))
    } else {
        None
    }
}

pub open spec fn enc_u128(x: u128) -> Seq<u8> {
    spec_u128_to_le_bytes(x)
}

pub open spec fn dec_u128(b: Seq<u8>, pos: int) -> Option<(u128, int)> {
    if 0 <= pos && pos + 16 <= b.len() {
        Some((spec_u128_from_le_bytes(b.subrange(pos, pos + 16)), pos + 16))
    } else {
        None
    }
}

/// The two's-complement bit pattern of a signed 32-bit value.
pub open spec fn step_bits(x: i32) -> u32 {
    if x >= 0 {
        x as u32
    } else {
        (x + 0x1_0000_0000) as u32
    }
}

/// The signed 32-bit value of a two's-complement bit pattern.
pub open spec fn bits_step(u: u32) -> i32 {
    if u < 0x8000_0000 {
        u as i32
    } else {
        (u - 0x1_0000_0000) as i32
    }
}

pub open spec fn enc_step(x: i32) -> Seq<u8> {
    enc_u32(step_bits(x))
}

pub open spec fn dec_step(b: Seq<u8>, pos: int) -> Option<(i32, int)> {
    match dec_u32(b, pos) {
        Some((u, p)) => Some((bits_step(u), p)),
        None => None,
    }
}

/// The two's-complement maps are mutually inverse.
pub proof fn lemma_step_bits_inverse(x: i32, u: u32)
    ensures
        bits_step(step_bits(x)) == x,
        step_bits(bits_step(u)) == u,
{
}

// ---------------------------------------------------------------------
// Laws of the primitive decoders.
// ---------------------------------------------------------------------

pub proof fn lemma_dec_u8_prefix(b: Seq<u8>, pos: int, x: u8)
    requires
        0 <= pos,
        pos + 1 <= b.len(),
        b.subrange(pos, pos + 1) == enc_u8(x),
    ensures
        dec_u8(b, pos) == Some((x, pos + 1)),
{
    assert(b[pos] == b.subrange(pos, pos + 1)[0]);
}

pub proof fn lemma_dec_u8_sound(b: Seq<u8>, pos: int, x: u8, p: int)
    requires
        dec_u8(b, pos) == Some((x, p)),
    ensures
        0 <= pos,
        p == pos + 1,
        p <= b.len(),
        b.subrange(pos, p) == enc_u8(x),
{
    assert(b.subrange(pos, pos + 1) =~= enc_u8(b[pos]));
}

pub proof fn lemma_dec_bool_prefix(b: Seq<u8>, pos: int, v: bool)
    requires
        0 <= pos,
        pos + 1 <= b.len(),
        b.subrange(pos, pos + 1) == enc_bool(v),
    ensures
        dec_bool(b, pos) == Some((v, pos + 1)),
{
    lemma_dec_u8_prefix(b, pos, if v { 1u8 } else { 0u8 });
}

pub proof fn lemma_dec_bool_sound(b: Seq<u8>, pos: int, v: bool, p: int)
    requires
        dec_bool(b, pos) == Some((v, p)),
    ensures
        0 <= pos,
        p == pos + 1,
        p <= b.len(),
        b.subrange(pos, p) == enc_bool(v),
{
    let t = b[pos];
    lemma_dec_u8_sound(b, pos, t, p);
    assert(b.subrange(pos, p) =~= enc_bool(v));
}

pub proof fn lemma_dec_u32_prefix(b: Seq<u8>, pos: int, x: u32)
    requires
        0 <= pos,
        pos + 4 <= b.len(),
        b.subrange(pos, pos + 4) == enc_u32(x),
    ensures
        dec_u32(b, pos) == Some((x, pos + 4)),
{
    lemma_auto_spec_u32_to_from_le_bytes();
    assert(spec_u32_to_le_bytes(x).len() == 4);
    assert(spec_u32_from_le_bytes(spec_u32_to_le_bytes(x)) == x);
}

pub proof fn lemma_dec_u32_sound(b: Seq<u8>, pos: int, x: u32, p: int)
    requires
        dec_u32(b, pos) == Some((x, p)),
    ensures
        0 <= pos,
        p == pos + 4,
        p <= b.len(),
        b.subrange(pos, p) == enc_u32(x),
{
    lemma_auto_spec_u32_to_from_le_bytes();
    assert(b.subrange(pos, pos + 4).len() == 4);
}

pub proof fn lemma_dec_u64_prefix(b: Seq<u8>, pos: int, x: u64)
    requires
        0 <= pos,
        pos + 8 <= b.len(),
        b.subrange(pos, pos + 8) == enc_u64(x),
    ensures
        dec_u64(b, pos) == Some((x, pos + 8)),
{
    lemma_auto_spec_u64_to_from_le_bytes();
}

pub proof fn lemma_dec_u64_sound(b: Seq<u8>, pos: int, x: u64, p: int)
    requires
        dec_u64(b, pos) == Some((x, p)),
    ensures
        0 <= pos,
        p == pos + 8,
        p <= b.len(),
        b.subrange(pos, p) == enc_u64(x),
{
    lemma_auto_spec_u64_to_from_le_bytes();
    assert(b.subrange(pos, pos + 8).len() == 8);
}

pub proof fn lemma_dec_u128_prefix(b: Seq<u8>, pos: int, x: u128)
    requires
        0 <= pos,
        pos + 16 <= b.len(),
        b.subrange(pos, pos + 16) == enc_u128(x),
    ensures
        dec_u128(b, pos) == Some((x, pos + 16)),
{
    lemma_auto_spec_u128_to_from_le_bytes();
    assert(spec_u128_to_le_bytes(x).len() == 16);
    assert(spec_u128_from_le_bytes(spec_u128_to_le_bytes(x)) == x);
}

pub proof fn lemma_dec_u128_sound(b: Seq<u8>, pos: int, x: u128, p: int)
    requires
        dec_u128(b, pos) == Some((x, p)),
    ensures
        0 <= pos,
        p == pos + 16,
        p <= b.len(),
        b.subrange(pos, p) == enc_u128(x),
{
    lemma_auto_spec_u128_to_from_le_bytes();
    assert(b.subrange(pos, pos + 16).len() == 16);
}

pub proof fn lemma_dec_step_prefix(b: Seq<u8>, pos: int, x: i32)
    requires
        0 <= pos,
        pos + 4 <= b.len(),
        b.subrange(pos, pos + 4) == enc_step(x),
    ensures
        dec_step(b, pos) == Some((x, pos + 4)),
{
    lemma_dec_u32_prefix(b, pos, step_bits(x));
    lemma_step_bits_inverse(x, 0);
}

pub proof fn lemma_dec_step_sound(b: Seq<u8>, pos: int, x: i32, p: int)
    requires
        dec_step(b, pos) == Some((x, p)),
    ensures
        0 <= pos,
        p == pos + 4,
        p <= b.len(),
        b.subrange(pos, p) == enc_step(x),
{
    let u = spec_u32_from_le_bytes(b.subrange(pos, pos + 4));
    lemma_dec_u32_sound(b, pos, u, p);
    lemma_step_bits_inverse(0, u);
}

// ---------------------------------------------------------------------
// Executable writers.  Each appends exactly the specified encoding.
// ---------------------------------------------------------------------

pub fn write_u8(out: &mut Vec<u8>, x: u8)
    ensures
        final(out)@ == old(out)@ + enc_u8(x),
{
    out.push(x);
    proof {
        assert(out@ =~= old(out)@ + enc_u8(x));
    }
}

pub fn write_bool(out: &mut Vec<u8>, v: bool)
    ensures
        final(out)@ == old(out)@ + enc_bool(v),
{
    write_u8(out, if v { 1u8 } else { 0u8 });
}

pub fn write_u32(out: &mut Vec<u8>, x: u32)
    ensures
        final(out)@ == old(out)@ + enc_u32(x),
{
    let mut t = u32_to_le_bytes(x);
    out.append(&mut t);
}

pub fn write_u64(out: &mut Vec<u8>, x: u64)
    ensures
        final(out)@ == old(out)@ + enc_u64(x),
{
    let mut t = u64_to_le_bytes(x);
    out.append(&mut t);
}

pub fn write_u128(out: &mut Vec<u8>, x: u128)
    ensures
        final(out)@ == old(out)@ + enc_u128(x),
{
    let mut t = u128_to_le_bytes(x);
    out.append(&mut t);
}

pub fn write_step(out: &mut Vec<u8>, x: i32)
    ensures
        final(out)@ == old(out)@ + enc_step(x),
{
    let bits: u32 = if x >= 0 {
        x as u32
    } else {
        ((x as i64) + 0x1_0000_0000) as u32
    };
    proof {
        assert(bits == step_bits(x));
    }
    write_u32(out, bits);
}

// ---------------------------------------------------------------------
// Executable readers.  Each returns exactly what the specification
// decoder reads at the same position.
// ---------------------------------------------------------------------

pub fn read_u8(b: &Vec<u8>, pos: usize) -> (r: Option<(u8, usize)>)
    ensures
        match r {
            Some((x, p)) => dec_u8(b@, pos as int) == Some((x, p as int)),
            None => dec_u8(b@, pos as int) is None,
        },
{
    if pos < b.len() {
        Some((b[pos], pos + 1))
    } else {
        None
    }
}

pub fn read_bool(b: &Vec<u8>, pos: usize) -> (r: Option<(bool, usize)>)
    ensures
        match r {
            Some((v, p)) => dec_bool(b@, pos as int) == Some((v, p as int)),
            None => dec_bool(b@, pos as int) is None,
        },
{
    match read_u8(b, pos) {
        Some((t, p)) => {
            if t == 0 {
                Some((false, p))
            } else if t == 1 {
                Some((true, p))
            } else {
                None
            }
        },
        None => None,
    }
}

pub fn read_u32(b: &Vec<u8>, pos: usize) -> (r: Option<(u32, usize)>)
    ensures
        match r {
            Some((x, p)) => dec_u32(b@, pos as int) == Some((x, p as int)),
            None => dec_u32(b@, pos as int) is None,
        },
{
    if b.len() >= 4 && pos <= b.len() - 4 {
        let sl = slice_subrange(b.as_slice(), pos, pos + 4);
        let x = u32_from_le_bytes(sl);
        Some((x, pos + 4))
    } else {
        None
    }
}

pub fn read_u64(b: &Vec<u8>, pos: usize) -> (r: Option<(u64, usize)>)
    ensures
        match r {
            Some((x, p)) => dec_u64(b@, pos as int) == Some((x, p as int)),
            None => dec_u64(b@, pos as int) is None,
        },
{
    if b.len() >= 8 && pos <= b.len() - 8 {
        let sl = slice_subrange(b.as_slice(), pos, pos + 8);
        let x = u64_from_le_bytes(sl);
        Some((x, pos + 8))
    } else {
        None
    }
}

pub fn read_u128(b: &Vec<u8>, pos: usize) -> (r: Option<(u128, usize)>)
    ensures
        match r {
            Some((x, p)) => dec_u128(b@, pos as int) == Some((x, p as int)),
            None => dec_u128(b@, pos as int) is None,
        },
{
    if b.len() >= 16 && pos <= b.len() - 16 {
        let sl = slice_subrange(b.as_slice(), pos, pos + 16);
        let x = u128_from_le_bytes(sl);
        Some((x, pos + 16))
    } else {
        None
    }
}

pub fn read_step(b: &Vec<u8>, pos: usize) -> (r: Option<(i32, usize)>)
    ensures
        match r {
            Some((x, p)) => dec_step(b@, pos as int) == Some((x, p as int)),
            None => dec_step(b@, pos as int) is None,
        },
{
    match read_u32(b, pos) {
        Some((u, p)) => {
            let x: i32 = if u < 0x8000_0000 {
                u as i32
            } else {
                ((u as i64) - 0x1_0000_0000) as i32
            };
            proof {
                assert(x == bits_step(u));
            }
            Some((x, p))
        },
        None => None,
    }
}


// ---------------------------------------------------------------------
// Composite values.  Structs are the concatenation of their fields'
// encodings; enums carry a tag byte before the variant's payload.
// ---------------------------------------------------------------------

pub open spec fn enc_uid(id: Uid) -> Seq<u8> {
    enc_u128(id.value)
}

pub open spec fn dec_uid(b: Seq<u8>, pos: int) -> Option<(Uid, int)> {
    match dec_u128(b, pos) {
        Some((v, p)) => Some((Uid { value: v }, p)),
        None => None,
    }
}

pub open spec fn enc_duration(d: Duration) -> Seq<u8> {
    enc_u64(d.secs) + enc_u32(d.nanos)
}

pub open spec fn dec_duration(b: Seq<u8>, pos: int) -> Option<(Duration, int)> {
    match dec_u64(b, pos) {
        Some((secs, p1)) => match dec_u32(b, p1) {
            Some((nanos, p2)) => Some((Duration { secs, nanos }, p2)),
            None => None,
        },
        None => None,
    }
}

pub open spec fn enc_vec3(v: Vector3d) -> Seq<u8> {
    enc_u64(v.x) + enc_u64(v.y) + enc_u64(v.z)
}

pub open spec fn dec_vec3(b: Seq<u8>, pos: int) -> Option<(Vector3d, int)> {
    match dec_u64(b, pos) {
        Some((x, p1)) => match dec_u64(b, p1) {
            Some((y, p2)) => match dec_u64(b, p2) {
                Some((z, p3)) => Some((Vector3d { x, y, z }, p3)),
                None => None,
            },
            None => None,
        },
        None => None,
    }
}

pub open spec fn enc_local(p: LocalPosition) -> Seq<u8> {
    enc_u32(p.x) + enc_u32(p.y) + enc_u32(p.z)
}

pub open spec fn dec_local(b: Seq<u8>, pos: int) -> Option<(LocalPosition, int)> {
    match dec_u32(b, pos) {
        Some((x, p1)) => match dec_u32(b, p1) {
            Some((y, p2)) => match dec_u32(b, p2) {
                Some((z, p3)) => Some((LocalPosition { x, y, z }, p3)),
                None => None,
            },
            None => None,
        },
        None => None,
    }
}

pub open spec fn enc_global(g: GlobalPosition) -> Seq<u8> {
    enc_u64(g.lat) + enc_u64(g.lon) + enc_u32(g.alt)
}

pub open spec fn dec_global(b: Seq<u8>, pos: int) -> Option<(GlobalPosition, int)> {
    match dec_u64(b, pos) {
        Some((lat, p1)) => match dec_u64(b, p1) {
            Some((lon, p2)) => match dec_u32(b, p2) {
                Some((alt, p3)) => Some((GlobalPosition { lat, lon, alt }, p3)),
                None => None,
            },
            None => None,
        },
        None => None,
    }
}

pub open spec fn enc_waypoint(w: Waypoint) -> Seq<u8> {
    match w {
        Waypoint::LocalOffset(v) => seq![0u8] + enc_vec3(v),
        Waypoint::GlobalFixedHeight { lat, lon, alt } => seq![1u8] + enc_u64(lat) + enc_u64(lon)
            + enc_u64(alt),
        Waypoint::GlobalRelativeHeight { lat, lon, height_diff } => seq![2u8] + enc_u64(lat)
            + enc_u64(lon) + enc_u64(height_diff),
    }
}

pub open spec fn dec_waypoint(b: Seq<u8>, pos: int) -> Option<(Waypoint, int)> {
    match dec_u8(b, pos) {
        Some((t, p1)) => if t == 0 {
            match dec_vec3(b, p1) {
                Some((v, p2)) => Some((Waypoint::LocalOffset(v), p2)),
                None => None,
            }
        } else if t == 1 {
            match dec_u64(b, p1) {
                Some((lat, p2)) => match dec_u64(b, p2) {
                    Some((lon, p3)) => match dec_u64(b, p3) {
                        Some((alt, p4)) => Some((Waypoint::GlobalFixedHeight { lat, lon, alt }, p4)),
                        None => None,
                    },
                    None => None,
                },
                None => None,
            }
        } else if t == 2 {
            match dec_u64(b, p1) {
                Some((lat, p2)) => match dec_u64(b, p2) {
                    Some((lon, p3)) => match dec_u64(b, p3) {
                        Some((height_diff, p4)) => Some(
                            (Waypoint::GlobalRelativeHeight { lat, lon, height_diff }, p4),
                        ),
                        None => None,
                    },
                    None => None,
                },
                None => None,
            }
        } else {
            None
        },
        None => None,
    }
}

pub open spec fn enc_item(it: MissionItem) -> Seq<u8> {
    match it {
        MissionItem::Init => seq![0u8],
        MissionItem::Takeoff { altitude } => seq![1u8] + enc_u64(altitude),
        MissionItem::Waypoint(w) => seq![2u8] + enc_waypoint(w),
        MissionItem::Delay(d) => seq![3u8] + enc_duration(d),
        MissionItem::FindSafeSpot => seq![4u8],
        MissionItem::Transition => seq![5u8],
        MissionItem::Land => seq![6u8],
        MissionItem::PrecLand => seq![7u8],
        MissionItem::End => seq![8u8],
    }
}

pub open spec fn dec_item(b: Seq<u8>, pos: int) -> Option<(MissionItem, int)> {
    match dec_u8(b, pos) {
        Some((t, p1)) => if t == 0 {
            Some((MissionItem::Init, p1))
        } else if t == 1 {
            match dec_u64(b, p1) {
                Some((altitude, p2)) => Some((MissionItem::Takeoff { altitude }, p2)),
                None => None,
            }
        } else if t == 2 {
            match dec_waypoint(b, p1) {
                Some((w, p2)) => Some((MissionItem::Waypoint(w), p2)),
                None => None,
            }
        } else if t == 3 {
            match dec_duration(b, p1) {
                Some((d, p2)) => Some((MissionItem::Delay(d), p2)),
                None => None,
            }
        } else if t == 4 {
            Some((MissionItem::FindSafeSpot, p1))
        } else if t == 5 {
            Some((MissionItem::Transition, p1))
        } else if t == 6 {
            Some((MissionItem::Land, p1))
        } else if t == 7 {
            Some((MissionItem::PrecLand, p1))
        } else if t == 8 {
            Some((MissionItem::End, p1))
        } else {
            None
        },
        None => None,
    }
}

pub open spec fn enc_node(n: MissionNode) -> Seq<u8> {
    enc_uid(n.id) + enc_item(n.item)
}

pub open spec fn dec_node(b: Seq<u8>, pos: int) -> Option<(MissionNode, int)> {
    match dec_uid(b, pos) {
        Some((id, p1)) => match dec_item(b, p1) {
            Some((item, p2)) => Some((MissionNode { id, item }, p2)),
            None => None,
        },
        None => None,
    }
}

pub open spec fn enc_nodes(s: Seq<MissionNode>) -> Seq<u8>
    decreases s.len(),
{
    if s.len() == 0 {
        Seq::<u8>::empty()
    } else {
        enc_node(s[0]) + enc_nodes(s.drop_first())
    }
}

pub open spec fn dec_nodes(b: Seq<u8>, pos: int, n: nat) -> Option<(Seq<MissionNode>, int)>
    decreases n,
{
    if n == 0 {
        if 0 <= pos && pos <= b.len() {
            Some((Seq::<MissionNode>::empty(), pos))
        } else {
            None
        }
    } else {
        match dec_node(b, pos) {
            Some((nd, p1)) => match dec_nodes(b, p1, (n - 1) as nat) {
                Some((s, p2)) => Some((seq![nd] + s, p2)),
                None => None,
            },
            None => None,
        }
    }
}

pub open spec fn enc_params(p: MissionParams) -> Seq<u8> {
    enc_vec3(p.target_velocity) + enc_vec3(p.target_acceleration) + enc_vec3(p.target_jerk)
        + enc_bool(p.disable_yaw)
}

pub open spec fn dec_params(b: Seq<u8>, pos: int) -> Option<(MissionParams, int)> {
    match dec_vec3(b, pos) {
        Some((target_velocity, p1)) => match dec_vec3(b, p1) {
            Some((target_acceleration, p2)) => match dec_vec3(b, p2) {
                Some((target_jerk, p3)) => match dec_bool(b, p3) {
                    Some((disable_yaw, p4)) => Some(
                        (
                            MissionParams {
                                target_velocity,
                                target_acceleration,
                                target_jerk,
                                disable_yaw,
                            },
                            p4,
                        ),
                    ),
                    None => None,
                },
                None => None,
            },
            None => None,
        },
        None => None,
    }
}

/// A plan's node count must fit the 64-bit length prefix of the wire
/// form.  Every plan held in a `Vec` satisfies this.
pub open spec fn plan_count_ok(p: PlanModel) -> bool {
    p.nodes.len() < 0x1_0000_0000_0000_0000
}

pub open spec fn enc_plan(p: PlanModel) -> Seq<u8> {
    enc_uid(p.id) + enc_u64(p.nodes.len() as u64) + enc_nodes(p.nodes) + enc_params(p.params)
}

pub open spec fn dec_plan(b: Seq<u8>, pos: int) -> Option<(PlanModel, int)> {
    match dec_uid(b, pos) {
        Some((id, p1)) => match dec_u64(b, p1) {
            Some((count, p2)) => match dec_nodes(b, p2, count as nat) {
                Some((nodes, p3)) => match dec_params(b, p3) {
                    Some((params, p4)) => Some((PlanModel { id, nodes, params }, p4)),
                    None => None,
                },
                None => None,
            },
            None => None,
        },
        None => None,
    }
}

pub open spec fn enc_request(r: ControlRequest) -> Seq<u8> {
    match r {
        ControlRequest::FetchMissionPlan => seq![0u8],
        ControlRequest::PauseResume(v) => seq![1u8] + enc_bool(v),
    }
}

pub open spec fn dec_request(b: Seq<u8>, pos: int) -> Option<(ControlRequest, int)> {
    match dec_u8(b, pos) {
        Some((t, p1)) => if t == 0 {
            Some((ControlRequest::FetchMissionPlan, p1))
        } else if t == 1 {
            match dec_bool(b, p1) {
                Some((v, p2)) => Some((ControlRequest::PauseResume(v), p2)),
                None => None,
            }
        } else {
            None
        },
        None => None,
    }
}

pub open spec fn response_count_ok(m: ResponseModel) -> bool {
    match m {
        ResponseModel::SendMissionPlan(p) => plan_count_ok(p),
        ResponseModel::PauseResume(_) => true,
    }
}

pub open spec fn enc_response(m: ResponseModel) -> Seq<u8> {
    match m {
        ResponseModel::SendMissionPlan(p) => seq![0u8] + enc_plan(p),
        ResponseModel::PauseResume(v) => seq![1u8] + enc_bool(v),
    }
}

pub open spec fn dec_response(b: Seq<u8>, pos: int) -> Option<(ResponseModel, int)> {
    match dec_u8(b, pos) {
        Some((t, p1)) => if t == 0 {
            match dec_plan(b, p1) {
                Some((p, p2)) => Some((ResponseModel::SendMissionPlan(p), p2)),
                None => None,
            }
        } else if t == 1 {
            match dec_bool(b, p1) {
                Some((v, p2)) => Some((ResponseModel::PauseResume(v), p2)),
                None => None,
            }
        } else {
            None
        },
        None => None,
    }
}


// ---------------------------------------------------------------------
// Laws of the composite decoders: decoding an encoding in place yields
// the value (`*_prefix`), and a successful decode pins the consumed
// bytes to be the value's encoding (`*_sound`).
// ---------------------------------------------------------------------

/// A subrange of a subrange, re-based.
pub proof fn lemma_subrange_of_subrange(b: Seq<u8>, pos: int, l: int, a: int, c: int)
    requires
        0 <= pos,
        pos + l <= b.len(),
        0 <= a <= c <= l,
    ensures
        b.subrange(pos + a, pos + c) == b.subrange(pos, pos + l).subrange(a, c),
{
    assert(b.subrange(pos + a, pos + c) =~= b.subrange(pos, pos + l).subrange(a, c));
}

/// The lengths of the fixed-size encodings.
pub proof fn lemma_enc_lens()
    ensures
        forall|x: u32| (#[trigger] enc_u32(x)).len() == 4,
        forall|x: u64| (#[trigger] enc_u64(x)).len() == 8,
        forall|x: u128| (#[trigger] enc_u128(x)).len() == 16,
        forall|x: i32| (#[trigger] enc_step(x)).len() == 4,
        forall|v: bool| (#[trigger] enc_bool(v)).len() == 1,
        forall|u: Uid| (#[trigger] enc_uid(u)).len() == 16,
        forall|d: Duration| (#[trigger] enc_duration(d)).len() == 12,
        forall|v: Vector3d| (#[trigger] enc_vec3(v)).len() == 24,
        forall|p: LocalPosition| (#[trigger] enc_local(p)).len() == 12,
        forall|g: GlobalPosition| (#[trigger] enc_global(g)).len() == 20,
        forall|w: Waypoint| (#[trigger] enc_waypoint(w)).len() == 25,
        forall|p: MissionParams| (#[trigger] enc_params(p)).len() == 73,
{
    lemma_auto_spec_u32_to_from_le_bytes();
    lemma_auto_spec_u64_to_from_le_bytes();
    lemma_auto_spec_u128_to_from_le_bytes();
}

pub proof fn lemma_dec_uid_prefix(b: Seq<u8>, pos: int, id: Uid)
    requires
        0 <= pos,
        pos + 16 <= b.len(),
        b.subrange(pos, pos + 16) == enc_uid(id),
    ensures
        dec_uid(b, pos) == Some((id, pos + 16)),
{
    lemma_dec_u128_prefix(b, pos, id.value);
}

pub proof fn lemma_dec_uid_sound(b: Seq<u8>, pos: int, id: Uid, p: int)
    requires
        dec_uid(b, pos) == Some((id, p)),
    ensures
        0 <= pos,
        p == pos + 16,
        p <= b.len(),
        b.subrange(pos, p) == enc_uid(id),
{
    lemma_dec_u128_sound(b, pos, id.value, p);
}

pub proof fn lemma_dec_duration_prefix(b: Seq<u8>, pos: int, d: Duration)
    requires
        0 <= pos,
        pos + 12 <= b.len(),
        b.subrange(pos, pos + 12) == enc_duration(d),
    ensures
        dec_duration(b, pos) == Some((d, pos + 12)),
{
    lemma_enc_lens();
    lemma_subrange_of_subrange(b, pos, 12, 0, 8);
    assert(enc_duration(d).subrange(0, 8) =~= enc_u64(d.secs));
    lemma_dec_u64_prefix(b, pos, d.secs);
    lemma_subrange_of_subrange(b, pos, 12, 8, 12);
    assert(enc_duration(d).subrange(8, 12) =~= enc_u32(d.nanos));
    lemma_dec_u32_prefix(b, pos + 8, d.nanos);
}

pub proof fn lemma_dec_duration_sound(b: Seq<u8>, pos: int, d: Duration, p: int)
    requires
        dec_duration(b, pos) == Some((d, p)),
    ensures
        0 <= pos,
        p == pos + 12,
        p <= b.len(),
        b.subrange(pos, p) == enc_duration(d),
{
    match dec_u64(b, pos) {
        Some((secs, p1)) => {
            lemma_dec_u64_sound(b, pos, secs, p1);
            match dec_u32(b, p1) {
                Some((nanos, p2)) => {
                    lemma_dec_u32_sound(b, p1, nanos, p2);
                    assert(b.subrange(pos, p) =~= b.subrange(pos, p1) + b.subrange(p1, p));
                },
                None => {
                    assert(false);
                },
            }
        },
        None => {
            assert(false);
        },
    }
}

/// Three consecutive 64-bit values decode from their concatenated
/// encodings.
pub proof fn lemma_dec_3u64_prefix(b: Seq<u8>, pos: int, x: u64, y: u64, z: u64)
    requires
        0 <= pos,
        pos + 24 <= b.len(),
        b.subrange(pos, pos + 24) == enc_u64(x) + enc_u64(y) + enc_u64(z),
    ensures
        dec_u64(b, pos) == Some((x, pos + 8)),
        dec_u64(b, pos + 8) == Some((y, pos + 16)),
        dec_u64(b, pos + 16) == Some((z, pos + 24)),
{
    lemma_enc_lens();
    let e = enc_u64(x) + enc_u64(y) + enc_u64(z);
    lemma_subrange_of_subrange(b, pos, 24, 0, 8);
    assert(e.subrange(0, 8) =~= enc_u64(x));
    lemma_dec_u64_prefix(b, pos, x);
    lemma_subrange_of_subrange(b, pos, 24, 8, 16);
    assert(e.subrange(8, 16) =~= enc_u64(y));
    lemma_dec_u64_prefix(b, pos + 8, y);
    lemma_subrange_of_subrange(b, pos, 24, 16, 24);
    assert(e.subrange(16, 24) =~= enc_u64(z));
    lemma_dec_u64_prefix(b, pos + 16, z);
}

pub proof fn lemma_dec_vec3_prefix(b: Seq<u8>, pos: int, v: Vector3d)
    requires
        0 <= pos,
        pos + 24 <= b.len(),
        b.subrange(pos, pos + 24) == enc_vec3(v),
    ensures
        dec_vec3(b, pos) == Some((v, pos + 24)),
{
    lemma_dec_3u64_prefix(b, pos, v.x, v.y, v.z);
}

pub proof fn lemma_dec_vec3_sound(b: Seq<u8>, pos: int, v: Vector3d, p: int)
    requires
        dec_vec3(b, pos) == Some((v, p)),
    ensures
        0 <= pos,
        p == pos + 24,
        p <= b.len(),
        b.subrange(pos, p) == enc_vec3(v),
{
    match dec_u64(b, pos) {
        Some((x, p1)) => {
            lemma_dec_u64_sound(b, pos, x, p1);
            match dec_u64(b, p1) {
                Some((y, p2)) => {
                    lemma_dec_u64_sound(b, p1, y, p2);
                    match dec_u64(b, p2) {
                        Some((z, p3)) => {
                            lemma_dec_u64_sound(b, p2, z, p3);
                            assert(b.subrange(pos, p) =~= b.subrange(pos, p1) + b.subrange(p1, p2)
                                + b.subrange(p2, p));
                        },
                        None => {
                            assert(false);
                        },
                    }
                },
                None => {
                    assert(false);
                },
            }
        },
        None => {
            assert(false);
        },
    }
}

pub proof fn lemma_dec_local_prefix(b: Seq<u8>, pos: int, v: LocalPosition)
    requires
        0 <= pos,
        pos + 12 <= b.len(),
        b.subrange(pos, pos + 12) == enc_local(v),
    ensures
        dec_local(b, pos) == Some((v, pos + 12)),
{
    lemma_enc_lens();
    let e = enc_local(v);
    lemma_subrange_of_subrange(b, pos, 12, 0, 4);
    assert(e.subrange(0, 4) =~= enc_u32(v.x));
    lemma_dec_u32_prefix(b, pos, v.x);
    lemma_subrange_of_subrange(b, pos, 12, 4, 8);
    assert(e.subrange(4, 8) =~= enc_u32(v.y));
    lemma_dec_u32_prefix(b, pos + 4, v.y);
    lemma_subrange_of_subrange(b, pos, 12, 8, 12);
    assert(e.subrange(8, 12) =~= enc_u32(v.z));
    lemma_dec_u32_prefix(b, pos + 8, v.z);
}

pub proof fn lemma_dec_local_sound(b: Seq<u8>, pos: int, v: LocalPosition, p: int)
    requires
        dec_local(b, pos) == Some((v, p)),
    ensures
        0 <= pos,
        p == pos + 12,
        p <= b.len(),
        b.subrange(pos, p) == enc_local(v),
{
    match dec_u32(b, pos) {
        Some((x, p1)) => {
            lemma_dec_u32_sound(b, pos, x, p1);
            match dec_u32(b, p1) {
                Some((y, p2)) => {
                    lemma_dec_u32_sound(b, p1, y, p2);
                    match dec_u32(b, p2) {
                        Some((z, p3)) => {
                            lemma_dec_u32_sound(b, p2, z, p3);
                            assert(b.subrange(pos, p) =~= b.subrange(pos, p1) + b.subrange(p1, p2)
                                + b.subrange(p2, p));
                        },
                        None => {
                            assert(false);
                        },
                    }
                },
                None => {
                    assert(false);
                },
            }
        },
        None => {
            assert(false);
        },
    }
}

pub proof fn lemma_dec_global_prefix(b: Seq<u8>, pos: int, g: GlobalPosition)
    requires
        0 <= pos,
        pos + 20 <= b.len(),
        b.subrange(pos, pos + 20) == enc_global(g),
    ensures
        dec_global(b, pos) == Some((g, pos + 20)),
{
    lemma_enc_lens();
    let e = enc_global(g);
    lemma_subrange_of_subrange(b, pos, 20, 0, 8);
    assert(e.subrange(0, 8) =~= enc_u64(g.lat));
    lemma_dec_u64_prefix(b, pos, g.lat);
    lemma_subrange_of_subrange(b, pos, 20, 8, 16);
    assert(e.subrange(8, 16) =~= enc_u64(g.lon));
    lemma_dec_u64_prefix(b, pos + 8, g.lon);
    lemma_subrange_of_subrange(b, pos, 20, 16, 20);
    assert(e.subrange(16, 20) =~= enc_u32(g.alt));
    lemma_dec_u32_prefix(b, pos + 16, g.alt);
}

pub proof fn lemma_dec_global_sound(b: Seq<u8>, pos: int, g: GlobalPosition, p: int)
    requires
        dec_global(b, pos) == Some((g, p)),
    ensures
        0 <= pos,
        p == pos + 20,
        p <= b.len(),
        b.subrange(pos, p) == enc_global(g),
{
    match dec_u64(b, pos) {
        Some((lat, p1)) => {
            lemma_dec_u64_sound(b, pos, lat, p1);
            match dec_u64(b, p1) {
                Some((lon, p2)) => {
                    lemma_dec_u64_sound(b, p1, lon, p2);
                    match dec_u32(b, p2) {
                        Some((alt, p3)) => {
                            lemma_dec_u32_sound(b, p2, alt, p3);
                            assert(b.subrange(pos, p) =~= b.subrange(pos, p1) + b.subrange(p1, p2)
                                + b.subrange(p2, p));
                        },
                        None => {
                            assert(false);
                        },
                    }
                },
                None => {
                    assert(false);
                },
            }
        },
        None => {
            assert(false);
        },
    }
}


pub proof fn lemma_dec_waypoint_prefix(b: Seq<u8>, pos: int, w: Waypoint)
    requires
        0 <= pos,
        pos + 25 <= b.len(),
        b.subrange(pos, pos + 25) == enc_waypoint(w),
    ensures
        dec_waypoint(b, pos) == Some((w, pos + 25)),
{
    lemma_enc_lens();
    let e = enc_waypoint(w);
    match w {
        Waypoint::LocalOffset(v) => {
            lemma_subrange_of_subrange(b, pos, 25, 0, 1);
            assert(e.subrange(0, 1) =~= enc_u8(0u8));
            lemma_dec_u8_prefix(b, pos, 0u8);
            lemma_subrange_of_subrange(b, pos, 25, 1, 25);
            assert(e.subrange(1, 25) =~= enc_vec3(v));
            lemma_dec_vec3_prefix(b, pos + 1, v);
        },
        Waypoint::GlobalFixedHeight { lat, lon, alt } => {
            lemma_subrange_of_subrange(b, pos, 25, 0, 1);
            assert(e.subrange(0, 1) =~= enc_u8(1u8));
            lemma_dec_u8_prefix(b, pos, 1u8);
            lemma_subrange_of_subrange(b, pos, 25, 1, 25);
            assert(e.subrange(1, 25) =~= enc_u64(lat) + enc_u64(lon) + enc_u64(alt));
            lemma_dec_3u64_prefix(b, pos + 1, lat, lon, alt);
        },
        Waypoint::GlobalRelativeHeight { lat, lon, height_diff } => {
            lemma_subrange_of_subrange(b, pos, 25, 0, 1);
            assert(e.subrange(0, 1) =~= enc_u8(2u8));
            lemma_dec_u8_prefix(b, pos, 2u8);
            lemma_subrange_of_subrange(b, pos, 25, 1, 25);
            assert(e.subrange(1, 25) =~= enc_u64(lat) + enc_u64(lon) + enc_u64(height_diff));
            lemma_dec_3u64_prefix(b, pos + 1, lat, lon, height_diff);
        },
    }
}

pub proof fn lemma_dec_waypoint_sound(b: Seq<u8>, pos: int, w: Waypoint, p: int)
    requires
        dec_waypoint(b, pos) == Some((w, p)),
    ensures
        0 <= pos,
        p == pos + 25,
        p <= b.len(),
        b.subrange(pos, p) == enc_waypoint(w),
{
    match dec_u8(b, pos) {
        Some((t, p1)) => {
            lemma_dec_u8_sound(b, pos, t, p1);
            if t == 0 {
                match dec_vec3(b, p1) {
                    Some((v, p2)) => {
                        lemma_dec_vec3_sound(b, p1, v, p2);
                        assert(b.subrange(pos, p) =~= b.subrange(pos, p1) + b.subrange(p1, p));
                    },
                    None => {
                        assert(false);
                    },
                }
            } else if t == 1 {
                match dec_u64(b, p1) {
                    Some((lat, p2)) => {
                        lemma_dec_u64_sound(b, p1, lat, p2);
                        match dec_u64(b, p2) {
                            Some((lon, p3)) => {
                                lemma_dec_u64_sound(b, p2, lon, p3);
                                match dec_u64(b, p3) {
                                    Some((alt, p4)) => {
                                        lemma_dec_u64_sound(b, p3, alt, p4);
                                        assert(b.subrange(pos, p) =~= b.subrange(pos, p1)
                                            + b.subrange(p1, p2) + b.subrange(p2, p3)
                                            + b.subrange(p3, p));
                                    },
                                    None => {
                                        assert(false);
                                    },
                                }
                            },
                            None => {
                                assert(false);
                            },
                        }
                    },
                    None => {
                        assert(false);
                    },
                }
            } else if t == 2 {
                match dec_u64(b, p1) {
                    Some((lat, p2)) => {
                        lemma_dec_u64_sound(b, p1, lat, p2);
                        match dec_u64(b, p2) {
                            Some((lon, p3)) => {
                                lemma_dec_u64_sound(b, p2, lon, p3);
                                match dec_u64(b, p3) {
                                    Some((hd, p4)) => {
                                        lemma_dec_u64_sound(b, p3, hd, p4);
                                        assert(b.subrange(pos, p) =~= b.subrange(pos, p1)
                                            + b.subrange(p1, p2) + b.subrange(p2, p3)
                                            + b.subrange(p3, p));
                                    },
                                    None => {
                                        assert(false);
                                    },
                                }
                            },
                            None => {
                                assert(false);
                            },
                        }
                    },
                    None => {
                        assert(false);
                    },
                }
            } else {
                assert(false);
            }
        },
        None => {
            assert(false);
        },
    }
}

pub proof fn lemma_dec_item_prefix(b: Seq<u8>, pos: int, it: MissionItem)
    requires
        0 <= pos,
        pos + enc_item(it).len() <= b.len(),
        b.subrange(pos, pos + enc_item(it).len()) == enc_item(it),
    ensures
        dec_item(b, pos) == Some((it, pos + enc_item(it).len())),
{
    lemma_enc_lens();
    let e = enc_item(it);
    let l = e.len() as int;
    match it {
        MissionItem::Init => {
            lemma_dec_u8_prefix(b, pos, 0u8);
        },
        MissionItem::Takeoff { altitude } => {
            lemma_subrange_of_subrange(b, pos, l, 0, 1);
            assert(e.subrange(0, 1) =~= enc_u8(1u8));
            lemma_dec_u8_prefix(b, pos, 1u8);
            lemma_subrange_of_subrange(b, pos, l, 1, 9);
            assert(e.subrange(1, 9) =~= enc_u64(altitude));
            lemma_dec_u64_prefix(b, pos + 1, altitude);
        },
        MissionItem::Waypoint(w) => {
            lemma_subrange_of_subrange(b, pos, l, 0, 1);
            assert(e.subrange(0, 1) =~= enc_u8(2u8));
            lemma_dec_u8_prefix(b, pos, 2u8);
            lemma_subrange_of_subrange(b, pos, l, 1, 26);
            assert(e.subrange(1, 26) =~= enc_waypoint(w));
            lemma_dec_waypoint_prefix(b, pos + 1, w);
        },
        MissionItem::Delay(d) => {
            lemma_subrange_of_subrange(b, pos, l, 0, 1);
            assert(e.subrange(0, 1) =~= enc_u8(3u8));
            lemma_dec_u8_prefix(b, pos, 3u8);
            lemma_subrange_of_subrange(b, pos, l, 1, 13);
            assert(e.subrange(1, 13) =~= enc_duration(d));
            lemma_dec_duration_prefix(b, pos + 1, d);
        },
        MissionItem::FindSafeSpot => {
            lemma_dec_u8_prefix(b, pos, 4u8);
        },
        MissionItem::Transition => {
            lemma_dec_u8_prefix(b, pos, 5u8);
        },
        MissionItem::Land => {
            lemma_dec_u8_prefix(b, pos, 6u8);
        },
        MissionItem::PrecLand => {
            lemma_dec_u8_prefix(b, pos, 7u8);
        },
        MissionItem::End => {
            lemma_dec_u8_prefix(b, pos, 8u8);
        },
    }
}

pub proof fn lemma_dec_item_sound(b: Seq<u8>, pos: int, it: MissionItem, p: int)
    requires
        dec_item(b, pos) == Some((it, p)),
    ensures
        0 <= pos,
        p == pos + enc_item(it).len(),
        p <= b.len(),
        b.subrange(pos, p) == enc_item(it),
{
    lemma_enc_lens();
    match dec_u8(b, pos) {
        Some((t, p1)) => {
            lemma_dec_u8_sound(b, pos, t, p1);
            if t == 0 || t == 4 || t == 5 || t == 6 || t == 7 || t == 8 {
                assert(b.subrange(pos, p) =~= enc_item(it));
            } else if t == 1 {
                match dec_u64(b, p1) {
                    Some((altitude, p2)) => {
                        lemma_dec_u64_sound(b, p1, altitude, p2);
                        assert(b.subrange(pos, p) =~= b.subrange(pos, p1) + b.subrange(p1, p));
                    },
                    None => {
                        assert(false);
                    },
                }
            } else if t == 2 {
                match dec_waypoint(b, p1) {
                    Some((w, p2)) => {
                        lemma_dec_waypoint_sound(b, p1, w, p2);
                        assert(b.subrange(pos, p) =~= b.subrange(pos, p1) + b.subrange(p1, p));
                    },
                    None => {
                        assert(false);
                    },
                }
            } else if t == 3 {
                match dec_duration(b, p1) {
                    Some((d, p2)) => {
                        lemma_dec_duration_sound(b, p1, d, p2);
                        assert(b.subrange(pos, p) =~= b.subrange(pos, p1) + b.subrange(p1, p));
                    },
                    None => {
                        assert(false);
                    },
                }
            } else {
                assert(false);
            }
        },
        None => {
            assert(false);
        },
    }
}

pub proof fn lemma_dec_node_prefix(b: Seq<u8>, pos: int, n: MissionNode)
    requires
        0 <= pos,
        pos + enc_node(n).len() <= b.len(),
        b.subrange(pos, pos + enc_node(n).len()) == enc_node(n),
    ensures
        dec_node(b, pos) == Some((n, pos + enc_node(n).len())),
{
    lemma_enc_lens();
    let e = enc_node(n);
    let l = e.len() as int;
    lemma_subrange_of_subrange(b, pos, l, 0, 16);
    assert(e.subrange(0, 16) =~= enc_uid(n.id));
    lemma_dec_uid_prefix(b, pos, n.id);
    lemma_subrange_of_subrange(b, pos, l, 16, l);
    assert(e.subrange(16, l) =~= enc_item(n.item));
    lemma_dec_item_prefix(b, pos + 16, n.item);
}

pub proof fn lemma_dec_node_sound(b: Seq<u8>, pos: int, n: MissionNode, p: int)
    requires
        dec_node(b, pos) == Some((n, p)),
    ensures
        0 <= pos,
        p == pos + enc_node(n).len(),
        p <= b.len(),
        b.subrange(pos, p) == enc_node(n),
{
    match dec_uid(b, pos) {
        Some((id, p1)) => {
            lemma_dec_uid_sound(b, pos, id, p1);
            match dec_item(b, p1) {
                Some((item, p2)) => {
                    lemma_dec_item_sound(b, p1, item, p2);
                    assert(b.subrange(pos, p) =~= b.subrange(pos, p1) + b.subrange(p1, p));
                },
                None => {
                    assert(false);
                },
            }
        },
        None => {
            assert(false);
        },
    }
}

pub proof fn lemma_dec_nodes_prefix(b: Seq<u8>, pos: int, s: Seq<MissionNode>)
    requires
        0 <= pos,
        pos + enc_nodes(s).len() <= b.len(),
        b.subrange(pos, pos + enc_nodes(s).len()) == enc_nodes(s),
    ensures
        dec_nodes(b, pos, s.len()) == Some((s, pos + enc_nodes(s).len())),
    decreases s.len(),
{
    if s.len() == 0 {
        assert(s =~= Seq::<MissionNode>::empty());
    } else {
        let e = enc_nodes(s);
        let l = e.len() as int;
        let e0 = enc_node(s[0]);
        let l0 = e0.len() as int;
        lemma_subrange_of_subrange(b, pos, l, 0, l0);
        assert(e.subrange(0, l0) =~= e0);
        lemma_dec_node_prefix(b, pos, s[0]);
        lemma_subrange_of_subrange(b, pos, l, l0, l);
        assert(e.subrange(l0, l) =~= enc_nodes(s.drop_first()));
        lemma_dec_nodes_prefix(b, pos + l0, s.drop_first());
        assert(seq![s[0]] + s.drop_first() =~= s);
    }
}

pub proof fn lemma_dec_nodes_sound(b: Seq<u8>, pos: int, n: nat, s: Seq<MissionNode>, p: int)
    requires
        dec_nodes(b, pos, n) == Some((s, p)),
    ensures
        0 <= pos,
        s.len() == n,
        p == pos + enc_nodes(s).len(),
        p <= b.len(),
        b.subrange(pos, p) == enc_nodes(s),
    decreases n,
{
    if n == 0 {
        assert(b.subrange(pos, p) =~= enc_nodes(s));
    } else {
        match dec_node(b, pos) {
            Some((nd, p1)) => {
                lemma_dec_node_sound(b, pos, nd, p1);
                match dec_nodes(b, p1, (n - 1) as nat) {
                    Some((s2, p2)) => {
                        lemma_dec_nodes_sound(b, p1, (n - 1) as nat, s2, p2);
                        assert(s == seq![nd] + s2);
                        assert(s[0] == nd);
                        assert(s.drop_first() =~= s2);
                        assert(b.subrange(pos, p) =~= b.subrange(pos, p1) + b.subrange(p1, p));
                    },
                    None => {
                        assert(false);
                    },
                }
            },
            None => {
                assert(false);
            },
        }
    }
}

pub proof fn lemma_dec_params_prefix(b: Seq<u8>, pos: int, pr: MissionParams)
    requires
        0 <= pos,
        pos + 73 <= b.len(),
        b.subrange(pos, pos + 73) == enc_params(pr),
    ensures
        dec_params(b, pos) == Some((pr, pos + 73)),
{
    lemma_enc_lens();
    let e = enc_params(pr);
    lemma_subrange_of_subrange(b, pos, 73, 0, 24);
    assert(e.subrange(0, 24) =~= enc_vec3(pr.target_velocity));
    lemma_dec_vec3_prefix(b, pos, pr.target_velocity);
    lemma_subrange_of_subrange(b, pos, 73, 24, 48);
    assert(e.subrange(24, 48) =~= enc_vec3(pr.target_acceleration));
    lemma_dec_vec3_prefix(b, pos + 24, pr.target_acceleration);
    lemma_subrange_of_subrange(b, pos, 73, 48, 72);
    assert(e.subrange(48, 72) =~= enc_vec3(pr.target_jerk));
    lemma_dec_vec3_prefix(b, pos + 48, pr.target_jerk);
    lemma_subrange_of_subrange(b, pos, 73, 72, 73);
    assert(e.subrange(72, 73) =~= enc_bool(pr.disable_yaw));
    lemma_dec_bool_prefix(b, pos + 72, pr.disable_yaw);
}

pub proof fn lemma_dec_params_sound(b: Seq<u8>, pos: int, pr: MissionParams, p: int)
    requires
        dec_params(b, pos) == Some((pr, p)),
    ensures
        0 <= pos,
        p == pos + 73,
        p <= b.len(),
        b.subrange(pos, p) == enc_params(pr),
{
    match dec_vec3(b, pos) {
        Some((tv, p1)) => {
            lemma_dec_vec3_sound(b, pos, tv, p1);
            match dec_vec3(b, p1) {
                Some((ta, p2)) => {
                    lemma_dec_vec3_sound(b, p1, ta, p2);
                    match dec_vec3(b, p2) {
                        Some((tj, p3)) => {
                            lemma_dec_vec3_sound(b, p2, tj, p3);
                            match dec_bool(b, p3) {
                                Some((dy, p4)) => {
                                    lemma_dec_bool_sound(b, p3, dy, p4);
                                    assert(b.subrange(pos, p) =~= b.subrange(pos, p1)
                                        + b.subrange(p1, p2) + b.subrange(p2, p3)
                                        + b.subrange(p3, p));
                                },
                                None => {
                                    assert(false);
                                },
                            }
                        },
                        None => {
                            assert(false);
                        },
                    }
                },
                None => {
                    assert(false);
                },
            }
        },
        None => {
            assert(false);
        },
    }
}

pub proof fn lemma_dec_plan_prefix(b: Seq<u8>, pos: int, pl: PlanModel)
    requires
        0 <= pos,
        plan_count_ok(pl),
        pos + enc_plan(pl).len() <= b.len(),
        b.subrange(pos, pos + enc_plan(pl).len()) == enc_plan(pl),
    ensures
        dec_plan(b, pos) == Some((pl, pos + enc_plan(pl).len())),
{
    lemma_enc_lens();
    let e = enc_plan(pl);
    let l = e.len() as int;
    let ln = enc_nodes(pl.nodes).len() as int;
    let count: u64 = pl.nodes.len() as u64;
    lemma_subrange_of_subrange(b, pos, l, 0, 16);
    assert(e.subrange(0, 16) =~= enc_uid(pl.id));
    lemma_dec_uid_prefix(b, pos, pl.id);
    lemma_subrange_of_subrange(b, pos, l, 16, 24);
    assert(e.subrange(16, 24) =~= enc_u64(count));
    lemma_dec_u64_prefix(b, pos + 16, count);
    lemma_subrange_of_subrange(b, pos, l, 24, 24 + ln);
    assert(e.subrange(24, 24 + ln) =~= enc_nodes(pl.nodes));
    lemma_dec_nodes_prefix(b, pos + 24, pl.nodes);
    assert(count as nat == pl.nodes.len());
    lemma_subrange_of_subrange(b, pos, l, 24 + ln, l);
    assert(e.subrange(24 + ln, l) =~= enc_params(pl.params));
    lemma_dec_params_prefix(b, pos + 24 + ln, pl.params);
}

pub proof fn lemma_dec_plan_sound(b: Seq<u8>, pos: int, pl: PlanModel, p: int)
    requires
        dec_plan(b, pos) == Some((pl, p)),
    ensures
        0 <= pos,
        plan_count_ok(pl),
        p == pos + enc_plan(pl).len(),
        p <= b.len(),
        b.subrange(pos, p) == enc_plan(pl),
{
    match dec_uid(b, pos) {
        Some((id, p1)) => {
            lemma_dec_uid_sound(b, pos, id, p1);
            match dec_u64(b, p1) {
                Some((count, p2)) => {
                    lemma_dec_u64_sound(b, p1, count, p2);
                    match dec_nodes(b, p2, count as nat) {
                        Some((s, p3)) => {
                            lemma_dec_nodes_sound(b, p2, count as nat, s, p3);
                            match dec_params(b, p3) {
                                Some((pr, p4)) => {
                                    lemma_dec_params_sound(b, p3, pr, p4);
                                    assert(s.len() as u64 == count);
                                    assert(b.subrange(pos, p) =~= b.subrange(pos, p1)
                                        + b.subrange(p1, p2) + b.subrange(p2, p3)
                                        + b.subrange(p3, p));
                                },
                                None => {
                                    assert(false);
                                },
                            }
                        },
                        None => {
                            assert(false);
                        },
                    }
                },
                None => {
                    assert(false);
                },
            }
        },
        None => {
            assert(false);
        },
    }
}

pub proof fn lemma_dec_request_prefix(b: Seq<u8>, pos: int, r: ControlRequest)
    requires
        0 <= pos,
        pos + enc_request(r).len() <= b.len(),
        b.subrange(pos, pos + enc_request(r).len()) == enc_request(r),
    ensures
        dec_request(b, pos) == Some((r, pos + enc_request(r).len())),
{
    lemma_enc_lens();
    let e = enc_request(r);
    let l = e.len() as int;
    match r {
        ControlRequest::FetchMissionPlan => {
            lemma_dec_u8_prefix(b, pos, 0u8);
        },
        ControlRequest::PauseResume(v) => {
            lemma_subrange_of_subrange(b, pos, l, 0, 1);
            assert(e.subrange(0, 1) =~= enc_u8(1u8));
            lemma_dec_u8_prefix(b, pos, 1u8);
            lemma_subrange_of_subrange(b, pos, l, 1, 2);
            assert(e.subrange(1, 2) =~= enc_bool(v));
            lemma_dec_bool_prefix(b, pos + 1, v);
        },
    }
}

pub proof fn lemma_dec_request_sound(b: Seq<u8>, pos: int, r: ControlRequest, p: int)
    requires
        dec_request(b, pos) == Some((r, p)),
    ensures
        0 <= pos,
        p == pos + enc_request(r).len(),
        p <= b.len(),
        b.subrange(pos, p) == enc_request(r),
{
    lemma_enc_lens();
    match dec_u8(b, pos) {
        Some((t, p1)) => {
            lemma_dec_u8_sound(b, pos, t, p1);
            if t == 0 {
                assert(b.subrange(pos, p) =~= enc_request(r));
            } else if t == 1 {
                match dec_bool(b, p1) {
                    Some((v, p2)) => {
                        lemma_dec_bool_sound(b, p1, v, p2);
                        assert(b.subrange(pos, p) =~= b.subrange(pos, p1) + b.subrange(p1, p));
                    },
                    None => {
                        assert(false);
                    },
                }
            } else {
                assert(false);
            }
        },
        None => {
            assert(false);
        },
    }
}

pub proof fn lemma_dec_response_prefix(b: Seq<u8>, pos: int, m: ResponseModel)
    requires
        0 <= pos,
        response_count_ok(m),
        pos + enc_response(m).len() <= b.len(),
        b.subrange(pos, pos + enc_response(m).len()) == enc_response(m),
    ensures
        dec_response(b, pos) == Some((m, pos + enc_response(m).len())),
{
    lemma_enc_lens();
    let e = enc_response(m);
    let l = e.len() as int;
    match m {
        ResponseModel::SendMissionPlan(pl) => {
            lemma_subrange_of_subrange(b, pos, l, 0, 1);
            assert(e.subrange(0, 1) =~= enc_u8(0u8));
            lemma_dec_u8_prefix(b, pos, 0u8);
            lemma_subrange_of_subrange(b, pos, l, 1, l);
            assert(e.subrange(1, l) =~= enc_plan(pl));
            lemma_dec_plan_prefix(b, pos + 1, pl);
        },
        ResponseModel::PauseResume(v) => {
            lemma_subrange_of_subrange(b, pos, l, 0, 1);
            assert(e.subrange(0, 1) =~= enc_u8(1u8));
            lemma_dec_u8_prefix(b, pos, 1u8);
            lemma_subrange_of_subrange(b, pos, l, 1, 2);
            assert(e.subrange(1, 2) =~= enc_bool(v));
            lemma_dec_bool_prefix(b, pos + 1, v);
        },
    }
}

pub proof fn lemma_dec_response_sound(b: Seq<u8>, pos: int, m: ResponseModel, p: int)
    requires
        dec_response(b, pos) == Some((m, p)),
    ensures
        0 <= pos,
        response_count_ok(m),
        p == pos + enc_response(m).len(),
        p <= b.len(),
        b.subrange(pos, p) == enc_response(m),
{
    match dec_u8(b, pos) {
        Some((t, p1)) => {
            lemma_dec_u8_sound(b, pos, t, p1);
            if t == 0 {
                match dec_plan(b, p1) {
                    Some((pl, p2)) => {
                        lemma_dec_plan_sound(b, p1, pl, p2);
                        assert(b.subrange(pos, p) =~= b.subrange(pos, p1) + b.subrange(p1, p));
                    },
                    None => {
                        assert(false);
                    },
                }
            } else if t == 1 {
                match dec_bool(b, p1) {
                    Some((v, p2)) => {
                        lemma_dec_bool_sound(b, p1, v, p2);
                        assert(b.subrange(pos, p) =~= b.subrange(pos, p1) + b.subrange(p1, p));
                    },
                    None => {
                        assert(false);
                    },
                }
            } else {
                assert(false);
            }
        },
        None => {
            assert(false);
        },
    }
}


/// Decoding failed: the bytes are not the encoding of any value of the
/// expected payload type.
#[derive(Clone, Copy, Debug, PartialEq, Eq, Structural)]
pub struct DecodeError;

/// Appending one node extends the list encoding at the end.
pub proof fn lemma_enc_nodes_push(s: Seq<MissionNode>, nd: MissionNode)
    ensures
        enc_nodes(s.push(nd)) == enc_nodes(s) + enc_node(nd),
    decreases s.len(),
{
    reveal_with_fuel(enc_nodes, 3);
    if s.len() == 0 {
        assert(s.push(nd)[0] == nd);
        assert(s.push(nd).drop_first() =~= Seq::<MissionNode>::empty());
        assert(enc_nodes(s.push(nd)) =~= enc_nodes(s) + enc_node(nd));
    } else {
        assert(s.push(nd)[0] == s[0]);
        assert(s.push(nd).drop_first() =~= s.drop_first().push(nd));
        lemma_enc_nodes_push(s.drop_first(), nd);
        assert(enc_nodes(s.push(nd)) == enc_node(s[0]) + enc_nodes(s.drop_first().push(nd)));
        assert(enc_nodes(s.push(nd)) == enc_node(s[0]) + (enc_nodes(s.drop_first()) + enc_node(
            nd,
        )));
        assert(enc_nodes(s.push(nd)) =~= enc_nodes(s) + enc_node(nd));
    }
}

// ---------------------------------------------------------------------
// Executable writers for the composite values.
// ---------------------------------------------------------------------

pub fn write_uid(out: &mut Vec<u8>, id: &Uid)
    ensures
        final(out)@ == old(out)@ + enc_uid(*id),
{
    write_u128(out, id.value);
}

pub fn write_duration(out: &mut Vec<u8>, d: &Duration)
    ensures
        final(out)@ == old(out)@ + enc_duration(*d),
{
    write_u64(out, d.secs);
    write_u32(out, d.nanos);
    proof {
        assert(out@ =~= old(out)@ + enc_duration(*d));
    }
}

pub fn write_vec3(out: &mut Vec<u8>, v: &Vector3d)
    ensures
        final(out)@ == old(out)@ + enc_vec3(*v),
{
    write_u64(out, v.x);
    write_u64(out, v.y);
    write_u64(out, v.z);
    proof {
        assert(out@ =~= old(out)@ + enc_vec3(*v));
    }
}

pub fn write_local(out: &mut Vec<u8>, v: &LocalPosition)
    ensures
        final(out)@ == old(out)@ + enc_local(*v),
{
    write_u32(out, v.x);
    write_u32(out, v.y);
    write_u32(out, v.z);
    proof {
        assert(out@ =~= old(out)@ + enc_local(*v));
    }
}

pub fn write_global(out: &mut Vec<u8>, g: &GlobalPosition)
    ensures
        final(out)@ == old(out)@ + enc_global(*g),
{
    write_u64(out, g.lat);
    write_u64(out, g.lon);
    write_u32(out, g.alt);
    proof {
        assert(out@ =~= old(out)@ + enc_global(*g));
    }
}

pub fn write_waypoint(out: &mut Vec<u8>, w: &Waypoint)
    ensures
        final(out)@ == old(out)@ + enc_waypoint(*w),
{
    match w {
        Waypoint::LocalOffset(v) => {
            write_u8(out, 0);
            write_vec3(out, v);
            proof {
                assert(out@ =~= old(out)@ + enc_waypoint(*w));
            }
        },
        Waypoint::GlobalFixedHeight { lat, lon, alt } => {
            write_u8(out, 1);
            write_u64(out, *lat);
            write_u64(out, *lon);
            write_u64(out, *alt);
            proof {
                assert(out@ =~= old(out)@ + enc_waypoint(*w));
            }
        },
        Waypoint::GlobalRelativeHeight { lat, lon, height_diff } => {
            write_u8(out, 2);
            write_u64(out, *lat);
            write_u64(out, *lon);
            write_u64(out, *height_diff);
            proof {
                assert(out@ =~= old(out)@ + enc_waypoint(*w));
            }
        },
    }
}

pub fn write_item(out: &mut Vec<u8>, it: &MissionItem)
    ensures
        final(out)@ == old(out)@ + enc_item(*it),
{
    match it {
        MissionItem::Init => {
            write_u8(out, 0);
            proof {
                assert(out@ =~= old(out)@ + enc_item(*it));
            }
        },
        MissionItem::Takeoff { altitude } => {
            write_u8(out, 1);
            write_u64(out, *altitude);
            proof {
                assert(out@ =~= old(out)@ + enc_item(*it));
            }
        },
        MissionItem::Waypoint(w) => {
            write_u8(out, 2);
            write_waypoint(out, w);
            proof {
                assert(out@ =~= old(out)@ + enc_item(*it));
            }
        },
        MissionItem::Delay(d) => {
            write_u8(out, 3);
            write_duration(out, d);
            proof {
                assert(out@ =~= old(out)@ + enc_item(*it));
            }
        },
        MissionItem::FindSafeSpot => {
            write_u8(out, 4);
            proof {
                assert(out@ =~= old(out)@ + enc_item(*it));
            }
        },
        MissionItem::Transition => {
            write_u8(out, 5);
            proof {
                assert(out@ =~= old(out)@ + enc_item(*it));
            }
        },
        MissionItem::Land => {
            write_u8(out, 6);
            proof {
                assert(out@ =~= old(out)@ + enc_item(*it));
            }
        },
        MissionItem::PrecLand => {
            write_u8(out, 7);
            proof {
                assert(out@ =~= old(out)@ + enc_item(*it));
            }
        },
        MissionItem::End => {
            write_u8(out, 8);
            proof {
                assert(out@ =~= old(out)@ + enc_item(*it));
            }
        },
    }
}

pub fn write_node(out: &mut Vec<u8>, n: &MissionNode)
    ensures
        final(out)@ == old(out)@ + enc_node(*n),
{
    write_uid(out, &n.id);
    write_item(out, &n.item);
    proof {
        assert(out@ =~= old(out)@ + enc_node(*n));
    }
}

pub fn write_params(out: &mut Vec<u8>, p: &MissionParams)
    ensures
        final(out)@ == old(out)@ + enc_params(*p),
{
    write_vec3(out, &p.target_velocity);
    write_vec3(out, &p.target_acceleration);
    write_vec3(out, &p.target_jerk);
    write_bool(out, p.disable_yaw);
    proof {
        assert(out@ =~= old(out)@ + enc_params(*p));
    }
}

pub fn write_plan(out: &mut Vec<u8>, p: &MissionPlan)
    ensures
        final(out)@ == old(out)@ + enc_plan(p@),
{
    write_u128(out, p.id.value);
    let n: usize = p.nodes.len();
    write_u64(out, n as u64);
    proof {
        assert(p.nodes@.take(0) =~= Seq::<MissionNode>::empty());
        assert(out@ =~= old(out)@ + enc_u128(p.id.value) + enc_u64(n as u64) + enc_nodes(
            p.nodes@.take(0),
        ));
    }
    let mut i: usize = 0;
    while i < n
        invariant
            n == p.nodes@.len(),
            i <= n,
            out@ == old(out)@ + enc_u128(p.id.value) + enc_u64(n as u64) + enc_nodes(
                p.nodes@.take(i as int),
            ),
        decreases n - i,
    {
        write_node(out, &p.nodes[i]);
        proof {
            lemma_enc_nodes_push(p.nodes@.take(i as int), p.nodes@[i as int]);
            assert(p.nodes@.take(i as int + 1) =~= p.nodes@.take(i as int).push(
                p.nodes@[i as int],
            ));
            assert(out@ =~= old(out)@ + enc_u128(p.id.value) + enc_u64(n as u64) + enc_nodes(
                p.nodes@.take(i as int + 1),
            ));
        }
        i += 1;
    }
    write_params(out, &p.params);
    proof {
        assert(p.nodes@.take(n as int) =~= p.nodes@);
        assert(out@ =~= old(out)@ + enc_plan(p@));
    }
}

pub fn write_request(out: &mut Vec<u8>, r: &ControlRequest)
    ensures
        final(out)@ == old(out)@ + enc_request(*r),
{
    match r {
        ControlRequest::FetchMissionPlan => {
            write_u8(out, 0);
            proof {
                assert(out@ =~= old(out)@ + enc_request(*r));
            }
        },
        ControlRequest::PauseResume(v) => {
            write_u8(out, 1);
            write_bool(out, *v);
            proof {
                assert(out@ =~= old(out)@ + enc_request(*r));
            }
        },
    }
}

pub fn write_response(out: &mut Vec<u8>, m: &ControlResponse)
    ensures
        final(out)@ == old(out)@ + enc_response(m@),
{
    match m {
        ControlResponse::SendMissionPlan(p) => {
            write_u8(out, 0);
            write_plan(out, p);
            proof {
                assert(out@ =~= old(out)@ + enc_response(m@));
            }
        },
        ControlResponse::PauseResume(v) => {
            write_u8(out, 1);
            write_bool(out, *v);
            proof {
                assert(out@ =~= old(out)@ + enc_response(m@));
            }
        },
    }
}


// ---------------------------------------------------------------------
// Executable readers for the composite values.
// ---------------------------------------------------------------------

pub fn read_uid(b: &Vec<u8>, pos: usize) -> (r: Option<(Uid, usize)>)
    ensures
        match r {
            Some((v, p)) => dec_uid(b@, pos as int) == Some((v, p as int)),
            None => dec_uid(b@, pos as int) is None,
        },
{
    match read_u128(b, pos) {
        Some((v, p)) => Some((Uid { value: v }, p)),
        None => None,
    }
}

pub fn read_duration(b: &Vec<u8>, pos: usize) -> (r: Option<(Duration, usize)>)
    ensures
        match r {
            Some((v, p)) => dec_duration(b@, pos as int) == Some((v, p as int)),
            None => dec_duration(b@, pos as int) is None,
        },
{
    match read_u64(b, pos) {
        Some((secs, p1)) => match read_u32(b, p1) {
            Some((nanos, p2)) => Some((Duration { secs, nanos }, p2)),
            None => None,
        },
        None => None,
    }
}

pub fn read_vec3(b: &Vec<u8>, pos: usize) -> (r: Option<(Vector3d, usize)>)
    ensures
        match r {
            Some((v, p)) => dec_vec3(b@, pos as int) == Some((v, p as int)),
            None => dec_vec3(b@, pos as int) is None,
        },
{
    match read_u64(b, pos) {
        Some((x, p1)) => match read_u64(b, p1) {
            Some((y, p2)) => match read_u64(b, p2) {
                Some((z, p3)) => Some((Vector3d { x, y, z }, p3)),
                None => None,
            },
            None => None,
        },
        None => None,
    }
}

pub fn read_local(b: &Vec<u8>, pos: usize) -> (r: Option<(LocalPosition, usize)>)
    ensures
        match r {
            Some((v, p)) => dec_local(b@, pos as int) == Some((v, p as int)),
            None => dec_local(b@, pos as int) is None,
        },
{
    match read_u32(b, pos) {
        Some((x, p1)) => match read_u32(b, p1) {
            Some((y, p2)) => match read_u32(b, p2) {
                Some((z, p3)) => Some((LocalPosition { x, y, z }, p3)),
                None => None,
            },
            None => None,
        },
        None => None,
    }
}

pub fn read_global(b: &Vec<u8>, pos: usize) -> (r: Option<(GlobalPosition, usize)>)
    ensures
        match r {
            Some((v, p)) => dec_global(b@, pos as int) == Some((v, p as int)),
            None => dec_global(b@, pos as int) is None,
        },
{
    match read_u64(b, pos) {
        Some((lat, p1)) => match read_u64(b, p1) {
            Some((lon, p2)) => match read_u32(b, p2) {
                Some((alt, p3)) => Some((GlobalPosition { lat, lon, alt }, p3)),
                None => None,
            },
            None => None,
        },
        None => None,
    }
}

pub fn read_waypoint(b: &Vec<u8>, pos: usize) -> (r: Option<(Waypoint, usize)>)
    ensures
        match r {
            Some((v, p)) => dec_waypoint(b@, pos as int) == Some((v, p as int)),
            None => dec_waypoint(b@, pos as int) is None,
        },
{
    match read_u8(b, pos) {
        Some((t, p1)) => {
            if t == 0 {
                match read_vec3(b, p1) {
                    Some((v, p2)) => Some((Waypoint::LocalOffset(v), p2)),
                    None => None,
                }
            } else if t == 1 {
                match read_u64(b, p1) {
                    Some((lat, p2)) => match read_u64(b, p2) {
                        Some((lon, p3)) => match read_u64(b, p3) {
                            Some((alt, p4)) => Some(
                                (Waypoint::GlobalFixedHeight { lat, lon, alt }, p4),
                            ),
                            None => None,
                        },
                        None => None,
                    },
                    None => None,
                }
            } else if t == 2 {
                match read_u64(b, p1) {
                    Some((lat, p2)) => match read_u64(b, p2) {
                        Some((lon, p3)) => match read_u64(b, p3) {
                            Some((height_diff, p4)) => Some(
                                (Waypoint::GlobalRelativeHeight { lat, lon, height_diff }, p4),
                            ),
                            None => None,
                        },
                        None => None,
                    },
                    None => None,
                }
            } else {
                None
            }
        },
        None => None,
    }
}

pub fn read_item(b: &Vec<u8>, pos: usize) -> (r: Option<(MissionItem, usize)>)
    ensures
        match r {
            Some((v, p)) => dec_item(b@, pos as int) == Some((v, p as int)),
            None => dec_item(b@, pos as int) is None,
        },
{
    match read_u8(b, pos) {
        Some((t, p1)) => {
            if t == 0 {
                Some((MissionItem::Init, p1))
            } else if t == 1 {
                match read_u64(b, p1) {
                    Some((altitude, p2)) => Some((MissionItem::Takeoff { altitude }, p2)),
                    None => None,
                }
            } else if t == 2 {
                match read_waypoint(b, p1) {
                    Some((w, p2)) => Some((MissionItem::Waypoint(w), p2)),
                    None => None,
                }
            } else if t == 3 {
                match read_duration(b, p1) {
                    Some((d, p2)) => Some((MissionItem::Delay(d), p2)),
                    None => None,
                }
            } else if t == 4 {
                Some((MissionItem::FindSafeSpot, p1))
            } else if t == 5 {
                Some((MissionItem::Transition, p1))
            } else if t == 6 {
                Some((MissionItem::Land, p1))
            } else if t == 7 {
                Some((MissionItem::PrecLand, p1))
            } else if t == 8 {
                Some((MissionItem::End, p1))
            } else {
                None
            }
        },
        None => None,
    }
}

pub fn read_node(b: &Vec<u8>, pos: usize) -> (r: Option<(MissionNode, usize)>)
    ensures
        match r {
            Some((v, p)) => dec_node(b@, pos as int) == Some((v, p as int)),
            None => dec_node(b@, pos as int) is None,
        },
{
    match read_uid(b, pos) {
        Some((id, p1)) => match read_item(b, p1) {
            Some((item, p2)) => Some((MissionNode { id, item }, p2)),
            None => None,
        },
        None => None,
    }
}

pub fn read_nodes(b: &Vec<u8>, pos: usize, n: u64) -> (r: Option<(Vec<MissionNode>, usize)>)
    ensures
        match r {
            Some((v, p)) => dec_nodes(b@, pos as int, n as nat) == Some((v@, p as int)),
            None => dec_nodes(b@, pos as int, n as nat) is None,
        },
    decreases n,
{
    if n == 0 {
        if pos <= b.len() {
            Some((Vec::new(), pos))
        } else {
            None
        }
    } else {
        match read_node(b, pos) {
            Some((nd, p1)) => match read_nodes(b, p1, n - 1) {
                Some((mut v, p2)) => {
                    v.insert(0, nd);
                    proof {
                        assert(v@ =~= seq![nd] + v@.drop_first());
                    }
                    Some((v, p2))
                },
                None => None,
            },
            None => None,
        }
    }
}

pub fn read_params(b: &Vec<u8>, pos: usize) -> (r: Option<(MissionParams, usize)>)
    ensures
        match r {
            Some((v, p)) => dec_params(b@, pos as int) == Some((v, p as int)),
            None => dec_params(b@, pos as int) is None,
        },
{
    match read_vec3(b, pos) {
        Some((target_velocity, p1)) => match read_vec3(b, p1) {
            Some((target_acceleration, p2)) => match read_vec3(b, p2) {
                Some((target_jerk, p3)) => match read_bool(b, p3) {
                    Some((disable_yaw, p4)) => Some(
                        (
                            MissionParams {
                                target_velocity,
                                target_acceleration,
                                target_jerk,
                                disable_yaw,
                            },
                            p4,
                        ),
                    ),
                    None => None,
                },
                None => None,
            },
            None => None,
        },
        None => None,
    }
}

pub fn read_plan(b: &Vec<u8>, pos: usize) -> (r: Option<(MissionPlan, usize)>)
    ensures
        match r {
            Some((v, p)) => dec_plan(b@, pos as int) == Some((v@, p as int)),
            None => dec_plan(b@, pos as int) is None,
        },
{
    match read_uid(b, pos) {
        Some((id, p1)) => match read_u64(b, p1) {
            Some((count, p2)) => match read_nodes(b, p2, count) {
                Some((nodes, p3)) => match read_params(b, p3) {
                    Some((params, p4)) => Some((MissionPlan { id, nodes, params }, p4)),
                    None => None,
                },
                None => None,
            },
            None => None,
        },
        None => None,
    }
}

pub fn read_request(b: &Vec<u8>, pos: usize) -> (r: Option<(ControlRequest, usize)>)
    ensures
        match r {
            Some((v, p)) => dec_request(b@, pos as int) == Some((v, p as int)),
            None => dec_request(b@, pos as int) is None,
        },
{
    match read_u8(b, pos) {
        Some((t, p1)) => {
            if t == 0 {
                Some((ControlRequest::FetchMissionPlan, p1))
            } else if t == 1 {
                match read_bool(b, p1) {
                    Some((v, p2)) => Some((ControlRequest::PauseResume(v), p2)),
                    None => None,
                }
            } else {
                None
            }
        },
        None => None,
    }
}

pub fn read_response(b: &Vec<u8>, pos: usize) -> (r: Option<(ControlResponse, usize)>)
    ensures
        match r {
            Some((v, p)) => dec_response(b@, pos as int) == Some((v@, p as int)),
            None => dec_response(b@, pos as int) is None,
        },
{
    match read_u8(b, pos) {
        Some((t, p1)) => {
            if t == 0 {
                match read_plan(b, p1) {
                    Some((p, p2)) => Some((ControlResponse::SendMissionPlan(p), p2)),
                    None => None,
                }
            } else if t == 1 {
                match read_bool(b, p1) {
                    Some((v, p2)) => Some((ControlResponse::PauseResume(v), p2)),
                    None => None,
                }
            } else {
                None
            }
        },
        None => None,
    }
}


// ---------------------------------------------------------------------
// Whole-message encoding and decoding for the seven channel payloads.
// A message is one value and nothing else: trailing bytes are rejected.
// ---------------------------------------------------------------------

pub open spec fn dec_local_full(b: Seq<u8>) -> Option<LocalPosition> {
    match dec_local(b, 0) {
        Some((v, p)) => if p == b.len() {
            Some(v)
        } else {
            None
        },
        None => None,
    }
}

pub open spec fn dec_global_full(b: Seq<u8>) -> Option<GlobalPosition> {
    match dec_global(b, 0) {
        Some((v, p)) => if p == b.len() {
            Some(v)
        } else {
            None
        },
        None => None,
    }
}

pub open spec fn dec_yaw_full(b: Seq<u8>) -> Option<u32> {
    match dec_u32(b, 0) {
        Some((v, p)) => if p == b.len() {
            Some(v)
        } else {
            None
        },
        None => None,
    }
}

pub open spec fn dec_step_full(b: Seq<u8>) -> Option<i32> {
    match dec_step(b, 0) {
        Some((v, p)) => if p == b.len() {
            Some(v)
        } else {
            None
        },
        None => None,
    }
}

pub open spec fn dec_request_full(b: Seq<u8>) -> Option<ControlRequest> {
    match dec_request(b, 0) {
        Some((v, p)) => if p == b.len() {
            Some(v)
        } else {
            None
        },
        None => None,
    }
}

pub open spec fn dec_response_full(b: Seq<u8>) -> Option<ResponseModel> {
    match dec_response(b, 0) {
        Some((v, p)) => if p == b.len() {
            Some(v)
        } else {
            None
        },
        None => None,
    }
}

pub open spec fn dec_plan_full(b: Seq<u8>) -> Option<PlanModel> {
    match dec_plan(b, 0) {
        Some((v, p)) => if p == b.len() {
            Some(v)
        } else {
            None
        },
        None => None,
    }
}

// ---------------------------------------------------------------------
// The two codec laws at message level: decode inverts encode, and a
// successful decode pins the bytes to be the value's encoding, so
// decoding never invents or defaults a value.
// ---------------------------------------------------------------------

pub proof fn lemma_local_round_trip(v: LocalPosition)
    ensures
        dec_local_full(enc_local(v)) == Some(v),
{
    lemma_enc_lens();
    let b = enc_local(v);
    assert(b.subrange(0, 12) =~= b);
    lemma_dec_local_prefix(b, 0, v);
}

pub proof fn lemma_local_decode_pins(b: Seq<u8>, v: LocalPosition)
    requires
        dec_local_full(b) == Some(v),
    ensures
        b == enc_local(v),
{
    match dec_local(b, 0) {
        Some((v2, p)) => {
            lemma_dec_local_sound(b, 0, v2, p);
            assert(b.subrange(0, b.len() as int) =~= b);
        },
        None => {
            assert(false);
        },
    }
}

pub proof fn lemma_global_round_trip(g: GlobalPosition)
    ensures
        dec_global_full(enc_global(g)) == Some(g),
{
    lemma_enc_lens();
    let b = enc_global(g);
    assert(b.subrange(0, 20) =~= b);
    lemma_dec_global_prefix(b, 0, g);
}

pub proof fn lemma_global_decode_pins(b: Seq<u8>, g: GlobalPosition)
    requires
        dec_global_full(b) == Some(g),
    ensures
        b == enc_global(g),
{
    match dec_global(b, 0) {
        Some((v2, p)) => {
            lemma_dec_global_sound(b, 0, v2, p);
            assert(b.subrange(0, b.len() as int) =~= b);
        },
        None => {
            assert(false);
        },
    }
}

pub proof fn lemma_yaw_round_trip(v: u32)
    ensures
        dec_yaw_full(enc_u32(v)) == Some(v),
{
    lemma_enc_lens();
    let b = enc_u32(v);
    assert(b.subrange(0, 4) =~= b);
    lemma_dec_u32_prefix(b, 0, v);
}

pub proof fn lemma_yaw_decode_pins(b: Seq<u8>, v: u32)
    requires
        dec_yaw_full(b) == Some(v),
    ensures
        b == enc_u32(v),
{
    match dec_u32(b, 0) {
        Some((v2, p)) => {
            lemma_dec_u32_sound(b, 0, v2, p);
            assert(b.subrange(0, b.len() as int) =~= b);
        },
        None => {
            assert(false);
        },
    }
}

pub proof fn lemma_step_round_trip(v: i32)
    ensures
        dec_step_full(enc_step(v)) == Some(v),
{
    lemma_enc_lens();
    let b = enc_step(v);
    assert(b.subrange(0, 4) =~= b);
    lemma_dec_step_prefix(b, 0, v);
}

pub proof fn lemma_step_decode_pins(b: Seq<u8>, v: i32)
    requires
        dec_step_full(b) == Some(v),
    ensures
        b == enc_step(v),
{
    match dec_step(b, 0) {
        Some((v2, p)) => {
            lemma_dec_step_sound(b, 0, v2, p);
            assert(b.subrange(0, b.len() as int) =~= b);
        },
        None => {
            assert(false);
        },
    }
}

pub proof fn lemma_request_round_trip(r: ControlRequest)
    ensures
        dec_request_full(enc_request(r)) == Some(r),
{
    lemma_enc_lens();
    let b = enc_request(r);
    assert(b.subrange(0, b.len() as int) =~= b);
    lemma_dec_request_prefix(b, 0, r);
}

pub proof fn lemma_request_decode_pins(b: Seq<u8>, r: ControlRequest)
    requires
        dec_request_full(b) == Some(r),
    ensures
        b == enc_request(r),
{
    match dec_request(b, 0) {
        Some((v2, p)) => {
            lemma_dec_request_sound(b, 0, v2, p);
            assert(b.subrange(0, b.len() as int) =~= b);
        },
        None => {
            assert(false);
        },
    }
}

pub proof fn lemma_response_round_trip(m: ResponseModel)
    requires
        response_count_ok(m),
    ensures
        dec_response_full(enc_response(m)) == Some(m),
{
    lemma_enc_lens();
    let b = enc_response(m);
    assert(b.subrange(0, b.len() as int) =~= b);
    lemma_dec_response_prefix(b, 0, m);
}

pub proof fn lemma_response_decode_pins(b: Seq<u8>, m: ResponseModel)
    requires
        dec_response_full(b) == Some(m),
    ensures
        b == enc_response(m),
{
    match dec_response(b, 0) {
        Some((v2, p)) => {
            lemma_dec_response_sound(b, 0, v2, p);
            assert(b.subrange(0, b.len() as int) =~= b);
        },
        None => {
            assert(false);
        },
    }
}

pub proof fn lemma_plan_round_trip(pl: PlanModel)
    requires
        plan_count_ok(pl),
    ensures
        dec_plan_full(enc_plan(pl)) == Some(pl),
{
    lemma_enc_lens();
    let b = enc_plan(pl);
    assert(b.subrange(0, b.len() as int) =~= b);
    lemma_dec_plan_prefix(b, 0, pl);
}

pub proof fn lemma_plan_decode_pins(b: Seq<u8>, pl: PlanModel)
    requires
        dec_plan_full(b) == Some(pl),
    ensures
        b == enc_plan(pl),
{
    match dec_plan(b, 0) {
        Some((v2, p)) => {
            lemma_dec_plan_sound(b, 0, v2, p);
            assert(b.subrange(0, b.len() as int) =~= b);
        },
        None => {
            assert(false);
        },
    }
}

// ---------------------------------------------------------------------
// The public message codec: encoding is total, decoding returns the
// unique payload whose encoding the buffer is, or fails.
// ---------------------------------------------------------------------

pub fn encode_local_position(v: &LocalPosition) -> (r: Vec<u8>)
    ensures
        r@ == enc_local(*v),
{
    let mut out: Vec<u8> = Vec::new();
    write_local(&mut out, v);
    out
}

pub fn decode_local_position(b: &Vec<u8>) -> (r: Result<LocalPosition, DecodeError>)
    ensures
        match r {
            Ok(v) => dec_local_full(b@) == Some(v),
            Err(_) => dec_local_full(b@) is None,
        },
{
    match read_local(b, 0) {
        Some((v, p)) => if p == b.len() {
            Ok(v)
        } else {
            Err(DecodeError)
        },
        None => Err(DecodeError),
    }
}

pub fn encode_global_position(g: &GlobalPosition) -> (r: Vec<u8>)
    ensures
        r@ == enc_global(*g),
{
    let mut out: Vec<u8> = Vec::new();
    write_global(&mut out, g);
    out
}

pub fn decode_global_position(b: &Vec<u8>) -> (r: Result<GlobalPosition, DecodeError>)
    ensures
        match r {
            Ok(v) => dec_global_full(b@) == Some(v),
            Err(_) => dec_global_full(b@) is None,
        },
{
    match read_global(b, 0) {
        Some((v, p)) => if p == b.len() {
            Ok(v)
        } else {
            Err(DecodeError)
        },
        None => Err(DecodeError),
    }
}

pub fn encode_yaw(v: u32) -> (r: Vec<u8>)
    ensures
        r@ == enc_u32(v),
{
    let mut out: Vec<u8> = Vec::new();
    write_u32(&mut out, v);
    out
}

pub fn decode_yaw(b: &Vec<u8>) -> (r: Result<u32, DecodeError>)
    ensures
        match r {
            Ok(v) => dec_yaw_full(b@) == Some(v),
            Err(_) => dec_yaw_full(b@) is None,
        },
{
    match read_u32(b, 0) {
        Some((v, p)) => if p == b.len() {
            Ok(v)
        } else {
            Err(DecodeError)
        },
        None => Err(DecodeError),
    }
}

pub fn encode_mission_step(v: i32) -> (r: Vec<u8>)
    ensures
        r@ == enc_step(v),
{
    let mut out: Vec<u8> = Vec::new();
    write_step(&mut out, v);
    out
}

pub fn decode_mission_step(b: &Vec<u8>) -> (r: Result<i32, DecodeError>)
    ensures
        match r {
            Ok(v) => dec_step_full(b@) == Some(v),
            Err(_) => dec_step_full(b@) is None,
        },
{
    match read_step(b, 0) {
        Some((v, p)) => if p == b.len() {
            Ok(v)
        } else {
            Err(DecodeError)
        },
        None => Err(DecodeError),
    }
}

pub fn encode_control_request(v: &ControlRequest) -> (r: Vec<u8>)
    ensures
        r@ == enc_request(*v),
{
    let mut out: Vec<u8> = Vec::new();
    write_request(&mut out, v);
    out
}

pub fn decode_control_request(b: &Vec<u8>) -> (r: Result<ControlRequest, DecodeError>)
    ensures
        match r {
            Ok(v) => dec_request_full(b@) == Some(v),
            Err(_) => dec_request_full(b@) is None,
        },
{
    match read_request(b, 0) {
        Some((v, p)) => if p == b.len() {
            Ok(v)
        } else {
            Err(DecodeError)
        },
        None => Err(DecodeError),
    }
}

pub fn encode_control_response(v: &ControlResponse) -> (r: Vec<u8>)
    ensures
        r@ == enc_response(v@),
{
    let mut out: Vec<u8> = Vec::new();
    write_response(&mut out, v);
    out
}

pub fn decode_control_response(b: &Vec<u8>) -> (r: Result<ControlResponse, DecodeError>)
    ensures
        match r {
            Ok(v) => dec_response_full(b@) == Some(v@),
            Err(_) => dec_response_full(b@) is None,
        },
{
    match read_response(b, 0) {
        Some((v, p)) => if p == b.len() {
            Ok(v)
        } else {
            Err(DecodeError)
        },
        None => Err(DecodeError),
    }
}

pub fn encode_mission_plan(v: &MissionPlan) -> (r: Vec<u8>)
    ensures
        r@ == enc_plan(v@),
{
    let mut out: Vec<u8> = Vec::new();
    write_plan(&mut out, v);
    out
}

pub fn decode_mission_plan(b: &Vec<u8>) -> (r: Result<MissionPlan, DecodeError>)
    ensures
        match r {
            Ok(v) => dec_plan_full(b@) == Some(v@),
            Err(_) => dec_plan_full(b@) is None,
        },
{
    match read_plan(b, 0) {
        Some((v, p)) => if p == b.len() {
            Ok(v)
        } else {
            Err(DecodeError)
        },
        None => Err(DecodeError),
    }
}


// ---------------------------------------------------------------------
// Encoding is injective: two payloads with the same wire form are the
// same payload, so no channel can carry an ambiguous message.
// ---------------------------------------------------------------------

pub proof fn lemma_enc_local_injective(a: LocalPosition, b: LocalPosition)
    requires
        enc_local(a) == enc_local(b),
    ensures
        a == b,
{
    lemma_local_round_trip(a);
    lemma_local_round_trip(b);
}

pub proof fn lemma_enc_global_injective(a: GlobalPosition, b: GlobalPosition)
    requires
        enc_global(a) == enc_global(b),
    ensures
        a == b,
{
    lemma_global_round_trip(a);
    lemma_global_round_trip(b);
}

pub proof fn lemma_enc_yaw_injective(a: u32, b: u32)
    requires
        enc_u32(a) == enc_u32(b),
    ensures
        a == b,
{
    lemma_yaw_round_trip(a);
    lemma_yaw_round_trip(b);
}

pub proof fn lemma_enc_step_injective(a: i32, b: i32)
    requires
        enc_step(a) == enc_step(b),
    ensures
        a == b,
{
    lemma_step_round_trip(a);
    lemma_step_round_trip(b);
}

pub proof fn lemma_enc_request_injective(a: ControlRequest, b: ControlRequest)
    requires
        enc_request(a) == enc_request(b),
    ensures
        a == b,
{
    lemma_request_round_trip(a);
    lemma_request_round_trip(b);
}

pub proof fn lemma_enc_response_injective(a: ResponseModel, b: ResponseModel)
    requires
        response_count_ok(a),
        response_count_ok(b),
        enc_response(a) == enc_response(b),
    ensures
        a == b,
{
    lemma_response_round_trip(a);
    lemma_response_round_trip(b);
}

pub proof fn lemma_enc_plan_injective(a: PlanModel, b: PlanModel)
    requires
        plan_count_ok(a),
        plan_count_ok(b),
        enc_plan(a) == enc_plan(b),
    ensures
        a == b,
{
    lemma_plan_round_trip(a);
    lemma_plan_round_trip(b);
}

} // verus!
