use vstd::bytes::*;
use vstd::prelude::*;

use crate::body_id::{BodyId, BODY_ID_LEN};
use crate::command::Command;

verus! {

/// Bytes of one body or action record.
pub const RECORD_SIZE: usize = 96;

/// Bytes of a command record.
pub const COMMAND_SIZE: usize = 16;

/// Most bodies a fixed-layout snapshot carries; the rest are dropped.
pub const MAX_BODIES: usize = 1024;

/// Bytes of the snapshot trailer: body count, tick rate, time, padding.
pub const WORLD_TRAILER_SIZE: usize = 16;

/// Bytes of a snapshot record: every body slot, then the trailer.
pub const WORLD_SIZE: usize = MAX_BODIES * RECORD_SIZE + WORLD_TRAILER_SIZE;

// ---------------------------------------------------------------------------
// 32-bit little-endian words

/// The little-endian bytes of a sequence of words, in order.
pub open spec fn le_words(ws: Seq<u32>) -> Seq<u8>
    decreases ws.len(),
{
    if ws.len() == 0 {
        Seq::empty()
    } else {
        le_words(ws.drop_last()) + spec_u32_to_le_bytes(ws.last())
    }
}

/// The words read back from bytes, four bytes each, little-endian.
pub open spec fn words_of(b: Seq<u8>) -> Seq<u32> {
    Seq::new(b.len() / 4, |i: int| spec_u32_from_le_bytes(b.subrange(4 * i, 4 * i + 4)))
}

/// `n` zero bytes.
pub open spec fn zeros(n: nat) -> Seq<u8> {
    Seq::new(n, |i: int| 0u8)
}

pub proof fn lemma_le_words_len(ws: Seq<u32>)
    ensures
        le_words(ws).len() == 4 * ws.len(),
    decreases ws.len(),
{
    lemma_auto_spec_u32_to_from_le_bytes();
    if ws.len() > 0 {
        lemma_le_words_len(ws.drop_last());
    }
}

pub proof fn lemma_le_words_chunk(ws: Seq<u32>, i: int)
    requires
        0 <= i < ws.len(),
    ensures
        le_words(ws).subrange(4 * i, 4 * i + 4) == spec_u32_to_le_bytes(ws[i]),
    decreases ws.len(),
{
    lemma_auto_spec_u32_to_from_le_bytes();
    let init = ws.drop_last();
    lemma_le_words_len(init);
    if i < ws.len() - 1 {
        lemma_le_words_chunk(init, i);
        assert(le_words(ws).subrange(4 * i, 4 * i + 4) =~= le_words(init).subrange(4 * i, 4 * i + 4));
    } else {
        assert(le_words(ws).subrange(4 * i, 4 * i + 4) =~= spec_u32_to_le_bytes(ws.last()));
    }
}

/// Words written little-endian read back unchanged.
pub proof fn lemma_words_round_trip(ws: Seq<u32>)
    ensures
        words_of(le_words(ws)) == ws,
{
    lemma_auto_spec_u32_to_from_le_bytes();
    lemma_le_words_len(ws);
    let b = le_words(ws);
    assert(b.len() / 4 == ws.len());
    assert forall|i: int| 0 <= i < ws.len() implies #[trigger] words_of(b)[i] == ws[i] by {
        lemma_le_words_chunk(ws, i);
        assert(words_of(b)[i] == spec_u32_from_le_bytes(b.subrange(4 * i, 4 * i + 4)));
        assert(b.subrange(4 * i, 4 * i + 4) == spec_u32_to_le_bytes(ws[i]));
        assert(spec_u32_from_le_bytes(spec_u32_to_le_bytes(ws[i])) == ws[i]);
    }
    assert(words_of(le_words(ws)) =~= ws);
}

pub(crate) fn push_bytes(out: &mut Vec<u8>, b: &[u8])
    ensures
        final(out)@ == old(out)@ + b@,
{
    let mut i: usize = 0;
    while i < b.len()
        invariant
            i <= b@.len(),
            out@ == old(out)@ + b@.take(i as int),
        decreases b@.len() - i,
    {
        out.push(b[i]);
        assert(b@.take(i + 1) =~= b@.take(i as int).push(b@[i as int]));
        i = i + 1;
    }
    assert(b@.take(b@.len() as int) =~= b@);
}

pub(crate) fn push_zeros(out: &mut Vec<u8>, n: usize)
    ensures
        final(out)@ == old(out)@ + zeros(n as nat),
{
    let mut i: usize = 0;
    while i < n
        invariant
            i <= n,
            out@ == old(out)@ + zeros(i as nat),
        decreases n - i,
    {
        out.push(0u8);
        assert(zeros((i + 1) as nat) =~= zeros(i as nat).push(0u8));
        i = i + 1;
    }
}

fn push_words(out: &mut Vec<u8>, ws: &Vec<u32>)
    ensures
        final(out)@ == old(out)@ + le_words(ws@),
{
    let mut i: usize = 0;
    assert(ws@.take(0) =~= Seq::<u32>::empty());
    while i < ws.len()
        invariant
            i <= ws@.len(),
            out@ == old(out)@ + le_words(ws@.take(i as int)),
        decreases ws@.len() - i,
    {
        let b = u32_to_le_bytes(ws[i]);
        push_bytes(out, b.as_slice());
        assert(ws@.take(i + 1).drop_last() =~= ws@.take(i as int));
        assert(out@ =~= old(out)@ + le_words(ws@.take(i + 1)));
        i = i + 1;
    }
    assert(ws@.take(ws@.len() as int) =~= ws@);
}

fn read_words(b: &[u8]) -> (r: Vec<u32>)
    ensures
        r@ == words_of(b@),
{
    let len: usize = b.len();
    let n: usize = len / 4;
    let mut r: Vec<u32> = Vec::new();
    let mut i: usize = 0;
    while i < n
        invariant
            len == b@.len(),
            n == len / 4,
            i <= n,
            r@.len() == i,
            forall|k: int| 0 <= k < i ==> r@[k] == #[trigger] words_of(b@)[k],
        decreases n - i,
    {
        let chunk = vstd::slice::slice_subrange(b, 4 * i, 4 * i + 4);
        let w = u32_from_le_bytes(chunk);
        r.push(w);
        i = i + 1;
    }
    assert(r@ =~= words_of(b@));
    r
}

// ---------------------------------------------------------------------------
// Records. Floating-point quantities travel as their IEEE-754 single-precision
// bit patterns; the codec never reads them as numbers.

/// Three components, each the bit pattern of a 32-bit float.
#[derive(Clone, Copy, Debug, PartialEq, Eq, Structural)]
pub struct Vec3Pod {
    pub x: u32,
    pub y: u32,
    pub z: u32,
}

impl Vec3Pod {
    pub open spec fn words(self) -> Seq<u32> {
        seq![self.x, self.y, self.z]
    }
}

/// Box corners, each a `Vec3Pod`.
#[derive(Clone, Copy, Debug, PartialEq, Eq, Structural)]
pub struct AABBPod {
    pub min: Vec3Pod,
    pub max: Vec3Pod,
}

impl AABBPod {
    pub open spec fn words(self) -> Seq<u32> {
        self.min.words() + self.max.words()
    }
}

/// The vector whose components are words `at`, `at + 1`, `at + 2`.
pub open spec fn vec3_at(ws: Seq<u32>, at: int) -> Vec3Pod {
    Vec3Pod { x: ws[at], y: ws[at + 1], z: ws[at + 2] }
}

/// A body as it travels in a snapshot.
#[derive(Clone, Copy, Debug, PartialEq, Eq)]
pub struct RigidBodyPod {
    pub id: BodyId,
    pub position: Vec3Pod,
    pub velocity: Vec3Pod,
    pub aabb: AABBPod,
    pub mass: u32,
    pub restitution: u32,
    /// 1 for a dynamic body, 0 for a static one.
    pub dynamic: u32,
}

impl RigidBodyPod {
    /// The words after the identifier; the last one is padding.
    pub open spec fn words(self) -> Seq<u32> {
        self.position.words() + self.velocity.words() + self.aabb.words() + seq![
            self.mass,
            self.restitution,
            self.dynamic,
            0u32,
        ]
    }

    pub open spec fn spec_bytes(self) -> Seq<u8> {
        self.id.data@ + le_words(self.words())
    }

    /// `r` is what the record bytes `b` read back as.
    pub open spec fn decodes_to(b: Seq<u8>, r: RigidBodyPod) -> bool {
        let ws = words_of(b.skip(BODY_ID_LEN as int));
        &&& b.len() == RECORD_SIZE
        &&& r.id.data@ == b.take(BODY_ID_LEN as int)
        &&& r.position == vec3_at(ws, 0)
        &&& r.velocity == vec3_at(ws, 3)
        &&& r.aabb == (AABBPod { min: vec3_at(ws, 6), max: vec3_at(ws, 9) })
        &&& r.mass == ws[12]
        &&& r.restitution == ws[13]
        &&& r.dynamic == ws[14]
    }

    pub fn write(&self, out: &mut Vec<u8>)
        ensures
            final(out)@ == old(out)@ + self.spec_bytes(),
    {
        let mut ws: Vec<u32> = Vec::new();
        push_vec3(&mut ws, &self.position);
        push_vec3(&mut ws, &self.velocity);
        push_vec3(&mut ws, &self.aabb.min);
        push_vec3(&mut ws, &self.aabb.max);
        ws.push(self.mass);
        ws.push(self.restitution);
        ws.push(self.dynamic);
        ws.push(0u32);
        assert(ws@ =~= self.words());
        push_id(out, &self.id);
        push_words(out, &ws);
        assert(final(out)@ =~= old(out)@ + self.spec_bytes());
    }

    pub fn read(b: &[u8]) -> (r: RigidBodyPod)
        requires
            b@.len() == RECORD_SIZE,
        ensures
            RigidBodyPod::decodes_to(b@, r),
    {
        let id = read_id(b);
        let ws = read_words(vstd::slice::slice_subrange(b, BODY_ID_LEN, RECORD_SIZE));
        assert(b@.subrange(BODY_ID_LEN as int, RECORD_SIZE as int) =~= b@.skip(BODY_ID_LEN as int));
        RigidBodyPod {
            id,
            position: Vec3Pod { x: ws[0], y: ws[1], z: ws[2] },
            velocity: Vec3Pod { x: ws[3], y: ws[4], z: ws[5] },
            aabb: AABBPod {
                min: Vec3Pod { x: ws[6], y: ws[7], z: ws[8] },
                max: Vec3Pod { x: ws[9], y: ws[10], z: ws[11] },
            },
            mass: ws[12],
            restitution: ws[13],
            dynamic: ws[14],
        }
    }
}

/// A body record reads back as the body it was written from.
pub proof fn lemma_body_round_trip(r: RigidBodyPod, d: RigidBodyPod)
    requires
        RigidBodyPod::decodes_to(r.spec_bytes(), d),
    ensures
        d == r,
{
    lemma_le_words_len(r.words());
    let b = r.spec_bytes();
    assert(b.take(BODY_ID_LEN as int) =~= r.id.data@);
    assert(b.skip(BODY_ID_LEN as int) =~= le_words(r.words()));
    lemma_words_round_trip(r.words());
    assert(d.id.data =~= r.id.data);
}

/// A request from a client to overwrite a body's state.
#[derive(Clone, Copy, Debug, PartialEq, Eq)]
pub struct ActionPod {
    pub body_id: BodyId,
    pub velocity: Vec3Pod,
    pub position: Vec3Pod,
    pub aabb: AABBPod,
    pub mass: u32,
    pub restitution: u32,
    /// 1 for a dynamic body, 0 for a static one.
    pub dynamic: u32,
}

impl ActionPod {
    /// The words after the identifier; the last one is padding.
    pub open spec fn words(self) -> Seq<u32> {
        self.velocity.words() + self.position.words() + self.aabb.words() + seq![
            self.mass,
            self.restitution,
            self.dynamic,
            0u32,
        ]
    }

    pub open spec fn spec_bytes(self) -> Seq<u8> {
        self.body_id.data@ + le_words(self.words())
    }

    /// `r` is what the record bytes `b` read back as.
    pub open spec fn decodes_to(b: Seq<u8>, r: ActionPod) -> bool {
        let ws = words_of(b.skip(BODY_ID_LEN as int));
        &&& b.len() == RECORD_SIZE
        &&& r.body_id.data@ == b.take(BODY_ID_LEN as int)
        &&& r.velocity == vec3_at(ws, 0)
        &&& r.position == vec3_at(ws, 3)
        &&& r.aabb == (AABBPod { min: vec3_at(ws, 6), max: vec3_at(ws, 9) })
        &&& r.mass == ws[12]
        &&& r.restitution == ws[13]
        &&& r.dynamic == ws[14]
    }

    pub fn write(&self, out: &mut Vec<u8>)
        ensures
            final(out)@ == old(out)@ + self.spec_bytes(),
    {
        let mut ws: Vec<u32> = Vec::new();
        push_vec3(&mut ws, &self.velocity);
        push_vec3(&mut ws, &self.position);
        push_vec3(&mut ws, &self.aabb.min);
        push_vec3(&mut ws, &self.aabb.max);
        ws.push(self.mass);
        ws.push(self.restitution);
        ws.push(self.dynamic);
        ws.push(0u32);
        assert(ws@ =~= self.words());
        push_id(out, &self.body_id);
        push_words(out, &ws);
        assert(final(out)@ =~= old(out)@ + self.spec_bytes());
    }

    pub fn read(b: &[u8]) -> (r: ActionPod)
        requires
            b@.len() == RECORD_SIZE,
        ensures
            ActionPod::decodes_to(b@, r),
    {
        let body_id = read_id(b);
        let ws = read_words(vstd::slice::slice_subrange(b, BODY_ID_LEN, RECORD_SIZE));
        assert(b@.subrange(BODY_ID_LEN as int, RECORD_SIZE as int) =~= b@.skip(BODY_ID_LEN as int));
        ActionPod {
            body_id,
            velocity: Vec3Pod { x: ws[0], y: ws[1], z: ws[2] },
            position: Vec3Pod { x: ws[3], y: ws[4], z: ws[5] },
            aabb: AABBPod {
                min: Vec3Pod { x: ws[6], y: ws[7], z: ws[8] },
                max: Vec3Pod { x: ws[9], y: ws[10], z: ws[11] },
            },
            mass: ws[12],
            restitution: ws[13],
            dynamic: ws[14],
        }
    }
}

/// An action record reads back as the action it was written from.
pub proof fn lemma_action_round_trip(a: ActionPod, d: ActionPod)
    requires
        ActionPod::decodes_to(a.spec_bytes(), d),
    ensures
        d == a,
{
    lemma_le_words_len(a.words());
    let b = a.spec_bytes();
    assert(b.take(BODY_ID_LEN as int) =~= a.body_id.data@);
    assert(b.skip(BODY_ID_LEN as int) =~= le_words(a.words()));
    lemma_words_round_trip(a.words());
    assert(d.body_id.data =~= a.body_id.data);
}

fn push_vec3(ws: &mut Vec<u32>, v: &Vec3Pod)
    ensures
        final(ws)@ == old(ws)@ + v.words(),
{
    ws.push(v.x);
    ws.push(v.y);
    ws.push(v.z);
    assert(final(ws)@ =~= old(ws)@ + v.words());
}

fn push_id(out: &mut Vec<u8>, id: &BodyId)
    ensures
        final(out)@ == old(out)@ + id.data@,
{
    let mut i: usize = 0;
    while i < BODY_ID_LEN
        invariant
            i <= BODY_ID_LEN,
            id.data@.len() == BODY_ID_LEN,
            out@ == old(out)@ + id.data@.take(i as int),
        decreases BODY_ID_LEN - i,
    {
        out.push(id.data[i]);
        assert(id.data@.take(i + 1) =~= id.data@.take(i as int).push(id.data@[i as int]));
        i = i + 1;
    }
    assert(id.data@.take(BODY_ID_LEN as int) =~= id.data@);
}

fn read_id(b: &[u8]) -> (r: BodyId)
    requires
        b@.len() >= BODY_ID_LEN,
    ensures
        r.data@ == b@.take(BODY_ID_LEN as int),
{
    let mut data: [u8; 32] = [0u8; 32];
    let mut i: usize = 0;
    while i < BODY_ID_LEN
        invariant
            i <= BODY_ID_LEN,
            b@.len() >= BODY_ID_LEN,
            data@.len() == BODY_ID_LEN,
            forall|k: int| 0 <= k < i ==> data@[k] == b@[k],
        decreases BODY_ID_LEN - i,
    {
        data[i] = b[i];
        i = i + 1;
    }
    assert(data@ =~= b@.take(BODY_ID_LEN as int));
    BodyId { data }
}

// ---------------------------------------------------------------------------
// Command records

/// A control command as it travels in a fixed-layout message.
#[derive(Clone, Copy, Debug, PartialEq, Eq, Structural)]
pub struct CommandPod {
    pub cmd_type: u32,
}

impl CommandPod {
    pub const GET_STATE: u32 = 0;
    pub const POST_ACTION: u32 = 1;
    pub const STEP: u32 = 2;
    pub const RESET: u32 = 3;

    /// The tag, then three words of padding.
    pub open spec fn spec_bytes(self) -> Seq<u8> {
        le_words(seq![self.cmd_type, 0u32, 0u32, 0u32])
    }

    pub fn write(&self, out: &mut Vec<u8>)
        ensures
            final(out)@ == old(out)@ + self.spec_bytes(),
    {
        let mut ws: Vec<u32> = Vec::new();
        ws.push(self.cmd_type);
        ws.push(0u32);
        ws.push(0u32);
        ws.push(0u32);
        assert(ws@ =~= seq![self.cmd_type, 0u32, 0u32, 0u32]);
        push_words(out, &ws);
    }

    pub fn read(b: &[u8]) -> (r: CommandPod)
        requires
            b@.len() == COMMAND_SIZE,
        ensures
            r.cmd_type == words_of(b@)[0],
    {
        let ws = read_words(b);
        CommandPod { cmd_type: ws[0] }
    }

    /// The command this record names, if its tag is a known one.
    pub fn command(&self) -> (r: Option<Command>)
        ensures
            r == Command::from_index(self.cmd_type),
    {
        Command::from_variant_index(self.cmd_type)
    }
}

impl From<Command> for CommandPod {
    fn from(cmd: Command) -> (r: CommandPod)
        ensures
            r.cmd_type == cmd.index(),
    {
        CommandPod { cmd_type: cmd.variant_index() }
    }
}

impl vstd::std_specs::convert::FromSpecImpl<Command> for CommandPod {
    open spec fn obeys_from_spec() -> bool {
        true
    }

    open spec fn from_spec(cmd: Command) -> CommandPod {
        CommandPod { cmd_type: cmd.index() }
    }
}

/// A command record reads back as the command it was written from.
pub proof fn lemma_command_record_round_trip(c: CommandPod)
    ensures
        c.spec_bytes().len() == COMMAND_SIZE,
        words_of(c.spec_bytes())[0] == c.cmd_type,
{
    lemma_words_round_trip(seq![c.cmd_type, 0u32, 0u32, 0u32]);
    lemma_le_words_len(seq![c.cmd_type, 0u32, 0u32, 0u32]);
}

// ---------------------------------------------------------------------------
// Snapshot records

/// The records of `bs`, one after another.
pub open spec fn records_bytes(bs: Seq<RigidBodyPod>) -> Seq<u8>
    decreases bs.len(),
{
    if bs.len() == 0 {
        Seq::empty()
    } else {
        records_bytes(bs.drop_last()) + bs.last().spec_bytes()
    }
}

pub proof fn lemma_record_len(r: RigidBodyPod)
    ensures
        r.spec_bytes().len() == RECORD_SIZE,
{
    lemma_le_words_len(r.words());
}

pub proof fn lemma_records_len(bs: Seq<RigidBodyPod>)
    ensures
        records_bytes(bs).len() == RECORD_SIZE * bs.len(),
    decreases bs.len(),
{
    if bs.len() > 0 {
        lemma_records_len(bs.drop_last());
        lemma_record_len(bs.last());
    }
}

pub proof fn lemma_records_chunk(bs: Seq<RigidBodyPod>, i: int)
    requires
        0 <= i < bs.len(),
    ensures
        records_bytes(bs).subrange(RECORD_SIZE * i, RECORD_SIZE * i + RECORD_SIZE)
            == bs[i].spec_bytes(),
    decreases bs.len(),
{
    let init = bs.drop_last();
    lemma_records_len(init);
    lemma_record_len(bs.last());
    let whole = records_bytes(bs);
    if i < bs.len() - 1 {
        lemma_records_chunk(init, i);
        assert(whole.subrange(RECORD_SIZE * i, RECORD_SIZE * i + RECORD_SIZE) =~= records_bytes(
            init,
        ).subrange(RECORD_SIZE * i, RECORD_SIZE * i + RECORD_SIZE));
    } else {
        assert(whole.subrange(RECORD_SIZE * i, RECORD_SIZE * i + RECORD_SIZE)
            =~= bs.last().spec_bytes());
    }
}

/// A snapshot as it travels in a fixed-layout message: at most `MAX_BODIES`
/// bodies, the tick rate and the elapsed time (both float bit patterns).
#[derive(Clone, Debug, PartialEq, Eq)]
pub struct WorldStatePod {
    pub bodies: Vec<RigidBodyPod>,
    pub tick_rate: u32,
    pub time: u32,
}

impl WorldStatePod {
    /// The bodies the record carries: those past `MAX_BODIES` are dropped.
    pub open spec fn kept(self) -> Seq<RigidBodyPod> {
        if self.bodies@.len() <= MAX_BODIES {
            self.bodies@
        } else {
            self.bodies@.take(MAX_BODIES as int)
        }
    }

    /// Every body slot (unused ones zero), then count, tick rate, time and
    /// a padding word.
    pub open spec fn spec_bytes(self) -> Seq<u8> {
        records_bytes(self.kept()) + zeros(((MAX_BODIES - self.kept().len()) * RECORD_SIZE) as nat)
            + le_words(seq![self.kept().len() as u32, self.tick_rate, self.time, 0u32])
    }

    /// The trailer words of snapshot bytes `b`.
    pub open spec fn trailer(b: Seq<u8>) -> Seq<u32> {
        words_of(b.skip((MAX_BODIES * RECORD_SIZE) as int))
    }

    /// `s` is what the snapshot bytes `b` read back as.
    pub open spec fn decodes_to(b: Seq<u8>, s: WorldStatePod) -> bool {
        let t = WorldStatePod::trailer(b);
        &&& b.len() == WORLD_SIZE
        &&& s.bodies@.len() == t[0]
        &&& s.tick_rate == t[1]
        &&& s.time == t[2]
        &&& forall|i: int|
            0 <= i < s.bodies@.len() ==> RigidBodyPod::decodes_to(
                #[trigger] b.subrange(RECORD_SIZE * i, RECORD_SIZE * i + RECORD_SIZE),
                s.bodies@[i],
            )
    }

    /// Number of bodies the record carries.
    pub fn body_count(&self) -> (r: u32)
        ensures
            r == self.kept().len(),
    {
        if self.bodies.len() <= MAX_BODIES {
            self.bodies.len() as u32
        } else {
            MAX_BODIES as u32
        }
    }

    pub fn write(&self, out: &mut Vec<u8>)
        ensures
            final(out)@ == old(out)@ + self.spec_bytes(),
    {
        let count = self.body_count();
        let n = count as usize;
        let ghost kept = self.kept();
        let mut i: usize = 0;
        while i < n
            invariant
                n == kept.len(),
                n <= MAX_BODIES,
                n <= self.bodies@.len(),
                kept == self.kept(),
                forall|k: int| 0 <= k < n ==> kept[k] == self.bodies@[k],
                i <= n,
                out@ == old(out)@ + records_bytes(kept.take(i as int)),
            decreases n - i,
        {
            self.bodies[i].write(out);
            assert(kept.take(i + 1).drop_last() =~= kept.take(i as int));
            i = i + 1;
        }
        assert(kept.take(n as int) =~= kept);
        push_zeros(out, (MAX_BODIES - n) * RECORD_SIZE);
        let mut ws: Vec<u32> = Vec::new();
        ws.push(count);
        ws.push(self.tick_rate);
        ws.push(self.time);
        ws.push(0u32);
        assert(ws@ =~= seq![kept.len() as u32, self.tick_rate, self.time, 0u32]);
        push_words(out, &ws);
        assert(final(out)@ =~= old(out)@ + self.spec_bytes());
    }

    /// Reads a snapshot; `None` when its count is over `MAX_BODIES`.
    pub fn read(b: &[u8]) -> (r: Option<WorldStatePod>)
        requires
            b@.len() == WORLD_SIZE,
        ensures
            r is Some <==> WorldStatePod::trailer(b@)[0] <= MAX_BODIES,
            r matches Some(s) ==> WorldStatePod::decodes_to(b@, s),
    {
        let start: usize = MAX_BODIES * RECORD_SIZE;
        let t = read_words(vstd::slice::slice_subrange(b, start, WORLD_SIZE));
        assert(b@.subrange(start as int, WORLD_SIZE as int) =~= b@.skip(start as int));
        let count = t[0];
        if count as usize > MAX_BODIES {
            return None;
        }
        let n = count as usize;
        let mut bodies: Vec<RigidBodyPod> = Vec::new();
        let mut i: usize = 0;
        while i < n
            invariant
                n <= MAX_BODIES,
                b@.len() == WORLD_SIZE,
                i <= n,
                bodies@.len() == i,
                forall|k: int|
                    0 <= k < i ==> RigidBodyPod::decodes_to(
                        #[trigger] b@.subrange(RECORD_SIZE * k, RECORD_SIZE * k + RECORD_SIZE),
                        bodies@[k],
                    ),
            decreases n - i,
        {
            let rec = vstd::slice::slice_subrange(b, RECORD_SIZE * i, RECORD_SIZE * i + RECORD_SIZE);
            bodies.push(RigidBodyPod::read(rec));
            i = i + 1;
        }
        Some(WorldStatePod { bodies, tick_rate: t[1], time: t[2] })
    }
}

/// The trailer of a snapshot record holds the kept body count, the tick
/// rate and the time.
pub proof fn lemma_world_trailer(s: WorldStatePod)
    ensures
        WorldStatePod::trailer(s.spec_bytes()) == seq![
            s.kept().len() as u32,
            s.tick_rate,
            s.time,
            0u32,
        ],
{
    let tw = seq![s.kept().len() as u32, s.tick_rate, s.time, 0u32];
    lemma_records_len(s.kept());
    lemma_le_words_len(tw);
    assert(s.spec_bytes().skip((MAX_BODIES * RECORD_SIZE) as int) =~= le_words(tw));
    lemma_words_round_trip(tw);
}

/// A snapshot record of at most `MAX_BODIES` bodies reads back as the
/// snapshot it was written from.
pub proof fn lemma_world_round_trip(s: WorldStatePod, d: WorldStatePod)
    requires
        s.bodies@.len() <= MAX_BODIES,
        WorldStatePod::decodes_to(s.spec_bytes(), d),
    ensures
        d.bodies@ == s.bodies@,
        d.tick_rate == s.tick_rate,
        d.time == s.time,
{
    lemma_world_trailer(s);
    let bs = s.bodies@;
    let b = s.spec_bytes();
    let tw = seq![bs.len() as u32, s.tick_rate, s.time, 0u32];
    lemma_records_len(bs);
    lemma_le_words_len(tw);
    let start = (MAX_BODIES * RECORD_SIZE) as int;
    assert(b.skip(start) =~= le_words(tw));
    lemma_words_round_trip(tw);
    assert(d.bodies@.len() == bs.len());
    assert forall|i: int| 0 <= i < bs.len() implies d.bodies@[i] == bs[i] by {
        lemma_records_chunk(bs, i);
        assert(b.subrange(RECORD_SIZE * i, RECORD_SIZE * i + RECORD_SIZE) =~= records_bytes(
            bs,
        ).subrange(RECORD_SIZE * i, RECORD_SIZE * i + RECORD_SIZE));
        lemma_body_round_trip(bs[i], d.bodies@[i]);
    }
    assert(d.bodies@ =~= bs);
}

} // verus!
