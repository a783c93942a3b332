use vstd::prelude::*;

use crate::wire::{
    le_words, lemma_action_round_trip, lemma_command_record_round_trip, lemma_le_words_len,
    lemma_words_round_trip, lemma_world_round_trip, lemma_world_trailer, lemma_records_len, push_bytes,
    push_zeros, words_of, zeros, ActionPod, CommandPod, WorldStatePod, COMMAND_SIZE, MAX_BODIES,
    RECORD_SIZE, WORLD_SIZE,
};

verus! {

/// Bytes of the envelope header: the message type, then padding.
pub const HEADER_SIZE: usize = 16;

/// Bytes of the payload buffer, sized for the largest record (a snapshot).
pub const PAYLOAD_SIZE: usize = WORLD_SIZE;

/// Bytes of a whole fixed-layout message.
pub const MESSAGE_SIZE: usize = HEADER_SIZE + PAYLOAD_SIZE;

/// A fixed-size envelope: a type tag and a payload buffer that holds one
/// record at its front, the rest zero.
#[derive(Debug)]
pub struct MessagePod {
    msg_type: u32,
    data: Vec<u8>,
}

/// What a fixed-layout message asks the simulation to do.
#[derive(Clone, Copy, Debug, PartialEq, Eq)]
pub enum Request {
    GetState,
    Step,
    Reset,
    Action(ActionPod),
}

/// Why a fixed-layout message asks for nothing the simulation knows.
#[derive(Clone, Copy, Debug, PartialEq, Eq, Structural)]
pub enum RequestError {
    UnknownCommand(u32),
    UnknownMessageType(u32),
}

/// The payload that carries `record` at its front.
pub open spec fn padded_payload(record: Seq<u8>) -> Seq<u8> {
    record + zeros((PAYLOAD_SIZE - record.len()) as nat)
}

/// The header bytes for a message type.
pub open spec fn header_bytes(msg_type: u32) -> Seq<u8> {
    le_words(seq![msg_type, 0u32, 0u32, 0u32])
}

impl MessagePod {
    pub const TYPE_COMMAND: u32 = 0;
    pub const TYPE_ACTION: u32 = 1;
    pub const TYPE_WORLD_STATE: u32 = 2;

    #[verifier::type_invariant]
    spec fn inv(self) -> bool {
        self.data@.len() == PAYLOAD_SIZE
    }

    pub closed spec fn kind(self) -> u32 {
        self.msg_type
    }

    pub closed spec fn payload(self) -> Seq<u8> {
        self.data@
    }

    /// The bytes of the whole message.
    pub open spec fn spec_bytes(self) -> Seq<u8> {
        header_bytes(self.kind()) + self.payload()
    }

    pub fn msg_type(&self) -> (r: u32)
        ensures
            r == self.kind(),
    {
        self.msg_type
    }

    fn with_record(msg_type: u32, data: Vec<u8>) -> (r: MessagePod)
        requires
            data@.len() <= PAYLOAD_SIZE,
        ensures
            r.kind() == msg_type,
            r.payload() == padded_payload(data@),
    {
        let mut data = data;
        let fill = PAYLOAD_SIZE - data.len();
        push_zeros(&mut data, fill);
        assert(data@.len() == PAYLOAD_SIZE);
        MessagePod { msg_type, data }
    }

    pub fn from_command(cmd: CommandPod) -> (r: MessagePod)
        ensures
            r.kind() == MessagePod::TYPE_COMMAND,
            r.payload() == padded_payload(cmd.spec_bytes()),
    {
        let mut data: Vec<u8> = Vec::new();
        cmd.write(&mut data);
        proof {
            lemma_command_record_round_trip(cmd);
        }
        MessagePod::with_record(MessagePod::TYPE_COMMAND, data)
    }

    pub fn from_action(action: ActionPod) -> (r: MessagePod)
        ensures
            r.kind() == MessagePod::TYPE_ACTION,
            r.payload() == padded_payload(action.spec_bytes()),
    {
        let mut data: Vec<u8> = Vec::new();
        action.write(&mut data);
        proof {
            lemma_le_words_len(action.words());
        }
        MessagePod::with_record(MessagePod::TYPE_ACTION, data)
    }

    /// Wraps a snapshot; bodies past `MAX_BODIES` are dropped.
    pub fn from_world_state(state: WorldStatePod) -> (r: MessagePod)
        ensures
            r.kind() == MessagePod::TYPE_WORLD_STATE,
            r.payload() == state.spec_bytes(),
    {
        let mut data: Vec<u8> = Vec::new();
        state.write(&mut data);
        proof {
            lemma_world_len(state);
            assert(padded_payload(state.spec_bytes()) =~= state.spec_bytes());
        }
        MessagePod::with_record(MessagePod::TYPE_WORLD_STATE, data)
    }

    /// Reads the payload as a command record, whatever the message type.
    pub fn as_command(&self) -> (r: CommandPod)
        ensures
            r.cmd_type == words_of(self.payload().take(COMMAND_SIZE as int))[0],
    {
        proof {
            use_type_invariant(self);
        }
        let head = vstd::slice::slice_subrange(self.data.as_slice(), 0, COMMAND_SIZE);
        assert(head@ =~= self.payload().take(COMMAND_SIZE as int));
        CommandPod::read(head)
    }

    /// Reads the payload as an action record, whatever the message type.
    pub fn as_action(&self) -> (r: ActionPod)
        ensures
            ActionPod::decodes_to(self.payload().take(RECORD_SIZE as int), r),
    {
        proof {
            use_type_invariant(self);
        }
        let head = vstd::slice::slice_subrange(self.data.as_slice(), 0, RECORD_SIZE);
        assert(head@ =~= self.payload().take(RECORD_SIZE as int));
        ActionPod::read(head)
    }

    /// Reads the payload as a snapshot record, whatever the message type;
    /// `None` when its body count is over `MAX_BODIES`.
    pub fn as_world_state(&self) -> (r: Option<WorldStatePod>)
        ensures
            r is Some <==> WorldStatePod::trailer(self.payload())[0] <= MAX_BODIES,
            r matches Some(s) ==> WorldStatePod::decodes_to(self.payload(), s),
    {
        proof {
            use_type_invariant(self);
        }
        WorldStatePod::read(self.data.as_slice())
    }

    /// The bytes of the whole message: header, then payload.
    pub fn to_bytes(&self) -> (r: Vec<u8>)
        ensures
            r@ == self.spec_bytes(),
            r@.len() == MESSAGE_SIZE,
    {
        proof {
            use_type_invariant(self);
            lemma_le_words_len(seq![self.msg_type, 0u32, 0u32, 0u32]);
        }
        let mut out: Vec<u8> = Vec::new();
        let header = CommandPod { cmd_type: self.msg_type };
        header.write(&mut out);
        push_bytes(&mut out, self.data.as_slice());
        out
    }

    /// Reads a whole message; `None` unless `bytes` has exactly
    /// `MESSAGE_SIZE` bytes.
    pub fn from_bytes(bytes: &[u8]) -> (r: Option<MessagePod>)
        ensures
            r is Some <==> bytes@.len() == MESSAGE_SIZE,
            r matches Some(m) ==> m.kind() == words_of(bytes@.take(HEADER_SIZE as int))[0]
                && m.payload() == bytes@.skip(HEADER_SIZE as int),
    {
        if bytes.len() != MESSAGE_SIZE {
            return None;
        }
        let head = vstd::slice::slice_subrange(bytes, 0, HEADER_SIZE);
        let msg_type = CommandPod::read(head).cmd_type;
        let body = vstd::slice::slice_subrange(bytes, HEADER_SIZE, MESSAGE_SIZE);
        let data = vstd::slice::slice_to_vec(body);
        assert(head@ =~= bytes@.take(HEADER_SIZE as int));
        assert(data@ =~= bytes@.skip(HEADER_SIZE as int));
        assert(data@.len() == PAYLOAD_SIZE);
        Some(MessagePod { msg_type, data })
    }

    /// What the message asks for: a command of a known kind other than
    /// posting an action, or an action record.
    pub fn request(&self) -> (r: Result<Request, RequestError>)
        ensures
            self.kind() == MessagePod::TYPE_COMMAND ==> {
                let c = words_of(self.payload().take(COMMAND_SIZE as int))[0];
                &&& c == CommandPod::GET_STATE ==> r == Ok::<Request, RequestError>(
                    Request::GetState,
                )
                &&& c == CommandPod::STEP ==> r == Ok::<Request, RequestError>(Request::Step)
                &&& c == CommandPod::RESET ==> r == Ok::<Request, RequestError>(Request::Reset)
                &&& (c != CommandPod::GET_STATE && c != CommandPod::STEP && c
                    != CommandPod::RESET) ==> r == Err::<Request, RequestError>(
                    RequestError::UnknownCommand(c),
                )
            },
            self.kind() == MessagePod::TYPE_ACTION ==> (r matches Ok(Request::Action(a))
                && ActionPod::decodes_to(self.payload().take(RECORD_SIZE as int), a)),
            (self.kind() != MessagePod::TYPE_COMMAND && self.kind() != MessagePod::TYPE_ACTION)
                ==> r == Err::<Request, RequestError>(
                RequestError::UnknownMessageType(self.kind()),
            ),
    {
        if self.msg_type == MessagePod::TYPE_COMMAND {
            let cmd = self.as_command();
            if cmd.cmd_type == CommandPod::GET_STATE {
                Ok(Request::GetState)
            } else if cmd.cmd_type == CommandPod::STEP {
                Ok(Request::Step)
            } else if cmd.cmd_type == CommandPod::RESET {
                Ok(Request::Reset)
            } else {
                Err(RequestError::UnknownCommand(cmd.cmd_type))
            }
        } else if self.msg_type == MessagePod::TYPE_ACTION {
            Ok(Request::Action(self.as_action()))
        } else {
            Err(RequestError::UnknownMessageType(self.msg_type))
        }
    }
}

pub proof fn lemma_world_len(s: WorldStatePod)
    ensures
        s.spec_bytes().len() == WORLD_SIZE,
{
    lemma_records_len(s.kept());
    lemma_le_words_len(seq![s.kept().len() as u32, s.tick_rate, s.time, 0u32]);
}

/// A message read back from its own bytes has its type and its payload.
pub proof fn lemma_message_round_trip(m: MessagePod)
    ensures
        words_of(m.spec_bytes().take(HEADER_SIZE as int))[0] == m.kind(),
        m.spec_bytes().skip(HEADER_SIZE as int) == m.payload(),
{
    let hw = seq![m.kind(), 0u32, 0u32, 0u32];
    lemma_le_words_len(hw);
    lemma_words_round_trip(hw);
    assert(m.spec_bytes().take(HEADER_SIZE as int) =~= le_words(hw));
    assert(m.spec_bytes().skip(HEADER_SIZE as int) =~= m.payload());
}

/// A command record wrapped in a message reads back unchanged.
pub proof fn lemma_command_message_round_trip(c: CommandPod)
    ensures
        words_of(padded_payload(c.spec_bytes()).take(COMMAND_SIZE as int))[0] == c.cmd_type,
{
    lemma_command_record_round_trip(c);
    assert(padded_payload(c.spec_bytes()).take(COMMAND_SIZE as int) =~= c.spec_bytes());
}

/// An action wrapped in a message reads back unchanged.
pub proof fn lemma_action_message_round_trip(a: ActionPod, d: ActionPod)
    requires
        ActionPod::decodes_to(padded_payload(a.spec_bytes()).take(RECORD_SIZE as int), d),
    ensures
        d == a,
{
    lemma_le_words_len(a.words());
    assert(padded_payload(a.spec_bytes()).take(RECORD_SIZE as int) =~= a.spec_bytes());
    lemma_action_round_trip(a, d);
}

/// A snapshot of at most `MAX_BODIES` bodies wrapped in a message is read
/// back (the count check passes) and reads back unchanged.
pub proof fn lemma_world_message_round_trip(s: WorldStatePod, d: WorldStatePod)
    requires
        s.bodies@.len() <= MAX_BODIES,
    ensures
        WorldStatePod::trailer(s.spec_bytes())[0] <= MAX_BODIES,
        WorldStatePod::decodes_to(s.spec_bytes(), d) ==> d.bodies@ == s.bodies@ && d.tick_rate
            == s.tick_rate && d.time == s.time,
{
    lemma_world_trailer(s);
    if WorldStatePod::decodes_to(s.spec_bytes(), d) {
        lemma_world_round_trip(s, d);
    }
}

} // verus!
