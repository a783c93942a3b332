use vstd::bytes::*;
use vstd::prelude::*;

verus! {

#[verifier::external_type_specification]
#[verifier::external_body]
pub struct ExEncodeError(bincode::error::EncodeError);

#[verifier::external_type_specification]
#[verifier::external_body]
pub struct ExDecodeError(bincode::error::DecodeError);

/// The bytes of bincode's variable-length encoding of a `u32` (standard
/// configuration): one byte up to 250, otherwise a marker byte followed by
/// the value in two or four little-endian bytes.
pub open spec fn varint_bytes(v: u32) -> Seq<u8> {
    if v <= 250 {
        seq![v as u8]
    } else if v <= 0xffff {
        seq![251u8] + spec_u16_to_le_bytes(v as u16)
    } else {
        seq![252u8] + spec_u32_to_le_bytes(v)
    }
}

/// The `u32` that bincode's variable-length decoding reads from the front of
/// `b`, with the number of bytes it takes; `None` when `b` holds no such value.
pub open spec fn varint_read(b: Seq<u8>) -> Option<(u32, nat)> {
    if b.len() == 0 {
        None
    } else if b[0] <= 250 {
        Some((b[0] as u32, 1))
    } else if b[0] == 251 {
        if b.len() >= 3 {
            Some((spec_u16_from_le_bytes(b.subrange(1, 3)) as u32, 3))
        } else {
            None
        }
    } else if b[0] == 252 {
        if b.len() >= 5 {
            Some((spec_u32_from_le_bytes(b.subrange(1, 5)), 5))
        } else {
            None
        }
    } else {
        None
    }
}

/// Relies on `bincode::encode_to_vec` with the standard configuration: a
/// `u32` is written as a variable-length integer into a vector, which
/// cannot fail.
#[verifier::external_body]
fn encode_varint(v: u32) -> (r: Result<Vec<u8>, bincode::error::EncodeError>)
    ensures
        r is Ok,
        r->Ok_0@ == varint_bytes(v),
{
    bincode::encode_to_vec(v, bincode::config::standard())
}

/// Relies on `bincode::decode_from_slice::<u32, _>` with the standard
/// configuration: it reads one variable-length integer from the front of the
/// slice and reports how many bytes it used.
#[verifier::external_body]
fn decode_varint(b: &[u8]) -> (r: Result<(u32, usize), bincode::error::DecodeError>)
    ensures
        match r {
            Ok((v, n)) => varint_read(b@) == Some((v, n as nat)),
            Err(_) => varint_read(b@) is None,
        },
{
    bincode::decode_from_slice::<u32, _>(b, bincode::config::standard())
}

/// Why a self-describing message could not be encoded or decoded.
#[derive(Debug)]
pub enum SerializationError {
    EncodeError(bincode::error::EncodeError),
    DecodeError(bincode::error::DecodeError),
    /// The message names a variant that the type does not have.
    UnknownVariant(u32),
}

/// A control request to the simulation.
#[derive(Clone, Copy, Debug, PartialEq, Eq, Structural)]
pub enum Command {
    GetState,
    PostAction,
    Step,
    Reset,
}

impl Command {
    /// Position of the variant in declaration order: its tag on the wire.
    pub open spec fn index(self) -> u32 {
        match self {
            Command::GetState => 0,
            Command::PostAction => 1,
            Command::Step => 2,
            Command::Reset => 3,
        }
    }

    pub open spec fn from_index(i: u32) -> Option<Command> {
        if i == 0 {
            Some(Command::GetState)
        } else if i == 1 {
            Some(Command::PostAction)
        } else if i == 2 {
            Some(Command::Step)
        } else if i == 3 {
            Some(Command::Reset)
        } else {
            None
        }
    }

    pub fn variant_index(&self) -> (r: u32)
        ensures
            r == self.index(),
    {
        match self {
            Command::GetState => 0,
            Command::PostAction => 1,
            Command::Step => 2,
            Command::Reset => 3,
        }
    }

    pub fn from_variant_index(i: u32) -> (r: Option<Command>)
        ensures
            r == Command::from_index(i),
    {
        if i == 0 {
            Some(Command::GetState)
        } else if i == 1 {
            Some(Command::PostAction)
        } else if i == 2 {
            Some(Command::Step)
        } else if i == 3 {
            Some(Command::Reset)
        } else {
            None
        }
    }

    /// Self-describing encoding: the variant's tag as a variable-length
    /// integer, here always one byte.
    pub fn to_bytes(&self) -> (r: Result<Vec<u8>, SerializationError>)
        ensures
            r matches Ok(b) && b@ == seq![self.index() as u8],
    {
        match encode_varint(self.variant_index()) {
            Ok(b) => Ok(b),
            Err(e) => Err(SerializationError::EncodeError(e)),
        }
    }

    /// Reads a command from the front of `bytes`; what follows it is ignored.
    pub fn from_bytes(bytes: &[u8]) -> (r: Result<Command, SerializationError>)
        ensures
            match varint_read(bytes@) {
                None => r matches Err(SerializationError::DecodeError(_)),
                Some((i, _)) => match Command::from_index(i) {
                    Some(c) => r matches Ok(d) && d == c,
                    None => r matches Err(SerializationError::UnknownVariant(j)) && j == i,
                },
            },
    {
        match decode_varint(bytes) {
            Ok((i, _)) => match Command::from_variant_index(i) {
                Some(c) => Ok(c),
                None => Err(SerializationError::UnknownVariant(i)),
            },
            Err(e) => Err(SerializationError::DecodeError(e)),
        }
    }
}

/// A command's self-describing encoding decodes to the same command.
pub proof fn lemma_command_round_trip(c: Command)
    ensures
        varint_read(seq![c.index() as u8]) == Some((c.index(), 1nat)),
        Command::from_index(c.index()) == Some(c),
{
}

} // verus!
