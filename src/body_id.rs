use vstd::prelude::*;
use vstd::string::StringSliceAdditionalSpecFns;
use vstd::utf8::{encode_utf8_valid_utf8, valid_utf8};

verus! {

/// Width in bytes of an identifier on the fixed-layout wire format.
pub const BODY_ID_LEN: usize = 32;

/// The bytes an identifier occupies on the wire: its UTF-8 bytes cut to
/// `BODY_ID_LEN` and padded with zeros.
pub open spec fn padded_id(b: Seq<u8>) -> Seq<u8> {
    Seq::new(BODY_ID_LEN as nat, |i: int| if i < b.len() { b[i] } else { 0u8 })
}

/// Index of the first zero byte of `b`, or `b.len()` when there is none.
pub open spec fn first_zero(b: Seq<u8>) -> nat
    decreases b.len(),
{
    if b.len() == 0 {
        0
    } else if b[0] == 0 {
        0
    } else {
        1 + first_zero(b.drop_first())
    }
}

/// A fixed-width identifier: the name of a body as it travels in
/// fixed-layout records.
#[derive(Clone, Copy, Debug, PartialEq, Eq)]
pub struct BodyId {
    pub data: [u8; 32],
}

impl BodyId {
    /// The bytes before the first zero byte: the encoded name.
    pub open spec fn text_bytes(self) -> Seq<u8> {
        self.data@.take(first_zero(self.data@) as int)
    }

    /// The name this identifier reads back as: empty when its bytes are
    /// not valid UTF-8 (a name cut in the middle of a character).
    pub open spec fn text(self) -> Seq<u8> {
        if valid_utf8(self.text_bytes()) {
            self.text_bytes()
        } else {
            Seq::empty()
        }
    }

    pub fn new(s: &str) -> (r: BodyId)
        ensures
            r.data@ == padded_id(s.spec_bytes()),
    {
        let bytes = s.as_bytes();
        let len: usize = if bytes.len() < BODY_ID_LEN {
            bytes.len()
        } else {
            BODY_ID_LEN
        };
        let mut data: [u8; 32] = [0u8; 32];
        let mut i: usize = 0;
        while i < BODY_ID_LEN
            invariant
                len <= BODY_ID_LEN,
                len == bytes@.len() || len == BODY_ID_LEN,
                len <= bytes@.len(),
                bytes@ == s.spec_bytes(),
                i <= BODY_ID_LEN,
                data@.len() == BODY_ID_LEN,
                forall|k: int| 0 <= k < i ==> data@[k] == padded_id(s.spec_bytes())[k],
                forall|k: int| i <= k < BODY_ID_LEN ==> data@[k] == 0u8,
            decreases BODY_ID_LEN - i,
        {
            if i < len {
                data[i] = bytes[i];
            }
            i = i + 1;
        }
        assert(data@ =~= padded_id(s.spec_bytes()));
        BodyId { data }
    }

    /// Number of bytes before the first zero byte.
    pub fn text_len(&self) -> (r: usize)
        ensures
            r == first_zero(self.data@),
            r <= BODY_ID_LEN,
    {
        let mut i: usize = 0;
        assert(self.data@.skip(0) =~= self.data@);
        while i < BODY_ID_LEN
            invariant
                i <= BODY_ID_LEN,
                self.data@.len() == BODY_ID_LEN,
                first_zero(self.data@) == i + first_zero(self.data@.skip(i as int)),
            decreases BODY_ID_LEN - i,
        {
            if self.data[i] == 0 {
                assert(first_zero(self.data@.skip(i as int)) == 0);
                return i;
            }
            assert(self.data@.skip(i as int).drop_first() =~= self.data@.skip(i + 1));
            i = i + 1;
        }
        assert(self.data@.skip(BODY_ID_LEN as int).len() == 0);
        i
    }

    pub fn as_str(&self) -> (r: &str)
        ensures
            r.spec_bytes() == self.text(),
    {
        let len = self.text_len();
        let all = vstd::array::array_as_slice(&self.data);
        let head = vstd::slice::slice_subrange(all, 0, len);
        assert(head@ =~= self.text_bytes());
        match utf8_str(head) {
            Some(s) => s,
            None => {
                let empty = "";
                proof {
                    reveal_strlit("");
                }
                assert(empty.spec_bytes() =~= Seq::<u8>::empty());
                empty
            },
        }
    }
}

/// Relies on `std::str::from_utf8`: it succeeds exactly on valid UTF-8, and
/// the string it returns is made of the given bytes.
#[verifier::external_body]
fn utf8_str(b: &[u8]) -> (r: Option<&str>)
    ensures
        r.is_some() == valid_utf8(b@),
        r.is_some() ==> r.unwrap().spec_bytes() == b@,
{
    std::str::from_utf8(b).ok()
}

proof fn lemma_first_zero(b: Seq<u8>, k: nat)
    requires
        k <= b.len(),
        forall|i: int| 0 <= i < k ==> b[i] != 0,
        k == b.len() || b[k as int] == 0,
    ensures
        first_zero(b) == k,
    decreases k,
{
    if k > 0 {
        lemma_first_zero(b.drop_first(), (k - 1) as nat);
    }
}

/// A name of at most `BODY_ID_LEN` bytes, none of them zero, reads back
/// unchanged from its fixed-width form.
pub proof fn lemma_id_round_trip(name: &str, id: BodyId)
    requires
        name.spec_bytes().len() <= BODY_ID_LEN,
        forall|i: int| 0 <= i < name.spec_bytes().len() ==> name.spec_bytes()[i] != 0,
        id.data@ == padded_id(name.spec_bytes()),
    ensures
        id.text() == name.spec_bytes(),
{
    let b = name.spec_bytes();
    lemma_first_zero(id.data@, b.len());
    assert(id.text_bytes() =~= b);
    encode_utf8_valid_utf8(name@);
}

} // verus!
