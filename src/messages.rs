//! Messages of the wire protocol and their binary framing: a four-byte
//! big-endian type tag followed by the variant's MessagePack payload.

use vstd::prelude::*;
use crate::game::{Epoch, NameId};
use crate::wire::{
    be_bytes, mp_id, mp_names, mp_str, mp_str_id, mp_uint, names_fit, read_id, read_names, read_str,
    read_str_id, read_uint, rmp_id_of, rmp_names_of, rmp_str_id_of, rmp_str_of, rmp_uint_of, str_fits,
    texts, write_id, write_names, write_str, write_str_id, write_uint,
};

verus! {

/// One message between a client and the server.
#[derive(Clone, Debug, PartialEq, Eq)]
pub enum NGMessage {
    StateSubmitting(Epoch),
    SubmitName(String),
    NameSubmitted(String, NameId),
    UnsubmitName(NameId),
    NameUnsubmitted(NameId),
    NumNames(usize),
    RequestPlayingState,
    Names(Vec<String>, Vec<u8>),
    GuessName(usize),
    NameGuessed(usize),
    UnguessName(usize),
    NameUnguessed(usize),
    RequestSubmittingState,
}

/// A message as plain mathematical values.
pub enum MessageView {
    StateSubmitting(u32),
    SubmitName(Seq<char>),
    NameSubmitted(Seq<char>, u128),
    UnsubmitName(u128),
    NameUnsubmitted(u128),
    NumNames(usize),
    RequestPlayingState,
    Names(Seq<Seq<char>>, Seq<u8>),
    GuessName(usize),
    NameGuessed(usize),
    UnguessName(usize),
    NameUnguessed(usize),
    RequestSubmittingState,
}

impl View for NGMessage {
    type V = MessageView;

    open spec fn view(&self) -> MessageView {
        match self {
            NGMessage::StateSubmitting(e) => MessageView::StateSubmitting(e.0),
            NGMessage::SubmitName(s) => MessageView::SubmitName(s@),
            NGMessage::NameSubmitted(s, id) => MessageView::NameSubmitted(s@, id.0),
            NGMessage::UnsubmitName(id) => MessageView::UnsubmitName(id.0),
            NGMessage::NameUnsubmitted(id) => MessageView::NameUnsubmitted(id.0),
            NGMessage::NumNames(n) => MessageView::NumNames(*n),
            NGMessage::RequestPlayingState => MessageView::RequestPlayingState,
            NGMessage::Names(names, guesses) => MessageView::Names(texts(names@), guesses@),
            NGMessage::GuessName(i) => MessageView::GuessName(*i),
            NGMessage::NameGuessed(i) => MessageView::NameGuessed(*i),
            NGMessage::UnguessName(i) => MessageView::UnguessName(*i),
            NGMessage::NameUnguessed(i) => MessageView::NameUnguessed(*i),
            NGMessage::RequestSubmittingState => MessageView::RequestSubmittingState,
        }
    }
}

/// Why a frame could not be read as a message.
#[derive(Clone, Copy, Debug, PartialEq, Eq, Structural)]
pub enum DecodeError {
    /// Fewer than four bytes: no room for the type tag.
    Truncated,
    /// The type tag names no message.
    UnknownTag(u32),
    /// The payload does not hold what the tag calls for.
    MalformedPayload(u32),
    /// A message without fields came with a payload.
    UnexpectedPayload(u32),
}

/// The type tag of each message.
pub open spec fn tag_of(m: MessageView) -> u32 {
    match m {
        MessageView::StateSubmitting(_) => 0,
        MessageView::SubmitName(_) => 1,
        MessageView::NameSubmitted(_, _) => 2,
        MessageView::UnsubmitName(_) => 3,
        MessageView::NameUnsubmitted(_) => 4,
        MessageView::NumNames(_) => 5,
        MessageView::RequestPlayingState => 6,
        MessageView::Names(_, _) => 7,
        MessageView::GuessName(_) => 8,
        MessageView::NameGuessed(_) => 9,
        MessageView::UnguessName(_) => 10,
        MessageView::NameUnguessed(_) => 11,
        MessageView::RequestSubmittingState => 12,
    }
}

/// The payload that follows the tag.
pub open spec fn payload_of(m: MessageView) -> Seq<u8> {
    match m {
        MessageView::StateSubmitting(e) => mp_uint(e as nat),
        MessageView::SubmitName(s) => mp_str(s),
        MessageView::NameSubmitted(s, id) => mp_str_id(s, id),
        MessageView::UnsubmitName(id) => mp_id(id),
        MessageView::NameUnsubmitted(id) => mp_id(id),
        MessageView::NumNames(n) => mp_uint(n as nat),
        MessageView::RequestPlayingState => seq![],
        MessageView::Names(names, guesses) => mp_names(names, guesses),
        MessageView::GuessName(i) => mp_uint(i as nat),
        MessageView::NameGuessed(i) => mp_uint(i as nat),
        MessageView::UnguessName(i) => mp_uint(i as nat),
        MessageView::NameUnguessed(i) => mp_uint(i as nat),
        MessageView::RequestSubmittingState => seq![],
    }
}

/// The whole frame of a message.
pub open spec fn encoding_of(m: MessageView) -> Seq<u8> {
    be_bytes(tag_of(m) as nat, 4) + payload_of(m)
}

/// Every length in the message fits the 32-bit lengths of MessagePack.
pub open spec fn wire_fits(m: MessageView) -> bool {
    match m {
        MessageView::SubmitName(s) => str_fits(s),
        MessageView::NameSubmitted(s, _) => str_fits(s),
        MessageView::Names(names, guesses) => names_fit(names, guesses),
        _ => true,
    }
}

/// The tag that the first four bytes of a frame spell, most significant first.
pub open spec fn tag_value(b: Seq<u8>) -> int
    recommends
        b.len() >= 4,
{
    b[0] * 0x100_0000 + b[1] * 0x1_0000 + b[2] * 0x100 + b[3]
}

/// A number read from a payload, as a `usize`.
pub open spec fn uint_as_usize(v: Option<u64>) -> Option<usize> {
    match v {
        Some(n) => if n <= usize::MAX {
            Some(n as usize)
        } else {
            None
        },
        None => None,
    }
}

/// What a payload means after a given tag.
pub open spec fn payload_meaning(tag: u32, p: Seq<u8>) -> Result<MessageView, DecodeError> {
    let bad = Err(DecodeError::MalformedPayload(tag));
    let index = uint_as_usize(rmp_uint_of(p));
    if tag == 0 {
        match rmp_uint_of(p) {
            Some(v) => if v <= u32::MAX {
                Ok(MessageView::StateSubmitting(v as u32))
            } else {
                bad
            },
            None => bad,
        }
    } else if tag == 1 {
        match rmp_str_of(p) {
            Some(s) => Ok(MessageView::SubmitName(s)),
            None => bad,
        }
    } else if tag == 2 {
        match rmp_str_id_of(p) {
            Some(x) => Ok(MessageView::NameSubmitted(x.0, x.1)),
            None => bad,
        }
    } else if tag == 3 || tag == 4 {
        match rmp_id_of(p) {
            Some(id) => Ok(
                if tag == 3 {
                    MessageView::UnsubmitName(id)
                } else {
                    MessageView::NameUnsubmitted(id)
                },
            ),
            None => bad,
        }
    } else if tag == 6 || tag == 12 {
        if p.len() == 0 {
            Ok(
                if tag == 6 {
                    MessageView::RequestPlayingState
                } else {
                    MessageView::RequestSubmittingState
                },
            )
        } else {
            Err(DecodeError::UnexpectedPayload(tag))
        }
    } else if tag == 7 {
        match rmp_names_of(p) {
            Some(x) => Ok(MessageView::Names(x.0, x.1)),
            None => bad,
        }
    } else if tag == 5 || 8 <= tag <= 11 {
        match index {
            Some(i) => Ok(
                if tag == 5 {
                    MessageView::NumNames(i)
                } else if tag == 8 {
                    MessageView::GuessName(i)
                } else if tag == 9 {
                    MessageView::NameGuessed(i)
                } else if tag == 10 {
                    MessageView::UnguessName(i)
                } else {
                    MessageView::NameUnguessed(i)
                },
            ),
            None => bad,
        }
    } else {
        Err(DecodeError::UnknownTag(tag))
    }
}

/// What a whole frame means.
pub open spec fn frame_meaning(b: Seq<u8>) -> Result<MessageView, DecodeError> {
    if b.len() < 4 {
        Err(DecodeError::Truncated)
    } else {
        payload_meaning(tag_value(b) as u32, b.subrange(4, b.len() as int))
    }
}

proof fn lemma_small_tag_bytes(t: u32)
    requires
        t <= 12,
    ensures
        be_bytes(t as nat, 4) == seq![0u8, 0u8, 0u8, t as u8],
{
    reveal_with_fuel(be_bytes, 5);
    assert(be_bytes(t as nat, 4) =~= seq![0u8, 0u8, 0u8, t as u8]);
}

/// The frame of a message starts with its tag and goes on with its payload.
proof fn lemma_frame_parts(m: MessageView)
    ensures
        encoding_of(m).len() >= 4,
        tag_value(encoding_of(m)) == tag_of(m),
        encoding_of(m).subrange(4, encoding_of(m).len() as int) == payload_of(m),
{
    lemma_small_tag_bytes(tag_of(m));
    let e = encoding_of(m);
    assert(e.subrange(4, e.len() as int) =~= payload_of(m));
}

/// A frame whose tag names no message is rejected, whatever follows the tag.
pub proof fn lemma_unknown_tag_rejected(b: Seq<u8>)
    requires
        b.len() >= 4,
        tag_value(b) > 12,
    ensures
        frame_meaning(b) == Err::<MessageView, DecodeError>(
            DecodeError::UnknownTag(tag_value(b) as u32),
        ),
{
    assert(0 <= tag_value(b) <= u32::MAX);
}

/// A message without fields reads back from its bare tag, and the same tag
/// followed by any payload at all is rejected.
pub proof fn lemma_unit_payload(m: MessageView, p: Seq<u8>)
    requires
        m is RequestPlayingState || m is RequestSubmittingState,
    ensures
        frame_meaning(encoding_of(m)) == Ok::<MessageView, DecodeError>(m),
        p.len() > 0 ==> frame_meaning(encoding_of(m) + p) == Err::<MessageView, DecodeError>(
            DecodeError::UnexpectedPayload(tag_of(m)),
        ),
{
    lemma_frame_parts(m);
    let e = encoding_of(m);
    let f = e + p;
    assert(f.subrange(0, 4) =~= e.subrange(0, 4));
    assert(e.subrange(4, e.len() as int) =~= seq![]);
    assert(f.subrange(4, f.len() as int) =~= p);
}

impl NGMessage {
    /// The type tag of this message.
    pub fn tag(&self) -> (t: u8)
        ensures
            t as u32 == tag_of(self@),
    {
        match self {
            NGMessage::StateSubmitting(_) => 0,
            NGMessage::SubmitName(_) => 1,
            NGMessage::NameSubmitted(_, _) => 2,
            NGMessage::UnsubmitName(_) => 3,
            NGMessage::NameUnsubmitted(_) => 4,
            NGMessage::NumNames(_) => 5,
            NGMessage::RequestPlayingState => 6,
            NGMessage::Names(_, _) => 7,
            NGMessage::GuessName(_) => 8,
            NGMessage::NameGuessed(_) => 9,
            NGMessage::UnguessName(_) => 10,
            NGMessage::NameUnguessed(_) => 11,
            NGMessage::RequestSubmittingState => 12,
        }
    }

    /// Whether every length in the message fits MessagePack's 32-bit lengths,
    /// which `encode` needs.
    pub fn fits_wire(&self) -> (r: bool)
        ensures
            r == wire_fits(self@),
    {
        let max = u32::MAX as usize;
        match self {
            NGMessage::SubmitName(name) => name.as_str().as_bytes().len() <= max,
            NGMessage::NameSubmitted(name, _) => name.as_str().as_bytes().len() <= max,
            NGMessage::Names(names, guesses) => {
                if names.len() > max || guesses.len() > max {
                    return false;
                }
                let mut k: usize = 0;
                while k < names.len()
                    invariant
                        k <= names@.len(),
                        max == u32::MAX,
                        self@ == MessageView::Names(texts(names@), guesses@),
                        forall|t: int| 0 <= t < k ==> str_fits(#[trigger] texts(names@)[t]),
                    decreases names@.len() - k,
                {
                    if names[k].as_str().as_bytes().len() > max {
                        assert(!str_fits(texts(names@)[k as int]));
                        return false;
                    }
                    k = k + 1;
                }
                true
            },
            _ => true,
        }
    }

    /// The frame that carries this message.
    pub fn encode(&self) -> (r: Vec<u8>)
        requires
            wire_fits(self@),
        ensures
            r@ == encoding_of(self@),
    {
        let tag = self.tag();
        let mut out: Vec<u8> = Vec::new();
        out.push(0);
        out.push(0);
        out.push(0);
        out.push(tag);
        proof {
            lemma_small_tag_bytes(tag as u32);
            assert(out@ =~= be_bytes(tag_of(self@) as nat, 4));
        }
        match self {
            NGMessage::StateSubmitting(epoch) => write_uint(&mut out, epoch.0 as u64),
            NGMessage::SubmitName(name) => write_str(&mut out, name.as_str()),
            NGMessage::NameSubmitted(name, id) => write_str_id(&mut out, name.as_str(), *id),
            NGMessage::UnsubmitName(id) => write_id(&mut out, *id),
            NGMessage::NameUnsubmitted(id) => write_id(&mut out, *id),
            NGMessage::NumNames(n) => write_uint(&mut out, *n as u64),
            NGMessage::RequestPlayingState => {},
            NGMessage::Names(names, guesses) => write_names(&mut out, names, guesses),
            NGMessage::GuessName(i) => write_uint(&mut out, *i as u64),
            NGMessage::NameGuessed(i) => write_uint(&mut out, *i as u64),
            NGMessage::UnguessName(i) => write_uint(&mut out, *i as u64),
            NGMessage::NameUnguessed(i) => write_uint(&mut out, *i as u64),
            NGMessage::RequestSubmittingState => {},
        }
        proof {
            assert(out@ =~= encoding_of(self@));
        }
        out
    }

    /// Reads one frame. Fails when the frame is shorter than the tag, the tag
    /// is unknown, the payload does not decode, or a message without fields
    /// has a payload. Every encoded message reads back as itself.
    pub fn parse(bytes: &[u8]) -> (r: Result<NGMessage, DecodeError>)
        ensures
            match r {
                Ok(m) => frame_meaning(bytes@) == Ok::<MessageView, DecodeError>(m@),
                Err(e) => frame_meaning(bytes@) == Err::<MessageView, DecodeError>(e),
            },
            forall|m: MessageView| #[trigger] encoding_of(m) == bytes@ && wire_fits(m) ==> (r
                matches Ok(x) && x@ == m),
    {
        if bytes.len() < 4 {
            proof {
                assert forall|m: MessageView| #[trigger] encoding_of(m) == bytes@ implies false by {
                    lemma_frame_parts(m);
                }
            }
            return Err(DecodeError::Truncated);
        }
        let (head, payload) = bytes.split_at(4);
        let tag: u32 = (head[0] as u32) * 0x100_0000 + (head[1] as u32) * 0x1_0000 + (head[2]
            as u32) * 0x100 + head[3] as u32;
        proof {
            assert(head@ =~= bytes@.subrange(0, 4));
            assert(payload@ =~= bytes@.subrange(4, bytes@.len() as int));
            assert forall|m: MessageView| #[trigger] encoding_of(m) == bytes@ implies tag_of(m)
                == tag && payload_of(m) == payload@ by {
                lemma_frame_parts(m);
            }
        }
        Self::decode_payload(tag, payload)
    }

    fn decode_payload(tag: u32, payload: &[u8]) -> (r: Result<NGMessage, DecodeError>)
        ensures
            match r {
                Ok(m) => payload_meaning(tag, payload@) == Ok::<MessageView, DecodeError>(m@),
                Err(e) => payload_meaning(tag, payload@) == Err::<MessageView, DecodeError>(e),
            },
            forall|m: MessageView| #[trigger]
                payload_of(m) == payload@ && tag_of(m) == tag && wire_fits(m) ==> (r matches Ok(
                    x,
                ) && x@ == m),
    {
        let bad = Err(DecodeError::MalformedPayload(tag));
        if tag == 0 {
            match read_uint(payload) {
                Some(v) => if v <= u32::MAX as u64 {
                    Ok(NGMessage::StateSubmitting(Epoch(v as u32)))
                } else {
                    bad
                },
                None => bad,
            }
        } else if tag == 1 {
            match read_str(payload) {
                Some(s) => Ok(NGMessage::SubmitName(s)),
                None => bad,
            }
        } else if tag == 2 {
            match read_str_id(payload) {
                Some(x) => Ok(NGMessage::NameSubmitted(x.0, x.1)),
                None => bad,
            }
        } else if tag == 3 || tag == 4 {
            match read_id(payload) {
                Some(id) => Ok(
                    if tag == 3 {
                        NGMessage::UnsubmitName(id)
                    } else {
                        NGMessage::NameUnsubmitted(id)
                    },
                ),
                None => bad,
            }
        } else if tag == 6 || tag == 12 {
            if payload.len() == 0 {
                Ok(
                    if tag == 6 {
                        NGMessage::RequestPlayingState
                    } else {
                        NGMessage::RequestSubmittingState
                    },
                )
            } else {
                Err(DecodeError::UnexpectedPayload(tag))
            }
        } else if tag == 7 {
            match read_names(payload) {
                Some(x) => Ok(NGMessage::Names(x.0, x.1)),
                None => bad,
            }
        } else if tag == 5 || (8 <= tag && tag <= 11) {
            match read_uint(payload) {
                Some(v) => if v <= usize::MAX as u64 {
                    let i = v as usize;
                    Ok(
                        if tag == 5 {
                            NGMessage::NumNames(i)
                        } else if tag == 8 {
                            NGMessage::GuessName(i)
                        } else if tag == 9 {
                            NGMessage::NameGuessed(i)
                        } else if tag == 10 {
                            NGMessage::UnguessName(i)
                        } else {
                            NGMessage::NameUnguessed(i)
                        },
                    )
                } else {
                    bad
                },
                None => bad,
            }
        } else {
            Err(DecodeError::UnknownTag(tag))
        }
    }
}

} // verus!
