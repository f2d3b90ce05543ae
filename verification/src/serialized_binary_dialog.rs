//! The variable-size binary framing: every message travels as a little-endian size prefix
//! of a fixed number of bytes followed by the serialized payload.

use vstd::prelude::*;
use std::marker::PhantomData;
use vstd::std_specs::cmp::PartialEqSpecImpl;
use crate::serde::{ReactiveMessagingDeserializer, ReactiveMessagingSerializer};
use vstd::slice::{slice_subrange, slice_to_vec};
use vstd::arithmetic::div_mod::lemma_small_mod;
use crate::size_prefix::{
    decode_usize_min, encode_usize_min, le_bytes, le_value, pow256, lemma_le_bytes_len,
    lemma_le_value_of_le_bytes,
};

verus! {

/// One frame on the wire: the `size_len` lowest bytes of the payload's length, then the payload.
pub open spec fn frame(size_len: nat, payload: Seq<u8>) -> Seq<u8> {
    le_bytes(payload.len(), size_len) + payload
}

/// The frames of all `payloads`, one after the other.
pub open spec fn frames(size_len: nat, payloads: Seq<Seq<u8>>) -> Seq<u8>
    decreases payloads.len(),
{
    if payloads.len() == 0 {
        Seq::<u8>::empty()
    } else {
        frame(size_len, payloads[0]) + frames(size_len, payloads.drop_first())
    }
}

/// Splits received `bytes` into the payloads of the complete frames at their start, the bytes
/// that follow them, and whether reading stopped at a size prefix announcing an empty payload
/// (which no correct peer sends).
pub open spec fn parse_frames(size_len: nat, bytes: Seq<u8>) -> (Seq<Seq<u8>>, Seq<u8>, bool)
    decreases bytes.len(),
{
    if size_len == 0 || bytes.len() < size_len {
        (Seq::<Seq<u8>>::empty(), bytes, false)
    } else {
        let payload_len = le_value(bytes.take(size_len as int));
        if payload_len == 0 {
            (Seq::<Seq<u8>>::empty(), bytes, true)
        } else if bytes.len() < size_len + payload_len {
            (Seq::<Seq<u8>>::empty(), bytes, false)
        } else {
            let next = parse_frames(size_len, bytes.skip((size_len + payload_len) as int));
            (
                seq![bytes.subrange(size_len as int, (size_len + payload_len) as int)] + next.0,
                next.1,
                next.2,
            )
        }
    }
}

/// The payloads of a list of buffers.
pub open spec fn payloads_view(buffers: Seq<Vec<u8>>) -> Seq<Seq<u8>> {
    buffers.map_values(|b: Vec<u8>| b@)
}

/// Builds the frame that carries `payload`, with a size prefix of `size_len` bytes
/// (a length that does not fit in `size_len` bytes is cut to its lowest bytes).
pub fn frame_serialized_payload(payload: &[u8], size_len: usize) -> (framed: Vec<u8>)
    requires
        size_len * 8 <= usize::BITS,
    ensures
        framed@ == frame(size_len as nat, payload@),
{
    let mut framed = encode_usize_min(payload.len(), size_len);
    let mut body = slice_to_vec(payload);
    framed.append(&mut body);
    framed
}

/// What a call of [SerializedPayloadReader::feed()] produced.
pub struct FeedOutcome {
    /// The payloads of the frames that were completed, in arrival order.
    pub payloads: Vec<Vec<u8>>,
    /// `true` if the peer announced an empty payload: the connection should be dropped.
    pub protocol_violation: bool,
}

/// The two phases of reading a frame.
#[derive(PartialEq, Eq, Debug)]
pub enum ReadPhase {
    /// The size prefix is still being read; `missing` more bytes complete it.
    WaitingForPayloadSize { missing: usize },
    /// The payload of `payload_len` bytes is being read; `missing` more bytes complete it.
    ReadingPayload { payload_len: usize, missing: usize },
}

/// Incremental reader of variable-size binary frames: bytes arrive in chunks of any size
/// and complete payloads come out.
pub struct SerializedPayloadReader {
    size_len: usize,
    pending: Vec<u8>,
}

impl SerializedPayloadReader {
    /// The received bytes that do not form a complete frame yet.
    pub closed spec fn pending(&self) -> Seq<u8> {
        self.pending@
    }

    /// The length of the size prefixes.
    pub closed spec fn size_len(&self) -> nat {
        self.size_len as nat
    }

    /// The reader holds no complete frame nor an announced empty payload.
    pub open spec fn well_formed(&self) -> bool {
        &&& 0 < self.size_len()
        &&& self.size_len() * 8 <= usize::BITS
        &&& parse_frames(self.size_len(), self.pending()) == (
            Seq::<Seq<u8>>::empty(),
            self.pending(),
            false,
        )
    }

    /// A reader whose size prefixes are `size_len` bytes long, with nothing received yet.
    pub fn new(size_len: usize) -> (reader: Self)
        requires
            0 < size_len,
            size_len * 8 <= usize::BITS,
        ensures
            reader.well_formed(),
            reader.size_len() == size_len,
            reader.pending() == Seq::<u8>::empty(),
    {
        SerializedPayloadReader { size_len, pending: Vec::new() }
    }

    /// Tells which phase the reading of the next frame is in and how many bytes complete it.
    pub fn read_phase(&self) -> (phase: ReadPhase)
        requires
            self.well_formed(),
        ensures
            self.pending().len() < self.size_len() ==> phase == (ReadPhase::WaitingForPayloadSize {
                missing: (self.size_len() - self.pending().len()) as usize,
            }),
            self.pending().len() >= self.size_len() ==> ({
                let payload_len = le_value(self.pending().take(self.size_len() as int));
                phase == (ReadPhase::ReadingPayload {
                    payload_len: payload_len as usize,
                    missing: (self.size_len() + payload_len - self.pending().len()) as usize,
                })
            }),
    {
        let received = self.pending.len();
        if received < self.size_len {
            ReadPhase::WaitingForPayloadSize { missing: self.size_len - received }
        } else {
            let prefix = slice_subrange(self.pending.as_slice(), 0, self.size_len);
            assert(prefix@ =~= self.pending().take(self.size_len() as int));
            let payload_len = decode_usize_min(prefix);
            assert(self.pending().len() < self.size_len() + payload_len);
            ReadPhase::ReadingPayload { payload_len, missing: payload_len - (received - self.size_len) }
        }
    }

    /// Takes in the next received `bytes` and gives out the payloads of the frames they complete.
    pub fn feed(&mut self, bytes: &[u8]) -> (outcome: FeedOutcome)
        requires
            old(self).well_formed(),
        ensures
            ({
                let parsed = parse_frames(old(self).size_len(), old(self).pending() + bytes@);
                &&& payloads_view(outcome.payloads@) == parsed.0
                &&& outcome.protocol_violation == parsed.2
                &&& final(self).pending() == parsed.1
            }),
            final(self).size_len() == old(self).size_len(),
            !outcome.protocol_violation ==> final(self).well_formed(),
    {
        let n = self.size_len;
        let ghost nn = n as nat;
        let mut received = Vec::new();
        std::mem::swap(&mut received, &mut self.pending);
        let mut incoming = slice_to_vec(bytes);
        received.append(&mut incoming);
        let ghost all = received@;
        assert(all == old(self).pending() + bytes@);
        let total = received.len();
        let mut payloads: Vec<Vec<u8>> = Vec::new();
        let mut pos: usize = 0;
        let mut violation = false;
        assert(all.skip(0) =~= all);
        assert(payloads_view(payloads@) + parse_frames(nn, all).0 =~= parse_frames(nn, all).0);
        loop
            invariant_except_break
                pos <= total == all.len(),
                received@ == all,
                self.size_len == n,
                nn == n,
                0 < n,
                n * 8 <= usize::BITS,
                !violation,
                parse_frames(nn, all) == (
                    payloads_view(payloads@) + parse_frames(nn, all.skip(pos as int)).0,
                    parse_frames(nn, all.skip(pos as int)).1,
                    parse_frames(nn, all.skip(pos as int)).2,
                ),
            ensures
                pos <= total == all.len(),
                received@ == all,
                self.size_len == n,
                nn == n,
                0 < n,
                n * 8 <= usize::BITS,
                parse_frames(nn, all.skip(pos as int)) == (
                    Seq::<Seq<u8>>::empty(),
                    all.skip(pos as int),
                    violation,
                ),
                parse_frames(nn, all) == (
                    payloads_view(payloads@),
                    all.skip(pos as int),
                    violation,
                ),
            decreases total - pos,
        {
            let ghost rest = all.skip(pos as int);
            if total - pos < n {
                assert(parse_frames(nn, rest) == (Seq::<Seq<u8>>::empty(), rest, false));
                assert(payloads_view(payloads@) + Seq::<Seq<u8>>::empty() =~= payloads_view(payloads@));
                break;
            }
            let prefix = slice_subrange(received.as_slice(), pos, pos + n);
            assert(prefix@ =~= rest.take(nn as int));
            let payload_len = decode_usize_min(prefix);
            if payload_len == 0 {
                violation = true;
                assert(payloads_view(payloads@) + Seq::<Seq<u8>>::empty() =~= payloads_view(payloads@));
                break;
            }
            if total - pos - n < payload_len {
                assert(payloads_view(payloads@) + Seq::<Seq<u8>>::empty() =~= payloads_view(payloads@));
                break;
            }
            let start = pos + n;
            let end = start + payload_len;
            let payload = slice_to_vec(slice_subrange(received.as_slice(), start, end));
            proof {
                let next = parse_frames(nn, rest.skip((nn + payload_len) as int));
                assert(rest.skip((nn + payload_len) as int) =~= all.skip(end as int));
                assert(payload@ =~= rest.subrange(nn as int, (nn + payload_len) as int));
                assert(payloads_view(payloads@.push(payload)) =~= payloads_view(payloads@).push(payload@));
                assert(payloads_view(payloads@) + (seq![payload@] + next.0)
                    =~= payloads_view(payloads@).push(payload@) + next.0);
            }
            payloads.push(payload);
            pos = end;
        }
        let leftover = slice_to_vec(slice_subrange(received.as_slice(), pos, total));
        assert(leftover@ =~= all.skip(pos as int));
        self.pending = leftover;
        proof {
            if !violation {
                self.lemma_leftover_well_formed(all.skip(pos as int));
            }
        }
        FeedOutcome { payloads, protocol_violation: violation }
    }

    proof fn lemma_leftover_well_formed(&self, rest: Seq<u8>)
        requires
            0 < self.size_len(),
            self.size_len() * 8 <= usize::BITS,
            self.pending() == rest,
            parse_frames(self.size_len(), rest).1 == rest,
            !parse_frames(self.size_len(), rest).2,
        ensures
            self.well_formed(),
    {
        let nn = self.size_len();
        if rest.len() >= nn {
            let payload_len = le_value(rest.take(nn as int));
            if payload_len != 0 && rest.len() >= nn + payload_len {
                lemma_parse_frames_rest_len(nn, rest.skip((nn + payload_len) as int));
            }
        }
    }
}

/// What is left after reading frames is never longer than what was read.
pub proof fn lemma_parse_frames_rest_len(size_len: nat, bytes: Seq<u8>)
    ensures
        parse_frames(size_len, bytes).1.len() <= bytes.len(),
    decreases bytes.len(),
{
    if size_len > 0 && bytes.len() >= size_len {
        let payload_len = le_value(bytes.take(size_len as int));
        if payload_len != 0 && bytes.len() >= size_len + payload_len {
            lemma_parse_frames_rest_len(size_len, bytes.skip((size_len + payload_len) as int));
        }
    }
}

/// Reading back the frames of non-empty payloads whose lengths fit in the size prefixes
/// gives back exactly those payloads, with nothing left over.
pub proof fn lemma_frames_round_trip(size_len: nat, payloads: Seq<Seq<u8>>)
    requires
        0 < size_len,
        forall|i: int| 0 <= i < payloads.len() ==> 0 < (#[trigger] payloads[i]).len() < pow256(size_len),
    ensures
        parse_frames(size_len, frames(size_len, payloads)) == (
            payloads,
            Seq::<u8>::empty(),
            false,
        ),
    decreases payloads.len(),
{
    if payloads.len() > 0 {
        let p = payloads[0];
        let tail = payloads.drop_first();
        assert forall|i: int| 0 <= i < tail.len() implies 0 < (#[trigger] tail[i]).len() < pow256(size_len) by {
            assert(tail[i] == payloads[i + 1]);
        }
        lemma_frames_round_trip(size_len, tail);
        let bytes = frames(size_len, payloads);
        let prefix = le_bytes(p.len(), size_len);
        lemma_le_bytes_len(p.len(), size_len);
        lemma_le_value_of_le_bytes(p.len(), size_len);
        lemma_small_mod(p.len(), pow256(size_len));
        assert(bytes.take(size_len as int) =~= prefix);
        assert(bytes.subrange(size_len as int, (size_len + p.len()) as int) =~= p);
        assert(bytes.skip((size_len + p.len()) as int) =~= frames(size_len, tail));
        assert(seq![p] + tail =~= payloads);
    }
}

/// Frames are read the same whether their bytes arrive at once or in two chunks: the payloads
/// completed by `first`, followed by those completed by what was left of it and `second`, are
/// those completed by `first + second`.
pub proof fn lemma_parse_frames_chunked(size_len: nat, first: Seq<u8>, second: Seq<u8>)
    requires
        !parse_frames(size_len, first).2,
    ensures
        ({
            let a = parse_frames(size_len, first);
            let b = parse_frames(size_len, a.1 + second);
            parse_frames(size_len, first + second) == (a.0 + b.0, b.1, b.2)
        }),
    decreases first.len(),
{
    let a = parse_frames(size_len, first);
    if size_len == 0 || first.len() < size_len {
        assert(a.0 + parse_frames(size_len, a.1 + second).0 =~= parse_frames(size_len, a.1 + second).0);
    } else {
        let payload_len = le_value(first.take(size_len as int));
        if first.len() < size_len + payload_len {
            assert(a.0 + parse_frames(size_len, a.1 + second).0 =~= parse_frames(size_len, a.1 + second).0);
        } else {
            let all = first + second;
            let k = size_len + payload_len;
            assert(all.take(size_len as int) =~= first.take(size_len as int));
            assert(all.subrange(size_len as int, k as int) =~= first.subrange(size_len as int, k as int));
            assert(all.skip(k as int) =~= first.skip(k as int) + second);
            lemma_parse_frames_chunked(size_len, first.skip(k as int), second);
            let inner = parse_frames(size_len, first.skip(k as int));
            let b = parse_frames(size_len, inner.1 + second);
            assert(seq![first.subrange(size_len as int, k as int)] + (inner.0 + b.0)
                =~= (seq![first.subrange(size_len as int, k as int)] + inner.0) + b.0);
        }
    }
}

} // verus!

verus! {

/// A received (or to-be-sent) message in its serialized binary form, to be read in place.
#[derive(Default)]
pub struct SerializedWrapperType<MessagesType, Deserializer: ReactiveMessagingDeserializer<MessagesType>> {
    raw: Vec<u8>,
    _phantom: PhantomData<(MessagesType, Deserializer)>,
}

impl<MessagesType, Deserializer: ReactiveMessagingDeserializer<MessagesType>> View for SerializedWrapperType<
    MessagesType,
    Deserializer,
> {
    type V = Seq<u8>;

    closed spec fn view(&self) -> Seq<u8> {
        self.raw@
    }
}

impl<MessagesType, Deserializer: ReactiveMessagingDeserializer<MessagesType>> SerializedWrapperType<
    MessagesType,
    Deserializer,
> {
    /// Wraps `raw` as received, without checking it: for sources that are trusted.
    pub fn from_raw_unchecked(raw: Vec<u8>) -> (wrapped: Self)
        ensures
            wrapped@ == raw@,
    {
        SerializedWrapperType { raw, _phantom: PhantomData }
    }

    /// Wraps `raw` if `validation`, the outcome of checking it, is `Ok`; gives the error back otherwise.
    pub fn from_validated_raw(raw: Vec<u8>, validation: Result<(), String>) -> (wrapped: Result<
        Self,
        String,
    >)
        ensures
            match validation {
                Ok(()) => wrapped matches Ok(w) && w@ == raw@,
                Err(e) => wrapped == Err::<Self, String>(e),
            },
    {
        match validation {
            Ok(()) => Ok(Self::from_raw_unchecked(raw)),
            Err(e) => Err(e),
        }
    }

    /// Wraps `raw` after the deserializer checked it: for sources that might send junk.
    pub fn try_from_raw(raw: Vec<u8>) -> (wrapped: Result<Self, String>)
        ensures
            wrapped matches Ok(w) ==> w@ == raw@,
            Deserializer::obeys_validation() ==> match Deserializer::validation(raw@) {
                Ok(()) => wrapped is Ok,
                Err(e) => wrapped == Err::<Self, String>(e),
            },
    {
        let validation = Deserializer::validate(raw.as_slice());
        Self::from_validated_raw(raw, validation)
    }

    /// Serializes `local_message` into a freshly allocated buffer and wraps it.
    pub fn from_value<Serializer: ReactiveMessagingSerializer<MessagesType>>(local_message: MessagesType) -> (wrapped: Self)
        ensures
            Serializer::obeys_serialized() ==> wrapped@ == Serializer::serialized(local_message),
    {
        let mut buffer: Vec<u8> = Vec::new();
        Serializer::serialize(&local_message, &mut buffer);
        Self::from_raw_unchecked(buffer)
    }

    /// The serialized bytes.
    pub fn as_raw(&self) -> (raw: &Vec<u8>)
        ensures
            raw@ == self@,
    {
        &self.raw
    }
}

/// Whether two byte buffers hold the same bytes.
fn same_bytes(a: &Vec<u8>, b: &Vec<u8>) -> (same: bool)
    ensures
        same == (a@ == b@),
{
    if a.len() != b.len() {
        return false;
    }
    let mut i: usize = 0;
    while i < a.len()
        invariant
            i <= a@.len() == b@.len(),
            forall|j: int| 0 <= j < i ==> a@[j] == b@[j],
        decreases a@.len() - i,
    {
        if a[i] != b[i] {
            return false;
        }
        i = i + 1;
    }
    assert(a@ =~= b@);
    true
}

impl<MessagesType, Deserializer: ReactiveMessagingDeserializer<MessagesType>> PartialEq for SerializedWrapperType<
    MessagesType,
    Deserializer,
> {
    fn eq(&self, other: &Self) -> (equal: bool) {
        same_bytes(&self.raw, &other.raw)
    }
}

impl<MessagesType, Deserializer: ReactiveMessagingDeserializer<MessagesType>> PartialEqSpecImpl for SerializedWrapperType<
    MessagesType,
    Deserializer,
> {
    open spec fn obeys_eq_spec() -> bool {
        true
    }

    open spec fn eq_spec(&self, other: &Self) -> bool {
        self@ == other@
    }
}

} // verus!
