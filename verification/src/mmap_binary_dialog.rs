//! The fixed-size binary framing: every message travels as exactly the bytes of its
//! in-memory form, all messages of one direction having the same size.

use vstd::prelude::*;

verus! {

/// Splits `bytes`, received after the unfinished record `current`, into the records of
/// `record_size` bytes they finish and the new unfinished record.
pub open spec fn split_records(record_size: nat, current: Seq<u8>, bytes: Seq<u8>) -> (Seq<Seq<u8>>, Seq<u8>)
    decreases bytes.len(),
{
    if bytes.len() == 0 {
        (Seq::<Seq<u8>>::empty(), current)
    } else if current.len() + 1 == record_size {
        let next = split_records(record_size, Seq::<u8>::empty(), bytes.drop_first());
        (seq![current.push(bytes[0])] + next.0, next.1)
    } else {
        split_records(record_size, current.push(bytes[0]), bytes.drop_first())
    }
}

/// All `records`, one after the other.
pub open spec fn concat_records(records: Seq<Seq<u8>>) -> Seq<u8>
    decreases records.len(),
{
    if records.len() == 0 {
        Seq::<u8>::empty()
    } else {
        records[0] + concat_records(records.drop_first())
    }
}

/// The contents of a list of buffers.
pub open spec fn records_view(buffers: Seq<Vec<u8>>) -> Seq<Seq<u8>> {
    buffers.map_values(|b: Vec<u8>| b@)
}

/// Incremental reader of fixed-size records: bytes arrive in chunks of any size and
/// complete records come out.
pub struct FixedSizeRecordReader {
    record_size: usize,
    received: Vec<u8>,
}

impl FixedSizeRecordReader {
    /// The bytes received of the record being read.
    pub closed spec fn received(&self) -> Seq<u8> {
        self.received@
    }

    /// The size of every record.
    pub closed spec fn record_size(&self) -> nat {
        self.record_size as nat
    }

    /// The record being read is not complete yet (and nothing was received of an empty record).
    pub open spec fn well_formed(&self) -> bool {
        self.received().len() < self.record_size() || self.received().len() == 0
    }

    /// A reader of records of `record_size` bytes, with nothing received yet. Records of no
    /// bytes are never read: nothing is ever missing of them.
    pub fn new(record_size: usize) -> (reader: Self)
        ensures
            reader.well_formed(),
            reader.record_size() == record_size,
            reader.received() == Seq::<u8>::empty(),
    {
        FixedSizeRecordReader { record_size, received: Vec::new() }
    }

    /// How many more bytes complete the record being read.
    pub fn missing(&self) -> (missing: usize)
        requires
            self.well_formed(),
        ensures
            missing == self.record_size() - self.received().len(),
            missing > 0 <==> self.record_size() > 0,
    {
        self.record_size - self.received.len()
    }

    /// Takes in the next received `bytes` and gives out the records they complete, in order.
    /// (A reader of records of no bytes misses nothing, so it receives no bytes.)
    pub fn feed(&mut self, bytes: &[u8]) -> (records: Vec<Vec<u8>>)
        requires
            old(self).well_formed(),
            old(self).record_size() > 0 || bytes@.len() == 0,
        ensures
            ({
                let split = split_records(old(self).record_size(), old(self).received(), bytes@);
                &&& records_view(records@) == split.0
                &&& final(self).received() == split.1
            }),
            final(self).record_size() == old(self).record_size(),
            final(self).well_formed(),
    {
        let mut records: Vec<Vec<u8>> = Vec::new();
        let mut current: Vec<u8> = Vec::new();
        std::mem::swap(&mut current, &mut self.received);
        let ghost start = current@;
        let size = self.record_size;
        let mut i: usize = 0;
        assert(bytes@.skip(0) =~= bytes@);
        assert(records_view(records@) + split_records(size as nat, start, bytes@).0
            =~= split_records(size as nat, start, bytes@).0);
        while i < bytes.len()
            invariant
                i <= bytes@.len(),
                size == self.record_size,
                current@.len() < size || (size == 0 && current@.len() == 0),
                size == 0 ==> bytes@.len() == 0,
                split_records(size as nat, start, bytes@) == (
                    records_view(records@) + split_records(size as nat, current@, bytes@.skip(i as int)).0,
                    split_records(size as nat, current@, bytes@.skip(i as int)).1,
                ),
            decreases bytes@.len() - i,
        {
            let byte = bytes[i];
            let ghost rest = bytes@.skip(i as int);
            assert(rest.drop_first() =~= bytes@.skip(i + 1));
            if current.len() + 1 == size {
                current.push(byte);
                let mut record: Vec<u8> = Vec::new();
                std::mem::swap(&mut record, &mut current);
                proof {
                    let next = split_records(size as nat, Seq::<u8>::empty(), rest.drop_first());
                    assert(records_view(records@.push(record)) =~= records_view(records@).push(record@));
                    assert(records_view(records@) + (seq![record@] + next.0)
                        =~= records_view(records@).push(record@) + next.0);
                }
                records.push(record);
            } else {
                current.push(byte);
            }
            i = i + 1;
        }
        assert(records_view(records@) + Seq::<Seq<u8>>::empty() =~= records_view(records@));
        self.received = current;
        records
    }
}

/// Records are read the same whether their bytes arrive at once or in two chunks.
pub proof fn lemma_split_records_chunked(record_size: nat, current: Seq<u8>, first: Seq<u8>, second: Seq<u8>)
    ensures
        ({
            let a = split_records(record_size, current, first);
            let b = split_records(record_size, a.1, second);
            split_records(record_size, current, first + second) == (a.0 + b.0, b.1)
        }),
    decreases first.len(),
{
    let a = split_records(record_size, current, first);
    if first.len() == 0 {
        assert(first + second =~= second);
        assert(a.0 + split_records(record_size, a.1, second).0 =~= split_records(record_size, a.1, second).0);
    } else {
        assert((first + second).drop_first() =~= first.drop_first() + second);
        assert((first + second)[0] == first[0]);
        if current.len() + 1 == record_size {
            lemma_split_records_chunked(record_size, Seq::<u8>::empty(), first.drop_first(), second);
            let inner = split_records(record_size, Seq::<u8>::empty(), first.drop_first());
            let b = split_records(record_size, inner.1, second);
            let r = current.push(first[0]);
            assert(seq![r] + (inner.0 + b.0) =~= (seq![r] + inner.0) + b.0);
        } else {
            lemma_split_records_chunked(record_size, current.push(first[0]), first.drop_first(), second);
        }
    }
}

/// Reading the bytes of records that all have the record size gives back exactly those
/// records, with nothing left unfinished.
pub proof fn lemma_records_round_trip(record_size: nat, records: Seq<Seq<u8>>)
    requires
        record_size > 0,
        forall|i: int| 0 <= i < records.len() ==> (#[trigger] records[i]).len() == record_size,
    ensures
        split_records(record_size, Seq::<u8>::empty(), concat_records(records)) == (
            records,
            Seq::<u8>::empty(),
        ),
    decreases records.len(),
{
    if records.len() > 0 {
        let r = records[0];
        let tail = records.drop_first();
        assert forall|i: int| 0 <= i < tail.len() implies (#[trigger] tail[i]).len() == record_size by {
            assert(tail[i] == records[i + 1]);
        }
        lemma_records_round_trip(record_size, tail);
        lemma_split_one_record(record_size, Seq::<u8>::empty(), r, concat_records(tail));
        assert(Seq::<u8>::empty() + r =~= r);
        assert(seq![r] + tail =~= records);
    }
}

/// Bytes that complete the unfinished record `current` finish exactly that record.
pub proof fn lemma_split_one_record(record_size: nat, current: Seq<u8>, rest_of_record: Seq<u8>, after: Seq<u8>)
    requires
        rest_of_record.len() > 0,
        current.len() + rest_of_record.len() == record_size,
    ensures
        ({
            let next = split_records(record_size, Seq::<u8>::empty(), after);
            split_records(record_size, current, rest_of_record + after) == (
                seq![current + rest_of_record] + next.0,
                next.1,
            )
        }),
    decreases rest_of_record.len(),
{
    let bytes = rest_of_record + after;
    assert(bytes[0] == rest_of_record[0]);
    if rest_of_record.len() == 1 {
        assert(bytes.drop_first() =~= after);
        assert(current.push(rest_of_record[0]) =~= current + rest_of_record);
    } else {
        assert(bytes.drop_first() =~= rest_of_record.drop_first() + after);
        lemma_split_one_record(record_size, current.push(rest_of_record[0]), rest_of_record.drop_first(), after);
        assert(current.push(rest_of_record[0]) + rest_of_record.drop_first() =~= current + rest_of_record);
    }
}

/// Reading never loses nor invents a byte: the finished records and the unfinished one
/// are the old unfinished record followed by the received bytes; every finished record has
/// the record size and the unfinished one is shorter.
pub proof fn lemma_split_records_preserves_bytes(record_size: nat, current: Seq<u8>, bytes: Seq<u8>)
    requires
        current.len() < record_size,
    ensures
        ({
            let split = split_records(record_size, current, bytes);
            &&& concat_records(split.0) + split.1 == current + bytes
            &&& split.1.len() < record_size
            &&& forall|i: int| 0 <= i < split.0.len() ==> (#[trigger] split.0[i]).len() == record_size
        }),
    decreases bytes.len(),
{
    if bytes.len() == 0 {
        assert(concat_records(Seq::<Seq<u8>>::empty()) + current =~= current + bytes);
    } else if current.len() + 1 == record_size {
        let record = current.push(bytes[0]);
        let next = split_records(record_size, Seq::<u8>::empty(), bytes.drop_first());
        lemma_split_records_preserves_bytes(record_size, Seq::<u8>::empty(), bytes.drop_first());
        let found = seq![record] + next.0;
        assert(found.drop_first() =~= next.0);
        assert(concat_records(found) == record + concat_records(next.0));
        assert(Seq::<u8>::empty() + bytes.drop_first() =~= bytes.drop_first());
        assert(record + (concat_records(next.0) + next.1) =~= current + bytes);
        assert forall|i: int| 0 <= i < found.len() implies (#[trigger] found[i]).len() == record_size by {
            if i > 0 {
                assert(found[i] == next.0[i - 1]);
            }
        }
    } else {
        lemma_split_records_preserves_bytes(record_size, current.push(bytes[0]), bytes.drop_first());
        assert(current.push(bytes[0]) + bytes.drop_first() =~= current + bytes);
    }
}

/// Bytes that do not complete the unfinished record `current` finish no record: they are all
/// kept as the unfinished record.
pub proof fn lemma_split_partial_record(record_size: nat, current: Seq<u8>, bytes: Seq<u8>)
    requires
        current.len() + bytes.len() < record_size,
    ensures
        split_records(record_size, current, bytes) == (Seq::<Seq<u8>>::empty(), current + bytes),
    decreases bytes.len(),
{
    if bytes.len() == 0 {
        assert(current + bytes =~= current);
    } else {
        lemma_split_partial_record(record_size, current.push(bytes[0]), bytes.drop_first());
        assert(current.push(bytes[0]) + bytes.drop_first() =~= current + bytes);
    }
}

/// The abstract state of the receiving side of a fixed-size dialog, which reads each message
/// straight into a slot reserved from the local processor.
pub struct ReceiverState {
    /// The size of every message.
    pub record_size: nat,
    /// Every byte received, in order.
    pub fed: Seq<u8>,
    /// The bytes received of the message being read (into the held slot).
    pub received: Seq<u8>,
    /// The messages published to the processor, in order.
    pub published: Seq<Seq<u8>>,
    /// A slot is reserved and neither published nor given back yet.
    pub holding: bool,
    /// Some reservation ever succeeded.
    pub ever_reserved: bool,
    /// How many slots were reserved.
    pub reserved: nat,
    /// How many slots were given back unfilled.
    pub given_back: nat,
    /// The dialog ended.
    pub ended: bool,
}

impl ReceiverState {
    /// What a receiver keeps at all times: the published messages and the one being read are
    /// exactly the received bytes cut into messages; every reserved slot is published, given
    /// back or held; bytes are only received into a held slot; and an ended receiver holds none.
    pub open spec fn well_formed(self) -> bool {
        &&& (self.published, self.received) == split_records(self.record_size, Seq::<u8>::empty(), self.fed)
        &&& self.reserved == self.published.len() + self.given_back + (if self.holding { 1nat } else { 0nat })
        &&& !self.holding ==> self.received.len() == 0
        &&& self.received.len() < self.record_size || self.received.len() == 0
        &&& self.ended ==> !self.holding
    }
}

/// The receiving side of a fixed-size dialog: a slot of the local processor is reserved before
/// any byte is read, a filled slot is published and the next one reserved, and when the dialog
/// ends the slot still held (unfilled) is given back. Failing to reserve the very first slot
/// fails the dialog; failing later just ends it.
pub struct SlotReceiver {
    reader: FixedSizeRecordReader,
    holding: bool,
    ever_reserved: bool,
    ended: bool,
    fed: Ghost<Seq<u8>>,
    published: Ghost<Seq<Seq<u8>>>,
    reserved: Ghost<nat>,
    given_back: Ghost<nat>,
}

impl View for SlotReceiver {
    type V = ReceiverState;

    closed spec fn view(&self) -> ReceiverState {
        ReceiverState {
            record_size: self.reader.record_size(),
            fed: self.fed@,
            received: self.reader.received(),
            published: self.published@,
            holding: self.holding,
            ever_reserved: self.ever_reserved,
            reserved: self.reserved@,
            given_back: self.given_back@,
            ended: self.ended,
        }
    }
}

impl SlotReceiver {
    /// A receiver of messages of `record_size` bytes that holds no slot yet.
    pub fn new(record_size: usize) -> (receiver: Self)
        ensures
            receiver@ == (ReceiverState {
                record_size: record_size as nat,
                fed: Seq::<u8>::empty(),
                received: Seq::<u8>::empty(),
                published: Seq::<Seq<u8>>::empty(),
                holding: false,
                ever_reserved: false,
                reserved: 0,
                given_back: 0,
                ended: false,
            }),
            receiver@.well_formed(),
    {
        SlotReceiver {
            reader: FixedSizeRecordReader::new(record_size),
            holding: false,
            ever_reserved: false,
            ended: false,
            fed: Ghost(Seq::<u8>::empty()),
            published: Ghost(Seq::<Seq<u8>>::empty()),
            reserved: Ghost(0nat),
            given_back: Ghost(0nat),
        }
    }

    /// Whether a slot has to be reserved before the dialog goes on.
    pub fn needs_slot(&self) -> (needs: bool)
        ensures
            needs == (!self@.holding && !self@.ended),
    {
        !self.holding && !self.ended
    }

    /// Records that a slot was reserved.
    pub fn on_reserved(&mut self)
        requires
            old(self)@.well_formed(),
            !old(self)@.holding,
            !old(self)@.ended,
        ensures
            final(self)@ == (ReceiverState {
                holding: true,
                ever_reserved: true,
                reserved: old(self)@.reserved + 1,
                ..old(self)@
            }),
            final(self)@.well_formed(),
    {
        self.holding = true;
        self.ever_reserved = true;
        self.reserved = Ghost(self.reserved@ + 1);
    }

    /// Records that no slot could be reserved: the dialog ends, failing if no slot was ever
    /// reserved (`fails_dialog`).
    pub fn on_reservation_failed(&mut self) -> (fails_dialog: bool)
        requires
            old(self)@.well_formed(),
            !old(self)@.holding,
            !old(self)@.ended,
        ensures
            fails_dialog == !old(self)@.ever_reserved,
            final(self)@ == (ReceiverState { ended: true, ..old(self)@ }),
            final(self)@.well_formed(),
    {
        self.ended = true;
        !self.ever_reserved
    }

    /// How many bytes are still missing to fill the held slot.
    pub fn missing(&self) -> (missing: usize)
        requires
            self@.well_formed(),
        ensures
            missing == self@.record_size - self@.received.len(),
    {
        self.reader.missing()
    }

    /// Takes in `bytes` read into the held slot (at most what it misses). When they fill it,
    /// the whole message comes out, to be published, and the slot is no longer held; otherwise
    /// the slot keeps filling.
    pub fn on_bytes(&mut self, bytes: &[u8]) -> (completed: Option<Vec<u8>>)
        requires
            old(self)@.well_formed(),
            old(self)@.holding,
            bytes@.len() <= old(self)@.record_size - old(self)@.received.len(),
        ensures
            final(self)@.well_formed(),
            final(self)@.fed == old(self)@.fed + bytes@,
            final(self)@.reserved == old(self)@.reserved,
            final(self)@.given_back == old(self)@.given_back,
            final(self)@.ever_reserved == old(self)@.ever_reserved,
            final(self)@.ended == old(self)@.ended,
            final(self)@.record_size == old(self)@.record_size,
            match completed {
                Some(message) => {
                    &&& old(self)@.received.len() + bytes@.len() == old(self)@.record_size
                    &&& bytes@.len() > 0
                    &&& message@ == old(self)@.received + bytes@
                    &&& final(self)@.published == old(self)@.published.push(message@)
                    &&& final(self)@.received == Seq::<u8>::empty()
                    &&& !final(self)@.holding
                },
                None => {
                    &&& !(old(self)@.received.len() + bytes@.len() == old(self)@.record_size && bytes@.len() > 0)
                    &&& final(self)@.published == old(self)@.published
                    &&& final(self)@.received == old(self)@.received + bytes@
                    &&& final(self)@.holding
                },
            },
    {
        let ghost size = self.reader.record_size();
        let ghost before = self.reader.received();
        let ghost old_fed = self.fed@;
        proof {
            lemma_split_records_chunked(size, Seq::<u8>::empty(), old_fed, bytes@);
            if before.len() + bytes@.len() == size && bytes@.len() > 0 {
                lemma_split_one_record(size, before, bytes@, Seq::<u8>::empty());
                assert(bytes@ + Seq::<u8>::empty() =~= bytes@);
            } else if bytes@.len() == 0 {
                assert(before + bytes@ =~= before);
            } else {
                lemma_split_partial_record(size, before, bytes@);
            }
        }
        let mut records = self.reader.feed(bytes);
        self.fed = Ghost(old_fed + bytes@);
        if records.len() > 0 {
            assert(records_view(records@)[0] == records@[0]@);
            let message = records.pop().unwrap();
            self.published = Ghost(self.published@.push(message@));
            self.holding = false;
            proof {
                assert(seq![before + bytes@] + Seq::<Seq<u8>>::empty() =~= seq![before + bytes@]);
                assert(old(self)@.published + seq![message@] =~= old(self)@.published.push(message@));
            }
            Some(message)
        } else {
            assert(old(self)@.published + Seq::<Seq<u8>>::empty() =~= old(self)@.published);
            None
        }
    }

    /// Ends the dialog, telling whether the held (unfilled) slot is to be given back.
    pub fn on_end(&mut self) -> (give_back: bool)
        requires
            old(self)@.well_formed(),
        ensures
            give_back == old(self)@.holding,
            final(self)@ == (ReceiverState {
                holding: false,
                ended: true,
                given_back: old(self)@.given_back + (if give_back { 1nat } else { 0nat }),
                received: if give_back { Seq::<u8>::empty() } else { old(self)@.received },
                ..old(self)@
            }),
    {
        let give_back = self.holding;
        if give_back {
            self.given_back = Ghost(self.given_back@ + 1);
            self.holding = false;
            self.reader = FixedSizeRecordReader::new(self.reader.record_size);
        }
        self.ended = true;
        give_back
    }
}

/// Once the dialog ended, every slot that was reserved was either published, full, or given
/// back: none is left behind.
pub proof fn lemma_no_slot_left_behind(state: ReceiverState)
    requires
        state.well_formed(),
        state.ended,
    ensures
        state.reserved == state.published.len() + state.given_back,
{
}

/// When the bytes received are whole messages, exactly those messages were published, in
/// order, and nothing is left half read.
pub proof fn lemma_publishes_received_messages(state: ReceiverState, messages: Seq<Seq<u8>>)
    requires
        state.well_formed(),
        state.record_size > 0,
        forall|i: int| 0 <= i < messages.len() ==> (#[trigger] messages[i]).len() == state.record_size,
        state.fed == concat_records(messages),
    ensures
        state.published == messages,
        state.received == Seq::<u8>::empty(),
{
    lemma_records_round_trip(state.record_size, messages);
}

} // verus!
