//! The textual framing: every message travels as one line, ended by `'\n'`.

use vstd::prelude::*;

verus! {

/// The byte that ends every message of the textual framing.
pub const LINE_END: u8 = 10u8;

/// Splits `bytes`, received after the still unfinished line `current`, into the finished
/// lines (without their `'\n'`) and the new unfinished line.
pub open spec fn split_lines(current: Seq<u8>, bytes: Seq<u8>) -> (Seq<Seq<u8>>, Seq<u8>)
    decreases bytes.len(),
{
    if bytes.len() == 0 {
        (Seq::<Seq<u8>>::empty(), current)
    } else if bytes[0] == LINE_END {
        let next = split_lines(Seq::<u8>::empty(), bytes.drop_first());
        (seq![current] + next.0, next.1)
    } else {
        split_lines(current.push(bytes[0]), bytes.drop_first())
    }
}

/// `bytes` holds no `'\n'`.
pub open spec fn is_single_line(bytes: Seq<u8>) -> bool {
    forall|i: int| 0 <= i < bytes.len() ==> bytes[i] != LINE_END
}

/// The lines of `messages`, each ended by `'\n'`, one after the other.
pub open spec fn lines(messages: Seq<Seq<u8>>) -> Seq<u8>
    decreases messages.len(),
{
    if messages.len() == 0 {
        Seq::<u8>::empty()
    } else {
        messages[0].push(LINE_END) + lines(messages.drop_first())
    }
}

/// The contents of a list of buffers.
pub open spec fn buffers_view(buffers: Seq<Vec<u8>>) -> Seq<Seq<u8>> {
    buffers.map_values(|b: Vec<u8>| b@)
}

/// Ends the serialized message in `buffer` with the line terminator, so it can be sent.
pub fn terminate_line(buffer: &mut Vec<u8>)
    ensures
        final(buffer)@ == old(buffer)@.push(LINE_END),
{
    buffer.push(LINE_END);
}

/// Incremental reader of the textual framing: bytes arrive in chunks of any size and
/// complete lines come out.
pub struct TextualLineReader {
    unfinished: Vec<u8>,
}

impl TextualLineReader {
    /// The bytes of the line still being received.
    pub closed spec fn unfinished(&self) -> Seq<u8> {
        self.unfinished@
    }

    /// A reader with nothing received yet.
    pub fn new() -> (reader: Self)
        ensures
            reader.unfinished() == Seq::<u8>::empty(),
    {
        TextualLineReader { unfinished: Vec::new() }
    }

    /// How many bytes of the line still being received have arrived.
    pub fn unfinished_len(&self) -> (len: usize)
        ensures
            len == self.unfinished().len(),
    {
        self.unfinished.len()
    }

    /// Takes in the next received `bytes` and gives out the lines they finish, in order.
    pub fn feed(&mut self, bytes: &[u8]) -> (finished: Vec<Vec<u8>>)
        ensures
            ({
                let split = split_lines(old(self).unfinished(), bytes@);
                &&& buffers_view(finished@) == split.0
                &&& final(self).unfinished() == split.1
            }),
            is_single_line(old(self).unfinished()) ==> is_single_line(final(self).unfinished()),
    {
        proof {
            lemma_split_lines_preserves_bytes(self.unfinished@, bytes@);
        }
        let mut finished: Vec<Vec<u8>> = Vec::new();
        let mut current: Vec<u8> = Vec::new();
        std::mem::swap(&mut current, &mut self.unfinished);
        let ghost start = current@;
        let mut i: usize = 0;
        assert(bytes@.skip(0) =~= bytes@);
        assert(buffers_view(finished@) + split_lines(start, bytes@).0 =~= split_lines(start, bytes@).0);
        while i < bytes.len()
            invariant
                i <= bytes@.len(),
                split_lines(start, bytes@) == (
                    buffers_view(finished@) + split_lines(current@, bytes@.skip(i as int)).0,
                    split_lines(current@, bytes@.skip(i as int)).1,
                ),
            decreases bytes@.len() - i,
        {
            let byte = bytes[i];
            let ghost rest = bytes@.skip(i as int);
            assert(rest.drop_first() =~= bytes@.skip(i + 1));
            if byte == LINE_END {
                let mut line: Vec<u8> = Vec::new();
                std::mem::swap(&mut line, &mut current);
                proof {
                    let next = split_lines(Seq::<u8>::empty(), rest.drop_first());
                    assert(buffers_view(finished@.push(line)) =~= buffers_view(finished@).push(line@));
                    assert(buffers_view(finished@) + (seq![line@] + next.0)
                        =~= buffers_view(finished@).push(line@) + next.0);
                }
                finished.push(line);
            } else {
                current.push(byte);
            }
            i = i + 1;
        }
        assert(buffers_view(finished@) + Seq::<Seq<u8>>::empty() =~= buffers_view(finished@));
        self.unfinished = current;
        finished
    }
}

/// Lines are read the same whether their bytes arrive at once or in two chunks.
pub proof fn lemma_split_lines_chunked(current: Seq<u8>, first: Seq<u8>, second: Seq<u8>)
    ensures
        ({
            let a = split_lines(current, first);
            let b = split_lines(a.1, second);
            split_lines(current, first + second) == (a.0 + b.0, b.1)
        }),
    decreases first.len(),
{
    let a = split_lines(current, first);
    if first.len() == 0 {
        assert(first + second =~= second);
        assert(a.0 + split_lines(a.1, second).0 =~= split_lines(a.1, second).0);
    } else {
        assert((first + second).drop_first() =~= first.drop_first() + second);
        assert((first + second)[0] == first[0]);
        if first[0] == LINE_END {
            lemma_split_lines_chunked(Seq::<u8>::empty(), first.drop_first(), second);
            let inner = split_lines(Seq::<u8>::empty(), first.drop_first());
            let b = split_lines(inner.1, second);
            assert(seq![current] + (inner.0 + b.0) =~= (seq![current] + inner.0) + b.0);
        } else {
            lemma_split_lines_chunked(current.push(first[0]), first.drop_first(), second);
        }
    }
}

/// Reading the lines of messages that hold no `'\n'` gives back exactly those messages,
/// with nothing left unfinished.
pub proof fn lemma_lines_round_trip(messages: Seq<Seq<u8>>)
    requires
        forall|i: int| 0 <= i < messages.len() ==> is_single_line(#[trigger] messages[i]),
    ensures
        split_lines(Seq::<u8>::empty(), lines(messages)) == (messages, Seq::<u8>::empty()),
    decreases messages.len(),
{
    if messages.len() > 0 {
        let m = messages[0];
        let tail = messages.drop_first();
        assert forall|i: int| 0 <= i < tail.len() implies is_single_line(#[trigger] tail[i]) by {
            assert(tail[i] == messages[i + 1]);
        }
        lemma_lines_round_trip(tail);
        lemma_split_single_line(Seq::<u8>::empty(), m, lines(tail));
        assert(seq![m] + tail =~= messages);
    }
}

/// A line without `'\n'`, followed by `'\n'`, finishes exactly that line.
pub proof fn lemma_split_single_line(current: Seq<u8>, line: Seq<u8>, after: Seq<u8>)
    requires
        is_single_line(line),
    ensures
        ({
            let next = split_lines(Seq::<u8>::empty(), after);
            split_lines(current, line.push(LINE_END) + after) == (seq![current + line] + next.0, next.1)
        }),
    decreases line.len(),
{
    let bytes = line.push(LINE_END) + after;
    if line.len() == 0 {
        assert(bytes.drop_first() =~= after);
        assert(current + line =~= current);
    } else {
        assert(bytes.drop_first() =~= line.drop_first().push(LINE_END) + after);
        assert(is_single_line(line.drop_first())) by {
            assert forall|i: int| 0 <= i < line.drop_first().len() implies line.drop_first()[i] != LINE_END by {
                assert(line.drop_first()[i] == line[i + 1]);
            }
        }
        lemma_split_single_line(current.push(line[0]), line.drop_first(), after);
        assert(current.push(line[0]) + line.drop_first() =~= current + line);
    }
}

/// Reading never loses nor invents a byte: the finished lines, each with its `'\n'`, and the
/// new unfinished line are the old unfinished line followed by the received bytes.
pub proof fn lemma_split_lines_preserves_bytes(current: Seq<u8>, bytes: Seq<u8>)
    ensures
        lines(split_lines(current, bytes).0) + split_lines(current, bytes).1 == current + bytes,
        is_single_line(current) ==> is_single_line(split_lines(current, bytes).1),
    decreases bytes.len(),
{
    if bytes.len() == 0 {
        assert(lines(Seq::<Seq<u8>>::empty()) + current =~= current + bytes);
    } else if bytes[0] == LINE_END {
        let next = split_lines(Seq::<u8>::empty(), bytes.drop_first());
        lemma_split_lines_preserves_bytes(Seq::<u8>::empty(), bytes.drop_first());
        let found = seq![current] + next.0;
        assert(found.drop_first() =~= next.0);
        assert(lines(found) == current.push(LINE_END) + lines(next.0));
        assert(Seq::<u8>::empty() + bytes.drop_first() =~= bytes.drop_first());
        assert(lines(next.0) + next.1 == bytes.drop_first());
        assert(current.push(LINE_END) + (lines(next.0) + next.1) =~= current + bytes);
        assert(lines(found) + next.1 =~= current + bytes);
    } else {
        lemma_split_lines_preserves_bytes(current.push(bytes[0]), bytes.drop_first());
        assert(current.push(bytes[0]) + bytes.drop_first() =~= current + bytes);
        if is_single_line(current) {
            assert(is_single_line(current.push(bytes[0])));
        }
    }
}

} // verus!
