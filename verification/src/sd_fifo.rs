use vstd::prelude::*;
use vstd::array::ArrayAdditionalExecFns;

verus! {

/// Size of a card block in bytes.
pub const BLOCK_SIZE: usize = 512;

/// Hard-coded depth, in 32-bit entries, below which the controller's FIFO
/// accepts more data during a write.
pub const FIFO_WRITE_LIMIT: usize = 120;

/// Byte `i` (0 = least significant) of `word`.
pub open spec fn byte_of(word: u64, i: int) -> u8 {
    ((word >> ((8 * i) as u64)) & 0xff) as u8
}

/// The eight bytes of `word`, least significant first.
pub open spec fn le_bytes(word: u64) -> Seq<u8> {
    seq![
        byte_of(word, 0),
        byte_of(word, 1),
        byte_of(word, 2),
        byte_of(word, 3),
        byte_of(word, 4),
        byte_of(word, 5),
        byte_of(word, 6),
        byte_of(word, 7),
    ]
}

/// The word whose bytes, least significant first, are `b[0..8]`.
pub open spec fn le_word(b: Seq<u8>) -> u64 {
    (b[0] as u64) | ((b[1] as u64) << 8u64) | ((b[2] as u64) << 16u64) | ((b[3] as u64) << 24u64)
        | ((b[4] as u64) << 32u64) | ((b[5] as u64) << 40u64) | ((b[6] as u64) << 48u64) | ((
    b[7] as u64) << 56u64)
}

/// Stores a word read from the FIFO at `offset` of a block buffer, least
/// significant byte first.
pub fn store_word_le(buf: &mut [u8; 512], offset: usize, word: u64)
    requires
        offset + 8 <= 512,
    ensures
        final(buf)@ == old(buf)@.subrange(0, offset as int) + le_bytes(word) + old(buf)@.subrange(
            offset + 8,
            512,
        ),
{
    let mut i: usize = 0;
    while i < 8
        invariant
            i <= 8,
            offset + 8 <= 512,
            buf@.len() == 512,
            forall|k: int| 0 <= k < offset ==> buf@[k] == old(buf)@[k],
            forall|k: int| offset + 8 <= k < 512 ==> buf@[k] == old(buf)@[k],
            forall|k: int| 0 <= k < i ==> buf@[offset + k] == byte_of(word, k),
        decreases 8 - i,
    {
        let shift: u64 = 8 * (i as u64);
        let b: u8 = ((word >> shift) & 0xff) as u8;
        buf.set(offset + i, b);
        i = i + 1;
    }
    proof {
        assert(buf@ =~= old(buf)@.subrange(0, offset as int) + le_bytes(word) + old(buf)@.subrange(
            offset + 8,
            512,
        ));
    }
}

/// Reads the word to write to the FIFO from `offset` of a block buffer,
/// least significant byte first.
pub fn load_word_le(buf: &[u8; 512], offset: usize) -> (word: u64)
    requires
        offset + 8 <= 512,
    ensures
        word == le_word(buf@.subrange(offset as int, offset + 8)),
{
    let b0 = buf[offset] as u64;
    let b1 = buf[offset + 1] as u64;
    let b2 = buf[offset + 2] as u64;
    let b3 = buf[offset + 3] as u64;
    let b4 = buf[offset + 4] as u64;
    let b5 = buf[offset + 5] as u64;
    let b6 = buf[offset + 6] as u64;
    let b7 = buf[offset + 7] as u64;
    b0 | (b1 << 8u64) | (b2 << 16u64) | (b3 << 24u64) | (b4 << 32u64) | (b5 << 40u64) | (b6 << 48u64)
        | (b7 << 56u64)
}

/// Reading back the bytes a word was stored as gives the word.
pub proof fn lemma_le_roundtrip(word: u64)
    ensures
        le_word(le_bytes(word)) == word,
{
    let b0 = byte_of(word, 0);
    let b1 = byte_of(word, 1);
    let b2 = byte_of(word, 2);
    let b3 = byte_of(word, 3);
    let b4 = byte_of(word, 4);
    let b5 = byte_of(word, 5);
    let b6 = byte_of(word, 6);
    let b7 = byte_of(word, 7);
    assert(word >> 0u64 == word) by (bit_vector);
    assert(b0 == (word & 0xff) as u8);
    assert(b1 == ((word >> 8u64) & 0xff) as u8);
    assert(b2 == ((word >> 16u64) & 0xff) as u8);
    assert(b3 == ((word >> 24u64) & 0xff) as u8);
    assert(b4 == ((word >> 32u64) & 0xff) as u8);
    assert(b5 == ((word >> 40u64) & 0xff) as u8);
    assert(b6 == ((word >> 48u64) & 0xff) as u8);
    assert(b7 == ((word >> 56u64) & 0xff) as u8);
    assert(((((word & 0xff) as u8) as u64) | (((((word >> 8u64) & 0xff) as u8) as u64) << 8u64) | ((
    (((word >> 16u64) & 0xff) as u8) as u64) << 16u64) | (((((word >> 24u64) & 0xff) as u8) as u64)
        << 24u64) | (((((word >> 32u64) & 0xff) as u8) as u64) << 32u64) | (((((word >> 40u64) & 0xff)
        as u8) as u64) << 40u64) | (((((word >> 48u64) & 0xff) as u8) as u64) << 48u64) | (((((word
        >> 56u64) & 0xff) as u8) as u64) << 56u64)) == word) by (bit_vector);
}

/// Storing the word that eight bytes pack into gives back those bytes: a
/// block written to the card word by word reads back byte for byte.
pub proof fn lemma_le_bytes_roundtrip(b: Seq<u8>)
    requires
        b.len() == 8,
    ensures
        le_bytes(le_word(b)) == b,
{
    let b0 = b[0];
    let b1 = b[1];
    let b2 = b[2];
    let b3 = b[3];
    let b4 = b[4];
    let b5 = b[5];
    let b6 = b[6];
    let b7 = b[7];
    let w = le_word(b);
    assert(w == (b0 as u64) | ((b1 as u64) << 8u64) | ((b2 as u64) << 16u64) | ((b3 as u64) << 24u64)
        | ((b4 as u64) << 32u64) | ((b5 as u64) << 40u64) | ((b6 as u64) << 48u64) | ((b7 as u64)
        << 56u64));
    assert(((w >> 0u64) & 0xff) as u8 == b0 && ((w >> 8u64) & 0xff) as u8 == b1 && ((w >> 16u64)
        & 0xff) as u8 == b2 && ((w >> 24u64) & 0xff) as u8 == b3 && ((w >> 32u64) & 0xff) as u8 == b4
        && ((w >> 40u64) & 0xff) as u8 == b5 && ((w >> 48u64) & 0xff) as u8 == b6 && ((w >> 56u64)
        & 0xff) as u8 == b7) by (bit_vector)
        requires
            w == (b0 as u64) | ((b1 as u64) << 8u64) | ((b2 as u64) << 16u64) | ((b3 as u64) << 24u64)
                | ((b4 as u64) << 32u64) | ((b5 as u64) << 40u64) | ((b6 as u64) << 48u64) | ((
            b7 as u64) << 56u64),
    ;
    assert(le_bytes(w) =~= b);
}

/// The words a block is sent as: consecutive eight-byte groups, each packed
/// least significant byte first.
pub open spec fn block_words(b: Seq<u8>) -> Seq<u64>
    decreases b.len(),
{
    if b.len() < 8 {
        seq![]
    } else {
        seq![le_word(b.take(8))] + block_words(b.skip(8))
    }
}

/// The bytes a run of words is received as, each least significant first.
pub open spec fn words_bytes(ws: Seq<u64>) -> Seq<u8>
    decreases ws.len(),
{
    if ws.len() == 0 {
        seq![]
    } else {
        le_bytes(ws[0]) + words_bytes(ws.drop_first())
    }
}

/// A block sent word by word and received word by word arrives unchanged.
pub proof fn lemma_block_roundtrip(b: Seq<u8>)
    requires
        b.len() % 8 == 0,
    ensures
        words_bytes(block_words(b)) == b,
    decreases b.len(),
{
    if b.len() == 0 {
        assert(block_words(b) =~= Seq::<u64>::empty());
        assert(words_bytes(Seq::<u64>::empty()) =~= b);
    } else {
        let rest = b.skip(8);
        lemma_block_roundtrip(rest);
        lemma_le_bytes_roundtrip(b.take(8));
        let ws = block_words(b);
        assert(ws[0] == le_word(b.take(8)));
        assert(ws.drop_first() =~= block_words(rest));
        assert(b.take(8) + rest =~= b);
    }
}

/// The words a write transfer of `data` pushes into the FIFO, one per call
/// of `BlockTransfer::next_write_word` from offset 0: word `k` packs bytes
/// `8k..8k+8`.
pub open spec fn sent_words(data: Seq<u8>) -> Seq<u64> {
    Seq::new(data.len() / 8, |k: int| le_word(data.subrange(8 * k, 8 * k + 8)))
}

/// The buffer a read transfer leaves after receiving `words` into `buf`,
/// one per call of `BlockTransfer::accept_read_word` from offset 0.
pub open spec fn received(buf: Seq<u8>, words: Seq<u64>) -> Seq<u8>
    decreases words.len(),
{
    if words.len() == 0 {
        buf
    } else {
        let prev = received(buf, words.drop_last());
        let at = 8 * (words.len() - 1);
        prev.subrange(0, at) + le_bytes(words.last()) + prev.subrange(at + 8, 512)
    }
}

proof fn lemma_words_bytes_len(ws: Seq<u64>)
    ensures
        words_bytes(ws).len() == 8 * ws.len(),
    decreases ws.len(),
{
    if ws.len() > 0 {
        lemma_words_bytes_len(ws.drop_first());
    }
}

proof fn lemma_words_bytes_push(ws: Seq<u64>, w: u64)
    ensures
        words_bytes(ws.push(w)) == words_bytes(ws) + le_bytes(w),
    decreases ws.len(),
{
    if ws.len() == 0 {
        assert(ws.push(w).drop_first() =~= Seq::<u64>::empty());
        assert(words_bytes(ws.push(w)) =~= le_bytes(w) + words_bytes(Seq::<u64>::empty()));
        assert(words_bytes(ws) + le_bytes(w) =~= le_bytes(w));
    } else {
        lemma_words_bytes_push(ws.drop_first(), w);
        assert(ws.push(w).drop_first() =~= ws.drop_first().push(w));
        assert(words_bytes(ws.push(w)) =~= words_bytes(ws) + le_bytes(w));
    }
}

proof fn lemma_received_prefix(buf: Seq<u8>, ws: Seq<u64>)
    requires
        buf.len() == 512,
        ws.len() <= 64,
    ensures
        received(buf, ws) == words_bytes(ws) + buf.subrange(8 * ws.len() as int, 512),
    decreases ws.len(),
{
    lemma_words_bytes_len(ws);
    if ws.len() > 0 {
        let init = ws.drop_last();
        lemma_received_prefix(buf, init);
        lemma_words_bytes_len(init);
        lemma_words_bytes_push(init, ws.last());
        assert(init.push(ws.last()) =~= ws);
        let prev = words_bytes(init) + buf.subrange(8 * init.len() as int, 512);
        let at = 8 * (ws.len() - 1);
        assert(prev.subrange(0, at) =~= words_bytes(init));
        assert(prev.subrange(at + 8, 512) =~= buf.subrange(8 * ws.len() as int, 512));
        assert(received(buf, ws) =~= words_bytes(ws) + buf.subrange(8 * ws.len() as int, 512));
    }
}

proof fn lemma_sent_words_bytes(data: Seq<u8>)
    requires
        data.len() % 8 == 0,
    ensures
        words_bytes(sent_words(data)) == data,
    decreases data.len(),
{
    let ws = sent_words(data);
    if data.len() == 0 {
        assert(ws =~= Seq::<u64>::empty());
        assert(words_bytes(ws) =~= data);
    } else {
        let rest = data.skip(8);
        lemma_sent_words_bytes(rest);
        lemma_le_bytes_roundtrip(data.subrange(0, 8));
        assert forall|k: int| 0 <= k < sent_words(rest).len() implies #[trigger] sent_words(rest)[k]
            == ws[k + 1] by {
            assert(rest.subrange(8 * k, 8 * k + 8) =~= data.subrange(8 * (k + 1), 8 * (k + 1) + 8));
        }
        assert(ws.drop_first() =~= sent_words(rest));
        assert(data.subrange(0, 8) + rest =~= data);
    }
}

/// Read after write: a block sent word by word by a write transfer and
/// received word by word by a read transfer arrives byte for byte, whatever
/// the receiving buffer held before. What the card stores in between rests
/// on the card.
pub proof fn lemma_block_read_after_write(data: Seq<u8>, buf: Seq<u8>)
    requires
        data.len() == 512,
        buf.len() == 512,
    ensures
        sent_words(data).len() == 64,
        received(buf, sent_words(data)) == data,
{
    lemma_received_prefix(buf, sent_words(data));
    lemma_sent_words_bytes(data);
    assert(buf.subrange(512, 512) =~= Seq::<u8>::empty());
    assert(words_bytes(sent_words(data)) + buf.subrange(512, 512) =~= data);
}

/// Progress of a block transfer through the controller's FIFO: how many
/// bytes of the block have moved so far.
pub struct BlockTransfer {
    offset: usize,
}

impl View for BlockTransfer {
    type V = nat;

    closed spec fn view(&self) -> nat {
        self.offset as nat
    }
}

impl BlockTransfer {
    /// A transfer that has not moved any byte yet.
    pub fn new() -> (t: Self)
        ensures
            t@ == 0,
    {
        BlockTransfer { offset: 0 }
    }

    /// Bytes moved so far.
    pub fn offset(&self) -> (o: usize)
        ensures
            o == self@,
    {
        self.offset
    }

    /// During a read the FIFO is drained while it holds at least two
    /// 32-bit entries, that is one 64-bit word.
    pub fn read_word_available(fifo_count: usize) -> (b: bool)
        ensures
            b == (fifo_count >= 2),
    {
        fifo_count >= 2
    }

    /// During a write the FIFO is filled while it holds fewer than the
    /// hard-coded limit and bytes of the block remain.
    pub fn write_word_wanted(&self, fifo_count: usize, len: usize) -> (b: bool)
        ensures
            b == (fifo_count < FIFO_WRITE_LIMIT && self@ < len),
    {
        fifo_count < FIFO_WRITE_LIMIT && self.offset < len
    }

    /// Stores a word drained from the FIFO and moves past it.
    pub fn accept_read_word(&mut self, buf: &mut [u8; 512], word: u64)
        requires
            old(self)@ + 8 <= 512,
        ensures
            final(self)@ == old(self)@ + 8,
            final(buf)@ == old(buf)@.subrange(0, old(self)@ as int) + le_bytes(word) + old(
                buf,
            )@.subrange(old(self)@ + 8int, 512),
    {
        store_word_le(buf, self.offset, word);
        self.offset = self.offset + 8;
    }

    /// The next word to push into the FIFO, after which the transfer moves
    /// past it.
    pub fn next_write_word(&mut self, buf: &[u8; 512]) -> (word: u64)
        requires
            old(self)@ + 8 <= 512,
        ensures
            final(self)@ == old(self)@ + 8,
            word == le_word(buf@.subrange(old(self)@ as int, old(self)@ + 8int)),
    {
        let w = load_word_le(buf, self.offset);
        self.offset = self.offset + 8;
        w
    }
}

} // verus!
