//! Which chunks of a file are done: one bit for each.
use crate::outside::bits::BitStorage;
use crate::outside::encoding::{base64_decode, base64_encode, Base64Fault};
use vstd::prelude::*;

verus! {

/// One bit for each chunk of a file, set when the chunk is done.
pub struct ChunkBitmap {
    pub bits: BitStorage,
}

/// Why a text is not the writing of a bitmap.
#[derive(Debug, Clone, Copy, PartialEq, Eq, Structural)]
pub enum BitmapError {
    /// The text is not Base64.
    NotBase64(Base64Fault),
    /// The bytes are not a whole number of words, or more than a bitmap can hold.
    NotWords { len: usize },
}

impl View for ChunkBitmap {
    type V = Seq<bool>;

    open spec fn view(&self) -> Seq<bool> {
        crate::outside::bits::bits_of(self.bits)
    }
}

/// Bit `i` of a sequence of bytes, counted from the least significant bit of the first
/// byte.
pub open spec fn byte_bit(raw: Seq<u8>, i: int) -> bool {
    (raw[i / 8] >> ((i % 8) as u8)) & 1 == 1
}

/// All the bits of `raw`.
pub open spec fn raw_bits(raw: Seq<u8>) -> Seq<bool> {
    Seq::new(raw.len() * 8, |i: int| byte_bit(raw, i))
}

/// `raw` holds `bits` in as few words of eight bytes as they need, whatever the last
/// word holds behind them.
pub open spec fn holds_bits(raw: Seq<u8>, bits: Seq<bool>) -> bool {
    &&& raw.len() == (bits.len() + 63) / 64 * 8
    &&& forall|i: int| 0 <= i < bits.len() ==> #[trigger] bits[i] == byte_bit(raw, i)
}

/// `text` is the Base64 of `raw`, and reads as `raw`.
pub open spec fn is_written_as(text: Seq<char>, raw: Seq<u8>) -> bool {
    &&& text == crate::outside::encoding::base64_text(raw)
    &&& crate::outside::encoding::base64_data(text) == Ok::<Seq<u8>, Base64Fault>(raw)
}

/// `text` is the Base64 of the bytes whose bits are `bits`, and reads as them.
pub open spec fn is_text_of(text: Seq<char>, bits: Seq<bool>) -> bool {
    exists|raw: Seq<u8>| raw_bits(raw) == bits && #[trigger] is_written_as(text, raw)
}

/// As many bytes as a bitmap can hold, in whole words.
pub open spec fn is_words(len: nat) -> bool {
    len % 8 == 0 && len * 8 <= crate::outside::bits::max_bits()
}

/// Bit `b` of byte `k` behind position `from` is bit `8 * k + b` of `word`.
pub open spec fn spells_bit(raw: Seq<u8>, from: int, word: u64, k: int, b: int) -> bool {
    ((raw[from + k] >> (b as u8)) & 1 == 1) == ((word >> ((8 * k + b) as u64)) & 1 == 1)
}

/// The eight bytes of `raw` from position `from` on are those of `word`, the least
/// significant first.
pub open spec fn spells_word(raw: Seq<u8>, from: int, word: u64) -> bool {
    forall|k: int, b: int|
        0 <= k < 8 && 0 <= b < 8 ==> #[trigger] spells_bit(raw, from, word, k, b)
}

/// Puts the bytes of `word`, the least significant first, behind `out`.
fn push_word(out: &mut Vec<u8>, word: u64)
    ensures
        final(out)@.len() == old(out)@.len() + 8,
        final(out)@.take(old(out)@.len() as int) == old(out)@,
        spells_word(final(out)@, old(out)@.len() as int, word),
{
    let ghost before = out@;
    for k in 0..8u64
        invariant
            out@.len() == before.len() + k,
            out@.take(before.len() as int) == before,
            forall|m: int, b: int|
                0 <= m < k && 0 <= b < 8 ==> #[trigger] spells_bit(
                    out@,
                    before.len() as int,
                    word,
                    m,
                    b,
                ),
    {
        let byte: u8 = ((word >> (8 * k)) & 0xff) as u8;
        let ghost last = out@;
        out.push(byte);
        assert forall|m: int, b: int| 0 <= m < k + 1 && 0 <= b < 8 implies #[trigger] spells_bit(
            out@,
            before.len() as int,
            word,
            m,
            b,
        ) by {
            if m < k {
                assert(spells_bit(last, before.len() as int, word, m, b));
            } else {
                let c: u8 = b as u8;
                let d: u64 = (8 * k + b) as u64;
                assert((byte >> c) & 1 == 1 <==> (word >> d) & 1 == 1) by (bit_vector)
                    requires
                        byte == ((word >> (8 * k)) & 0xff) as u8,
                        c < 8,
                        k < 8,
                        d == 8 * k + c,
                ;
            }
        }
    }
}

/// The word whose bytes, the least significant first, start at `from` in `raw`.
fn read_word(raw: &[u8], from: usize) -> (word: u64)
    requires
        from + 8 <= raw@.len(),
    ensures
        spells_word(raw@, from as int, word),
{
    let mut word: u64 = 0;
    let len: usize = raw.len();
    assert(0u64 >> 0u64 == 0) by (bit_vector);
    for k in 0..8usize
        invariant
            from + 8 <= raw@.len(),
            len == raw@.len(),
            k < 8 ==> word >> ((8 * k) as u64) == 0,
            forall|m: int, b: int|
                0 <= m < k && 0 <= b < 8 ==> #[trigger] spells_bit(raw@, from as int, word, m, b),
    {
        let byte: u8 = raw[from + k];
        let at: u64 = (8 * k) as u64;
        let next: u64 = word | ((byte as u64) << at);
        assert(at < 56 ==> next >> ((at + 8) as u64) == 0) by (bit_vector)
            requires
                next == word | ((byte as u64) << at),
                word >> at == 0,
                at <= 56,
        ;
        assert forall|m: int, b: int| 0 <= m < k + 1 && 0 <= b < 8 implies #[trigger] spells_bit(
            raw@,
            from as int,
            next,
            m,
            b,
        ) by {
            let c: u8 = b as u8;
            let d: u64 = (8 * m + b) as u64;
            if m == k {
                assert((byte >> c) & 1 == 1 <==> (next >> d) & 1 == 1) by (bit_vector)
                    requires
                        next == word | ((byte as u64) << at),
                        word >> at == 0,
                        at <= 56,
                        c < 8,
                        d == at + c,
                ;
            } else {
                assert(spells_bit(raw@, from as int, word, m, b));
                assert((word >> d) & 1 == 1 <==> (next >> d) & 1 == 1) by (bit_vector)
                    requires
                        next == word | ((byte as u64) << at),
                        d < at,
                        at <= 56,
                ;
            }
        }
        word = next;
    }
    word
}

/// Word by word, `raw` spells `words`.
pub open spec fn spells_words(raw: Seq<u8>, words: Seq<u64>) -> bool {
    forall|j: int| 0 <= j < words.len() ==> spells_word(raw, 8 * j, #[trigger] words[j])
}

proof fn lemma_word_bit_is_byte_bit(raw: Seq<u8>, words: Seq<u64>, i: int)
    requires
        spells_words(raw, words),
        0 <= i < words.len() * 64,
    ensures
        crate::outside::bits::word_bit(words, i) == byte_bit(raw, i),
{
    let j = i / 64;
    let k = (i % 64) / 8;
    let b = i % 8;
    assert(8 * k + b == i % 64);
    assert(8 * j + k == i / 8);
    assert(spells_word(raw, 8 * j, words[j]));
    assert(spells_bit(raw, 8 * j, words[j], k, b));
}

impl ChunkBitmap {
    /// All the bits of the words that hold the bitmap: its own, and what the last word
    /// holds behind them.
    pub open spec fn all_bits(self) -> Seq<bool> {
        self@ + crate::outside::bits::tail_of(self.bits)
    }

    /// The last word holds nothing behind the bitmap.
    pub open spec fn is_clean(self) -> bool {
        crate::outside::bits::tail_of(self.bits) == crate::outside::bits::clear(
            crate::outside::bits::padding(self@.len()),
        )
    }

    /// A bitmap for `total_chunks` chunks, none of them done.
    pub fn new(total_chunks: u64) -> (r: ChunkBitmap)
        requires
            total_chunks <= crate::outside::bits::max_bits(),
        ensures
            r@ == Seq::new(total_chunks as nat, |i: int| false),
            r.is_clean(),
    {
        ChunkBitmap { bits: BitStorage::repeat_false(total_chunks as usize) }
    }

    /// How many chunks the bitmap is for.
    pub fn len(&self) -> (r: u64)
        ensures
            r == self@.len(),
            r <= crate::outside::bits::max_bits(),
    {
        self.bits.len() as u64
    }

    /// Marks one chunk as done and leaves the others.
    pub fn mark_completed(&mut self, chunk_id: u64)
        requires
            chunk_id < old(self)@.len(),
        ensures
            final(self)@ == old(self)@.update(chunk_id as int, true),
            old(self).is_clean() ==> final(self).is_clean(),
            final(self).all_bits() == old(self).all_bits().update(chunk_id as int, true),
    {
        let len: usize = self.bits.len();
        assert(chunk_id < len);
        self.bits.set(chunk_id as usize, true);
        assert(self.all_bits() =~= old(self).all_bits().update(chunk_id as int, true));
    }

    /// Whether a chunk is done.
    pub fn is_completed(&self, chunk_id: u64) -> (r: bool)
        requires
            chunk_id < self@.len(),
        ensures
            r == self@[chunk_id as int],
    {
        let len: usize = self.bits.len();
        assert(chunk_id < len);
        self.bits.get(chunk_id as usize)
    }

    /// Whether every chunk is done.
    pub fn all_completed(&self) -> (r: bool)
        ensures
            r == crate::outside::bits::all_set(self@),
    {
        self.bits.all()
    }

    /// How many chunks are done.
    pub fn completed_count(&self) -> (r: u64)
        ensures
            r == crate::outside::bits::count_set(self@),
    {
        self.bits.count_ones() as u64
    }

    /// How many chunks are not done.
    pub fn pending_count(&self) -> (r: u64)
        ensures
            r == self@.len() - crate::outside::bits::count_set(self@),
    {
        proof {
            lemma_count_bound(self@);
        }
        (self.bits.len() - self.bits.count_ones()) as u64
    }

    /// The chunks that are done, from the first to the last.
    pub fn completed_ids(&self) -> (r: Vec<u64>)
        ensures
            crate::outside::bits::lists_positions(r@, self@, true),
    {
        self.bits.ones()
    }

    /// The chunks that are not done, from the first to the last.
    pub fn pending_ids(&self) -> (r: Vec<u64>)
        ensures
            crate::outside::bits::lists_positions(r@, self@, false),
    {
        self.bits.zeros()
    }

    /// Keeps the first `total_chunks` bits when there are more. What was cut off stays in
    /// the last word.
    pub fn truncate(&mut self, total_chunks: u64)
        ensures
            final(self).all_bits() == if total_chunks < old(self)@.len() {
                old(self).all_bits().take(
                    (total_chunks + crate::outside::bits::padding(total_chunks as nat)) as int,
                )
            } else {
                old(self).all_bits()
            },
            final(self)@ == if total_chunks < old(self)@.len() {
                old(self)@.take(total_chunks as int)
            } else {
                old(self)@
            },
    {
        let len: usize = self.bits.len();
        if (len as u64) > total_chunks {
            self.bits.truncate(total_chunks as usize);
            assert(self.all_bits() =~= old(self).all_bits().take(
                (total_chunks + crate::outside::bits::padding(total_chunks as nat)) as int,
            ));
        }
    }

    /// The bytes of the words that hold the bits.
    pub fn to_raw(&self) -> (raw: Vec<u8>)
        ensures
            raw_bits(raw@) == self.all_bits(),
            holds_bits(raw@, self@),
            self@.len() + 63 <= crate::outside::bits::max_bits() ==> is_words(raw@.len()),
            raw@.len() <= usize::MAX / 64 + 8,
    {
        let len: usize = self.bits.len();
        let words = self.bits.raw_words();
        let mut raw: Vec<u8> = Vec::new();
        for w in 0..words.len()
            invariant
                raw@.len() == 8 * w,
                spells_words(raw@, words@.take(w as int)),
        {
            let ghost before = raw@;
            push_word(&mut raw, words[w]);
            proof {
                let done = words@.take(w + 1);
                assert forall|j: int| 0 <= j < done.len() implies spells_word(
                    raw@,
                    8 * j,
                    #[trigger] done[j],
                ) by {
                    if j < w {
                        assert(words@.take(w as int)[j] == done[j]);
                        assert forall|k: int, b: int|
                            0 <= k < 8 && 0 <= b < 8 implies #[trigger] spells_bit(
                            raw@,
                            8 * j,
                            done[j],
                            k,
                            b,
                        ) by {
                            assert(spells_bit(before, 8 * j, done[j], k, b));
                            assert(raw@[8 * j + k] == raw@.take(before.len() as int)[8 * j + k]);
                        }
                    }
                }
            }
        }
        assert(words@.take(words@.len() as int) == words@);
        assert forall|i: int| 0 <= i < words@.len() * 64 implies #[trigger] self.all_bits()[i]
            == byte_bit(raw@, i) by {
            lemma_word_bit_is_byte_bit(raw@, words@, i);
            assert(crate::outside::bits::word_bit(words@, i) == self.all_bits()[i]);
        }
        assert(raw_bits(raw@) =~= self.all_bits());
        assert forall|i: int| 0 <= i < self@.len() implies #[trigger] self@[i] == byte_bit(
            raw@,
            i,
        ) by {
            assert(self.all_bits()[i] == self@[i]);
        }
        raw
    }

    /// The bitmap that the bytes of whole words hold: every bit of them.
    pub fn from_raw(raw: &[u8]) -> (r: ChunkBitmap)
        requires
            is_words(raw@.len()),
        ensures
            r@ == raw_bits(raw@),
            r.is_clean(),
    {
        let mut words: Vec<u64> = Vec::new();
        let count: usize = raw.len() / 8;
        for w in 0..count
            invariant
                raw@.len() == 8 * count,
                words@.len() == w,
                spells_words(raw@, words@),
        {
            let len: usize = raw.len();
            let word: u64 = read_word(raw, 8 * w);
            words.push(word);
        }
        let r = ChunkBitmap { bits: BitStorage::from_words(words.as_slice()) };
        proof {
            assert forall|i: int| 0 <= i < r@.len() implies #[trigger] r@[i] == raw_bits(
                raw@,
            )[i] by {
                lemma_word_bit_is_byte_bit(raw@, words@, i);
            }
            assert(r@ =~= raw_bits(raw@));
            assert(crate::outside::bits::tail_of(r.bits) =~= crate::outside::bits::clear(
                crate::outside::bits::padding(r@.len()),
            ));
        }
        r
    }

    /// The bitmap as text: the Base64 of its bytes.
    pub fn to_base64(&self) -> (r: String)
        ensures
            is_text_of(r@, self.all_bits()),
    {
        let raw = self.to_raw();
        let r = base64_encode(raw.as_slice());
        assert(is_written_as(r@, raw@));
        r
    }

    /// Reads a bitmap from text. It is for as many chunks as its words have bits, so
    /// it may be longer than the one that was written.
    pub fn from_base64(text: &str) -> (r: Result<ChunkBitmap, BitmapError>)
        ensures
            match crate::outside::encoding::base64_data(text@) {
                Err(fault) => r == Err::<ChunkBitmap, BitmapError>(BitmapError::NotBase64(fault)),
                Ok(raw) => if is_words(raw.len()) {
                    r is Ok && r->Ok_0@ == raw_bits(raw) && r->Ok_0.is_clean()
                } else {
                    r == Err::<ChunkBitmap, BitmapError>(
                        BitmapError::NotWords { len: raw.len() as usize },
                    )
                },
            },
    {
        match base64_decode(text) {
            Err(fault) => Err(BitmapError::NotBase64(fault)),
            Ok(raw) => {
                let len: usize = raw.len();
                if len % 8 != 0 || len > usize::MAX / 64 {
                    assert(!is_words(len as nat));
                    Err(BitmapError::NotWords { len })
                } else {
                    assert(is_words(len as nat));
                    Ok(ChunkBitmap::from_raw(raw.as_slice()))
                }
            },
        }
    }
}

impl Clone for ChunkBitmap {
    fn clone(&self) -> (r: ChunkBitmap)
        ensures
            r@ == self@,
            r.is_clean(),
    {
        ChunkBitmap { bits: self.bits.duplicate() }
    }
}

proof fn lemma_count_bound(bits: Seq<bool>)
    ensures
        crate::outside::bits::count_set(bits) <= bits.len(),
    decreases bits.len(),
{
    if bits.len() > 0 {
        lemma_count_bound(bits.drop_last());
    }
}

/// No chunk from number `total` on is marked.
pub open spec fn only_below(bits: Seq<bool>, total: nat) -> bool {
    forall|i: int| total <= i < bits.len() ==> !#[trigger] bits[i]
}

/// Clear bits behind a bitmap do not count.
pub proof fn law_only_marks_count(bits: Seq<bool>, total: nat)
    requires
        only_below(bits, total),
        total <= bits.len(),
    ensures
        crate::outside::bits::count_set(bits) == crate::outside::bits::count_set(
            bits.take(total as int),
        ),
    decreases bits.len(),
{
    if bits.len() == total {
        assert(bits.take(total as int) == bits);
    } else {
        let rest = bits.drop_last();
        assert forall|i: int| total <= i < rest.len() implies !#[trigger] rest[i] by {
            assert(rest[i] == bits[i]);
        }
        law_only_marks_count(rest, total);
        assert(rest.take(total as int) == bits.take(total as int));
        assert(!bits[bits.len() - 1]);
    }
}

/// A bitmap behind which nothing stands, written and read back, holds the same bits and
/// clear ones up to the end of the last word: as many chunks are done as before.
pub proof fn law_written_bitmap_is_read(bitmap: ChunkBitmap, text: Seq<char>)
    requires
        bitmap.is_clean(),
        is_text_of(text, bitmap.all_bits()),
    ensures
        crate::outside::encoding::base64_data(text) is Ok,
        ({
            let raw = crate::outside::encoding::base64_data(text)->Ok_0;
            &&& raw_bits(raw) == bitmap@ + crate::outside::bits::clear(
                crate::outside::bits::padding(bitmap@.len()),
            )
            &&& crate::outside::bits::count_set(raw_bits(raw)) == crate::outside::bits::count_set(
                bitmap@,
            )
            &&& bitmap@.len() + 63 <= crate::outside::bits::max_bits() ==> is_words(raw.len())
        }),
{
    let raw = choose|raw: Seq<u8>|
        raw_bits(raw) == bitmap.all_bits() && #[trigger] is_written_as(text, raw);
    let read = raw_bits(raw);
    assert(read.take(bitmap@.len() as int) =~= bitmap@);
    law_only_marks_count(read, bitmap@.len());
}

/// A bitmap that was written and read back holds the same bits once it is cut to the
/// number of chunks it was for.
pub proof fn law_bitmap_read_back(raw: Seq<u8>, bits: Seq<bool>)
    requires
        holds_bits(raw, bits),
    ensures
        bits.len() + 63 <= crate::outside::bits::max_bits() ==> is_words(raw.len()),
        raw_bits(raw).len() >= bits.len(),
        raw_bits(raw).take(bits.len() as int) == bits,
{
    assert(raw_bits(raw).take(bits.len() as int) =~= bits);
}

/// Done and open chunks add up to all of them.
pub proof fn law_counts_add_up(bits: Seq<bool>)
    ensures
        crate::outside::bits::count_set(bits) + crate::outside::bits::count_set(
            bits.map_values(|b: bool| !b),
        ) == bits.len(),
    decreases bits.len(),
{
    if bits.len() > 0 {
        let rest = bits.drop_last();
        law_counts_add_up(rest);
        assert(bits.map_values(|b: bool| !b).drop_last() == rest.map_values(|b: bool| !b));
    }
}

/// Marking a chunk that was open adds one to the number of done chunks; marking one
/// that was done changes nothing.
pub proof fn law_marking_counts_once(bits: Seq<bool>, id: int)
    requires
        0 <= id < bits.len(),
    ensures
        crate::outside::bits::count_set(bits.update(id, true)) == crate::outside::bits::count_set(
            bits,
        ) + if bits[id] {
            0nat
        } else {
            1nat
        },
        bits[id] ==> bits.update(id, true) == bits,
        bits.update(id, true).update(id, true) == bits.update(id, true),
    decreases bits.len(),
{
    let marked = bits.update(id, true);
    if id == bits.len() - 1 {
        assert(marked.drop_last() == bits.drop_last());
    } else {
        law_marking_counts_once(bits.drop_last(), id);
        assert(marked.drop_last() == bits.drop_last().update(id, true));
    }
    if bits[id] {
        assert(marked =~= bits);
    }
}

/// The order in which chunks are marked does not matter.
pub proof fn law_marking_commutes(bits: Seq<bool>, a: int, b: int)
    requires
        0 <= a < bits.len(),
        0 <= b < bits.len(),
    ensures
        bits.update(a, true).update(b, true) == bits.update(b, true).update(a, true),
{
    assert(bits.update(a, true).update(b, true) =~= bits.update(b, true).update(a, true));
}

/// Every chunk is done just when as many are done as there are.
pub proof fn law_all_done_by_count(bits: Seq<bool>)
    ensures
        crate::outside::bits::all_set(bits) <==> crate::outside::bits::count_set(bits) == bits.len(),
    decreases bits.len(),
{
    lemma_count_bound(bits);
    if bits.len() > 0 {
        let rest = bits.drop_last();
        lemma_count_bound(rest);
        law_all_done_by_count(rest);
        if crate::outside::bits::all_set(bits) {
            assert forall|i: int| 0 <= i < rest.len() implies #[trigger] rest[i] by {
                assert(rest[i] == bits[i]);
            }
            assert(bits[bits.len() - 1]);
        }
        if crate::outside::bits::count_set(bits) == bits.len() {
            assert forall|i: int| 0 <= i < bits.len() implies #[trigger] bits[i] by {
                if i < rest.len() {
                    assert(rest[i]);
                }
            }
        }
    }
}

/// The list of the done chunks has as many entries as chunks are done.
pub proof fn law_listed_ids_counted(ids: Seq<u64>, bits: Seq<bool>)
    requires
        crate::outside::bits::lists_positions(ids, bits, true),
    ensures
        ids.len() == crate::outside::bits::count_set(bits),
    decreases bits.len(),
{
    if bits.len() == 0 {
        if ids.len() > 0 {
            assert(ids[0] < bits.len());
        }
    } else {
        let rest = bits.drop_last();
        let last = bits.len() - 1;
        if bits.last() {
            assert(bits[last] == true);
            let i = choose|i: int| 0 <= i < ids.len() && ids[i] == last;
            if i < ids.len() - 1 {
                assert(ids[i] < ids[ids.len() - 1]);
                assert(ids[ids.len() - 1] < bits.len());
            }
            let fewer = ids.drop_last();
            assert forall|k: int| 0 <= k < fewer.len() implies #[trigger] fewer[k] < rest.len()
                && rest[fewer[k] as int] == true by {
                assert(ids[k] < ids[ids.len() - 1]);
                assert(fewer[k] == ids[k]);
            }
            assert forall|k: int| 0 <= k < rest.len() && #[trigger] rest[k] == true implies exists|
                m: int,
            |
                0 <= m < fewer.len() && fewer[m] == k by {
                assert(bits[k] == true);
                let m = choose|m: int| 0 <= m < ids.len() && ids[m] == k;
                assert(m != ids.len() - 1);
                assert(fewer[m] == k);
            }
            law_listed_ids_counted(fewer, rest);
        } else {
            assert forall|k: int| 0 <= k < ids.len() implies #[trigger] ids[k] < rest.len()
                && rest[ids[k] as int] == true by {
                assert(bits[ids[k] as int] == true);
            }
            assert forall|k: int| 0 <= k < rest.len() && #[trigger] rest[k] == true implies exists|
                m: int,
            |
                0 <= m < ids.len() && ids[m] == k by {
                assert(bits[k] == true);
            }
            law_listed_ids_counted(ids, rest);
        }
    }
}

/// The list of the open chunks has as many entries as chunks are open.
pub proof fn law_pending_ids_counted(ids: Seq<u64>, bits: Seq<bool>)
    requires
        crate::outside::bits::lists_positions(ids, bits, false),
    ensures
        ids.len() == bits.len() - crate::outside::bits::count_set(bits),
{
    let open = bits.map_values(|b: bool| !b);
    assert forall|i: int| 0 <= i < ids.len() implies #[trigger] ids[i] < open.len()
        && open[ids[i] as int] == true by {
        assert(bits[ids[i] as int] == false);
    }
    assert forall|k: int| 0 <= k < open.len() && #[trigger] open[k] == true implies exists|i: int|
        0 <= i < ids.len() && ids[i] == k by {
        assert(bits[k] == false);
    }
    law_listed_ids_counted(ids, open);
    law_counts_add_up(bits);
}

/// The bits of a byte are its binary digits, the least significant first; and the bits of
/// bytes stand one byte behind the other.
pub proof fn law_bits_are_binary_digits(a: Seq<u8>, b: Seq<u8>, byte: u8)
    ensures
        raw_bits(seq![byte]) == seq![
            byte % 2 == 1,
            (byte / 2) % 2 == 1,
            (byte / 4) % 2 == 1,
            (byte / 8) % 2 == 1,
            (byte / 16) % 2 == 1,
            (byte / 32) % 2 == 1,
            (byte / 64) % 2 == 1,
            (byte / 128) % 2 == 1,
        ],
        raw_bits(a + b) == raw_bits(a) + raw_bits(b),
{
    assert((byte >> 0u8) & 1 == 1 <==> byte % 2 == 1) by (bit_vector);
    assert((byte >> 1u8) & 1 == 1 <==> (byte / 2) % 2 == 1) by (bit_vector);
    assert((byte >> 2u8) & 1 == 1 <==> (byte / 4) % 2 == 1) by (bit_vector);
    assert((byte >> 3u8) & 1 == 1 <==> (byte / 8) % 2 == 1) by (bit_vector);
    assert((byte >> 4u8) & 1 == 1 <==> (byte / 16) % 2 == 1) by (bit_vector);
    assert((byte >> 5u8) & 1 == 1 <==> (byte / 32) % 2 == 1) by (bit_vector);
    assert((byte >> 6u8) & 1 == 1 <==> (byte / 64) % 2 == 1) by (bit_vector);
    assert((byte >> 7u8) & 1 == 1 <==> (byte / 128) % 2 == 1) by (bit_vector);
    assert(raw_bits(seq![byte]) =~= seq![
        byte % 2 == 1,
        (byte / 2) % 2 == 1,
        (byte / 4) % 2 == 1,
        (byte / 8) % 2 == 1,
        (byte / 16) % 2 == 1,
        (byte / 32) % 2 == 1,
        (byte / 64) % 2 == 1,
        (byte / 128) % 2 == 1,
    ]);
    assert(raw_bits(a + b) =~= raw_bits(a) + raw_bits(b));
}

/// Two texts of bitmaps that are the same are of the same bits.
pub proof fn law_text_is_of_one_bitmap(text: Seq<char>, a: Seq<bool>, b: Seq<bool>)
    requires
        is_text_of(text, a),
        is_text_of(text, b),
    ensures
        a == b,
        crate::outside::encoding::base64_data(text) is Ok,
        raw_bits(crate::outside::encoding::base64_data(text)->Ok_0) == a,
{
}

/// Behind the bits of a bitmap stands just enough to fill its last word of sixty-four, and
/// what is clear is clear throughout.
pub proof fn law_words_are_filled(len: nat, i: int)
    ensures
        (len + crate::outside::bits::padding(len)) % 64 == 0,
        crate::outside::bits::padding(len) < 64,
        crate::outside::bits::clear(len).len() == len,
        0 <= i < len ==> !crate::outside::bits::clear(len)[i],
        8 * crate::outside::bits::max_bits() <= usize::MAX < 8 * (
        crate::outside::bits::max_bits() + 1),
{
}

/// The chunks that are listed are settled by the bitmap: there is one list only.
pub proof fn law_one_list_of_chunks(a: Seq<u64>, b: Seq<u64>, bits: Seq<bool>, value: bool)
    requires
        crate::outside::bits::lists_positions(a, bits, value),
        crate::outside::bits::lists_positions(b, bits, value),
    ensures
        a.to_set() == b.to_set(),
        forall|k: int|
            0 <= k < bits.len() ==> (#[trigger] bits[k] == value <==> a.contains(k as u64) && k
                == k as u64),
        forall|i: int, j: int| 0 <= i < j < a.len() ==> a[i] < a[j],
{
    assert forall|x: u64| a.contains(x) implies b.contains(x) by {
        let i = choose|i: int| 0 <= i < a.len() && a[i] == x;
        assert(a[i] < bits.len() && bits[a[i] as int] == value);
        assert(bits[x as int] == value);
        let j = choose|j: int| 0 <= j < b.len() && b[j] == x as int;
        assert(b[j] == x);
    }
    assert forall|x: u64| b.contains(x) implies a.contains(x) by {
        let i = choose|i: int| 0 <= i < b.len() && b[i] == x;
        assert(b[i] < bits.len() && bits[b[i] as int] == value);
        assert(bits[x as int] == value);
        let j = choose|j: int| 0 <= j < a.len() && a[j] == x as int;
        assert(a[j] == x);
    }
    assert(a.to_set() =~= b.to_set());
    assert forall|k: int| 0 <= k < bits.len() implies (#[trigger] bits[k] == value <==> a.contains(
        k as u64,
    ) && k == k as u64) by {
        if bits[k] == value {
            let j = choose|j: int| 0 <= j < a.len() && a[j] == k;
            assert(a[j] == k as u64);
        }
        if a.contains(k as u64) && k == k as u64 {
            let j = choose|j: int| 0 <= j < a.len() && a[j] == k as u64;
            assert(bits[a[j] as int] == value);
        }
    }
}

}
