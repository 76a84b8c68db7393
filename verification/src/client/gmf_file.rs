//! A file of equally long chunks behind a header that says how many are there.
use crate::chunk::{open_with_passphrase, OpenError};
use crate::number::decimal_of;
use crate::text::cat5;
use vstd::prelude::*;

verus! {

/// Bytes of a chunk in the file.
pub const CHUNK_SIZE: u64 = 10_485_760;

/// Bytes of the header.
pub const HEADER_SIZE: usize = 24;

/// Where in the header the number of chunks that are there stands.
pub const WRITTEN_COUNT_AT: u64 = 20;

/// The bytes that a file starts with: `gmf temp file`.
pub open spec fn magic() -> Seq<u8> {
    seq![103u8, 109, 102, 32, 116, 101, 109, 112, 32, 102, 105, 108, 101]
}

fn magic_bytes() -> (r: Vec<u8>)
    ensures
        r@ == magic(),
{
    let r: Vec<u8> = vec![103u8, 109, 102, 32, 116, 101, 109, 112, 32, 102, 105, 108, 101];
    assert(r@ =~= magic());
    r
}

/// The four bytes of a number, the least significant first.
pub open spec fn four_bytes(n: u32) -> Seq<u8> {
    seq![
        (n % 256) as u8,
        (n / 256 % 256) as u8,
        (n / 65536 % 256) as u8,
        (n / 16777216) as u8,
    ]
}

/// The number whose four bytes, the least significant first, start at `at`.
pub open spec fn number_at(bytes: Seq<u8>, at: int) -> nat {
    (bytes[at] + 256 * bytes[at + 1] + 65536 * bytes[at + 2] + 16777216 * bytes[at + 3]) as nat
}

/// How many chunks the file is for, and how many are there.
#[derive(Debug, Clone, Copy, PartialEq, Eq, Structural)]
pub struct Header {
    pub chunk_count: u32,
    pub written_count: u32,
}

/// Why there is no header.
#[derive(Debug, Clone, Copy, PartialEq, Eq, Structural)]
pub enum HeaderError {
    /// The file ends before the header does.
    UnexpectedEof,
    /// The file starts with other bytes.
    InvalidMagic,
}

fn push_number(out: &mut Vec<u8>, n: u32)
    ensures
        final(out)@ == old(out)@ + four_bytes(n),
{
    out.push((n % 256) as u8);
    out.push((n / 256 % 256) as u8);
    out.push((n / 65536 % 256) as u8);
    out.push((n / 16777216) as u8);
    assert(out@ =~= old(out)@ + four_bytes(n));
}

impl Header {
    /// The header in the file: the magic bytes, three bytes of padding, and the two
    /// numbers.
    pub open spec fn bytes(self) -> Seq<u8> {
        magic() + seq![0u8, 0, 0] + four_bytes(self.chunk_count) + four_bytes(self.written_count)
    }

    /// Writes the header.
    pub fn to_bytes(&self) -> (r: Vec<u8>)
        ensures
            r@ == self.bytes(),
            r@.len() == HEADER_SIZE,
    {
        let mut buf = magic_bytes();
        buf.push(0);
        buf.push(0);
        buf.push(0);
        assert(buf@ =~= magic() + seq![0u8, 0, 0]);
        push_number(&mut buf, self.chunk_count);
        push_number(&mut buf, self.written_count);
        buf
    }

    /// What a header reads as; the padding does not count.
    pub open spec fn read_as(bytes: Seq<u8>) -> Result<Header, HeaderError> {
        if bytes.len() < HEADER_SIZE {
            Err(HeaderError::UnexpectedEof)
        } else if bytes.take(13) != magic() {
            Err(HeaderError::InvalidMagic)
        } else {
            Ok(
                Header {
                    chunk_count: number_at(bytes, 16) as u32,
                    written_count: number_at(bytes, 20) as u32,
                },
            )
        }
    }

    /// Reads the header at the start of a file.
    pub fn read_from(bytes: &[u8]) -> (r: Result<Header, HeaderError>)
        ensures
            r == Header::read_as(bytes@),
    {
        if bytes.len() < HEADER_SIZE {
            return Err(HeaderError::UnexpectedEof);
        }
        let wanted = magic_bytes();
        for i in 0..13usize
            invariant
                wanted@ == magic(),
                bytes@.len() >= HEADER_SIZE,
                forall|k: int| 0 <= k < i ==> bytes@[k] == magic()[k],
        {
            if bytes[i] != wanted[i] {
                assert(bytes@.take(13)[i as int] != magic()[i as int]);
                return Err(HeaderError::InvalidMagic);
            }
        }
        assert(bytes@.take(13) =~= magic());
        let chunk_count: u32 = bytes[16] as u32 + 256 * bytes[17] as u32 + 65536 * bytes[18] as u32
            + 16777216 * bytes[19] as u32;
        let written_count: u32 = bytes[20] as u32 + 256 * bytes[21] as u32 + 65536
            * bytes[22] as u32 + 16777216 * bytes[23] as u32;
        Ok(Header { chunk_count, written_count })
    }
}

/// A header that was written reads as it was, whatever stands behind it.
pub proof fn law_header_read_back(header: Header, rest: Seq<u8>)
    ensures
        Header::read_as(header.bytes() + rest) == Ok::<Header, HeaderError>(header),
{
    let bytes = header.bytes() + rest;
    assert(bytes.take(13) =~= magic());
    assert(bytes.subrange(16, 20) =~= four_bytes(header.chunk_count));
    assert(bytes.subrange(20, 24) =~= four_bytes(header.written_count));
    lemma_number_read_back(bytes, 16, header.chunk_count);
    lemma_number_read_back(bytes, 20, header.written_count);
}

proof fn lemma_number_read_back(bytes: Seq<u8>, at: int, n: u32)
    requires
        0 <= at,
        at + 4 <= bytes.len(),
        bytes.subrange(at, at + 4) == four_bytes(n),
    ensures
        number_at(bytes, at) == n,
{
    let b = bytes.subrange(at, at + 4);
    assert(b[0] == bytes[at] && b[1] == bytes[at + 1] && b[2] == bytes[at + 2] && b[3] == bytes[at
        + 3]);
    assert(b[0] == n % 256);
    assert(b[1] == n / 256 % 256);
    assert(b[2] == n / 65536 % 256);
    assert(b[3] == n / 16777216);
}

/// Why a chunk was not written.
#[derive(Debug, Clone, Copy, PartialEq, Eq, Structural)]
pub enum WriteError {
    /// Chunks come one after the other.
    OutOfOrder { expected: u32, got: u32 },
    /// The file is not for that many chunks.
    TooMany,
    /// A chunk holds at most `CHUNK_SIZE` bytes.
    TooLarge,
}

impl WriteError {
    /// The error in words.
    pub open spec fn message(self) -> Seq<char> {
        match self {
            WriteError::OutOfOrder { expected, got } => "expected idx "@ + crate::number::decimal(
                expected as nat,
            ) + ", got "@ + crate::number::decimal(got as nat) + " (out of order)"@,
            WriteError::TooMany => "exceeds declared chunk_count"@,
            WriteError::TooLarge => "data larger than CHUNK_SIZE (10 MB)"@,
        }
    }

    /// Puts the error in words.
    pub fn text(&self) -> (r: String)
        ensures
            r@ == self.message(),
    {
        match self {
            WriteError::OutOfOrder { expected, got } => cat5(
                "expected idx ",
                decimal_of(*expected as u64).as_str(),
                ", got ",
                decimal_of(*got as u64).as_str(),
                " (out of order)",
            ),
            WriteError::TooMany => "exceeds declared chunk_count".to_owned(),
            WriteError::TooLarge => "data larger than CHUNK_SIZE (10 MB)".to_owned(),
        }
    }
}

/// An open file.
#[derive(Debug)]
pub struct GmfFile {
    pub header: Header,
}

impl GmfFile {
    /// A new file for `chunk_count` chunks, and the header it starts with.
    pub fn create(chunk_count: u32) -> (r: (GmfFile, Vec<u8>))
        ensures
            r.0.header == (Header { chunk_count, written_count: 0 }),
            r.1@ == r.0.header.bytes(),
    {
        let header = Header { chunk_count, written_count: 0 };
        let bytes = header.to_bytes();
        (GmfFile { header }, bytes)
    }

    /// Opens a file by its header.
    pub fn verify_and_open(bytes: &[u8]) -> (r: Result<GmfFile, HeaderError>)
        ensures
            match Header::read_as(bytes@) {
                Ok(header) => r matches Ok(f) && f.header == header,
                Err(e) => r == Err::<GmfFile, HeaderError>(e),
            },
    {
        match Header::read_from(bytes) {
            Ok(header) => Ok(GmfFile { header }),
            Err(e) => Err(e),
        }
    }

    /// Whether a chunk is there.
    pub fn is_chunk_present(&self, idx: u32) -> (r: bool)
        ensures
            r == (idx < self.header.written_count),
    {
        idx < self.header.written_count
    }

    /// Why chunk `idx` with `len` bytes cannot be written, if it cannot.
    pub open spec fn refusal(self, idx: u32, len: nat) -> Option<WriteError> {
        if idx != self.header.written_count {
            Some(WriteError::OutOfOrder { expected: self.header.written_count, got: idx })
        } else if idx >= self.header.chunk_count {
            Some(WriteError::TooMany)
        } else if len > CHUNK_SIZE {
            Some(WriteError::TooLarge)
        } else {
            None
        }
    }

    /// What is appended to the file for a chunk: the chunk, and zeros up to its full size.
    pub open spec fn padded(data: Seq<u8>) -> Seq<u8> {
        data + Seq::new((CHUNK_SIZE - data.len()) as nat, |i: int| 0u8)
    }

    /// Takes the next chunk: what to append to the file. Nothing is counted yet.
    pub fn write_chunk(&self, idx: u32, data: &[u8]) -> (r: Result<Vec<u8>, WriteError>)
        ensures
            match self.refusal(idx, data@.len()) {
                Some(e) => r == Err::<Vec<u8>, WriteError>(e),
                None => r matches Ok(appended) && appended@ == GmfFile::padded(data@)
                    && appended@.len() == CHUNK_SIZE,
            },
    {
        if idx != self.header.written_count {
            return Err(
                WriteError::OutOfOrder { expected: self.header.written_count, got: idx },
            );
        }
        if idx >= self.header.chunk_count {
            return Err(WriteError::TooMany);
        }
        if data.len() as u64 > CHUNK_SIZE {
            return Err(WriteError::TooLarge);
        }
        let mut out: Vec<u8> = Vec::new();
        out.extend_from_slice(data);
        let missing: u64 = CHUNK_SIZE - data.len() as u64;
        for i in 0..missing
            invariant
                missing == CHUNK_SIZE - data@.len(),
                out@ == data@ + Seq::new(i as nat, |k: int| 0u8),
        {
            out.push(0);
            assert(out@ =~= data@ + Seq::new((i + 1) as nat, |k: int| 0u8));
        }
        Ok(out)
    }

    /// Counts the chunk that was appended: what to write over the header from
    /// `WRITTEN_COUNT_AT` on.
    pub fn chunk_appended(&mut self) -> (r: Vec<u8>)
        requires
            old(self).header.written_count < old(self).header.chunk_count,
        ensures
            final(self).header == (Header {
                chunk_count: old(self).header.chunk_count,
                written_count: (old(self).header.written_count + 1) as u32,
            }),
            r@ == four_bytes(final(self).header.written_count),
    {
        self.header.written_count = self.header.written_count + 1;
        let mut out: Vec<u8> = Vec::new();
        push_number(&mut out, self.header.written_count);
        assert(out@ =~= four_bytes(self.header.written_count));
        out
    }

    pub fn header(&self) -> (r: &Header)
        ensures
            *r == self.header,
    {
        &self.header
    }
}

/// `file` is a file with this header: the header, and as many full chunks as it says.
pub open spec fn is_laid_out(file: Seq<u8>, header: Header) -> bool {
    &&& file.len() == HEADER_SIZE + header.written_count * CHUNK_SIZE
    &&& file.take(HEADER_SIZE as int) == header.bytes()
    &&& header.written_count <= header.chunk_count
}

/// Chunk `idx` of a file.
pub open spec fn chunk_in(file: Seq<u8>, idx: nat) -> Seq<u8> {
    file.subrange(
        (HEADER_SIZE + idx * CHUNK_SIZE) as int,
        (HEADER_SIZE + (idx + 1) * CHUNK_SIZE) as int,
    )
}

/// A new file is laid out as its header says.
pub proof fn law_created_is_laid_out(chunk_count: u32)
    ensures
        is_laid_out(
            (Header { chunk_count, written_count: 0 }).bytes(),
            Header { chunk_count, written_count: 0 },
        ),
{
    let header = Header { chunk_count, written_count: 0 };
    assert(header.bytes().take(HEADER_SIZE as int) =~= header.bytes());
}

/// Appending the next chunk and counting it keeps the layout: the chunk is there, and
/// every chunk before it is as it was.
pub proof fn law_append_keeps_layout(file: Seq<u8>, header: Header, data: Seq<u8>)
    requires
        is_laid_out(file, header),
        header.written_count < header.chunk_count,
        data.len() <= CHUNK_SIZE,
    ensures
        ({
            let next = Header {
                chunk_count: header.chunk_count,
                written_count: (header.written_count + 1) as u32,
            };
            let after = crate::client::file::patched(
                file + GmfFile::padded(data),
                WRITTEN_COUNT_AT as int,
                four_bytes(next.written_count),
            );
            &&& is_laid_out(after, next)
            &&& chunk_in(after, header.written_count as nat) == GmfFile::padded(data)
            &&& forall|idx: nat|
                idx < header.written_count ==> #[trigger] chunk_in(after, idx) == chunk_in(
                    file,
                    idx,
                )
        }),
{
    let next = Header {
        chunk_count: header.chunk_count,
        written_count: (header.written_count + 1) as u32,
    };
    let added = GmfFile::padded(data);
    let grown = file + added;
    let number = four_bytes(next.written_count);
    let after = crate::client::file::patched(grown, WRITTEN_COUNT_AT as int, number);
    let head = header.bytes();
    assert(head.len() == 24);
    assert forall|i: int| 0 <= i < 24 implies after.take(24)[i] == next.bytes()[i] by {
        assert(file.take(24)[i] == file[i]);
        assert(grown[i] == head[i]);
        if i >= 20 {
            assert(after[i] == number[i - 20]);
        }
    }
    assert(after.take(HEADER_SIZE as int) =~= next.bytes());
    let w = header.written_count as nat;
    assert(chunk_in(after, w) =~= added) by {
        assert forall|i: int| 0 <= i < added.len() implies chunk_in(after, w)[i] == added[i] by {
            assert(after[file.len() + i] == grown[file.len() + i]);
        }
    }
    assert forall|idx: nat| idx < header.written_count implies #[trigger] chunk_in(after, idx)
        == chunk_in(file, idx) by {
        assert((idx + 1) * CHUNK_SIZE <= w * CHUNK_SIZE) by (nonlinear_arith)
            requires
                idx + 1 <= w,
        ;
        assert(chunk_in(after, idx) =~= chunk_in(file, idx));
    }
}

/// Whether a chunk that was fetched opens under a key in Base64.
pub fn chunk_handle(_chunk_id: u32, data: &[u8], key_b64: &str) -> (r: Result<(), OpenError>)
    ensures
        match crate::chunk::opened_with_passphrase(key_b64@, data@) {
            Ok(_) => r is Ok,
            Err(e) => r == Err::<(), OpenError>(e),
        },
{
    match open_with_passphrase(key_b64, data) {
        Ok(_) => Ok(()),
        Err(e) => Err(e),
    }
}

/// A file starts with the words `gmf temp file` and three zeros, and then says how many
/// chunks it is for and how many are there, in four bytes each; the chunks stand behind that.
pub proof fn law_header_layout(header: Header)
    ensures
        header.bytes().len() == 24,
        HEADER_SIZE == 24,
        header.bytes().take(13) == "gmf temp file"@.map_values(|c: char| c as u8),
        header.bytes().subrange(13, 16) == seq![0u8, 0, 0],
        header.bytes().subrange(16, 20) == four_bytes(header.chunk_count),
        header.bytes().subrange(WRITTEN_COUNT_AT as int, 24) == four_bytes(header.written_count),
{
    reveal_strlit("gmf temp file");
    let b = header.bytes();
    assert(b.take(13) =~= magic());
    assert(magic() =~= "gmf temp file"@.map_values(|c: char| c as u8));
    assert(b.subrange(13, 16) =~= seq![0u8, 0, 0]);
    assert(b.subrange(16, 20) =~= four_bytes(header.chunk_count));
    assert(b.subrange(20, 24) =~= four_bytes(header.written_count));
}

/// The four bytes of a number make it up, the least significant first, and are read back.
pub proof fn law_four_bytes_make_up_the_number(n: u32)
    ensures
        four_bytes(n).len() == 4,
        four_bytes(n)[0] + 256 * four_bytes(n)[1] + 65536 * four_bytes(n)[2] + 16777216
            * four_bytes(n)[3] == n,
        number_at(four_bytes(n), 0) == n,
{
    assert(four_bytes(n).subrange(0, 4) =~= four_bytes(n));
    lemma_number_read_back(four_bytes(n), 0, n);
}

/// A file is known by how it starts: one that is long enough and starts with the words is
/// read, whatever stands in the padding and behind the header, and no other is.
pub proof fn law_file_is_known_by_its_start(bytes: Seq<u8>)
    ensures
        bytes.len() >= 24 && bytes.take(13) == magic() ==> (Header::read_as(bytes) matches Ok(h)
            && h.chunk_count == number_at(bytes, 16) && h.written_count == number_at(bytes, 20)),
        bytes.len() < 24 ==> Header::read_as(bytes) == Err::<Header, HeaderError>(
            HeaderError::UnexpectedEof,
        ),
        bytes.len() >= 24 && bytes.take(13) != magic() ==> Header::read_as(bytes) == Err::<
            Header,
            HeaderError,
        >(HeaderError::InvalidMagic),
{
    if bytes.len() >= 24 {
        assert(number_at(bytes, 16) <= u32::MAX);
        assert(number_at(bytes, 20) <= u32::MAX);
    }
}

/// Chunks are written one after the other: the next one is taken whenever the file is for
/// more and it is not too long, and no other chunk is.
pub proof fn law_next_chunk_is_taken(f: GmfFile, idx: u32, len: nat)
    ensures
        f.refusal(idx, len) is None <==> idx == f.header.written_count && idx
            < f.header.chunk_count && len <= 10 * 1024 * 1024,
        idx != f.header.written_count ==> f.refusal(idx, len) == Some(
            WriteError::OutOfOrder { expected: f.header.written_count, got: idx },
        ),
        idx == f.header.written_count && idx >= f.header.chunk_count ==> f.refusal(idx, len)
            == Some(WriteError::TooMany),
        idx == f.header.written_count && idx < f.header.chunk_count && len > 10 * 1024 * 1024
            ==> f.refusal(idx, len) == Some(WriteError::TooLarge),
{
}

/// A chunk takes its full size in the file: it stands at the front, and zeros behind it.
pub proof fn law_padded_chunk_starts_with_the_data(data: Seq<u8>)
    requires
        data.len() <= CHUNK_SIZE,
    ensures
        GmfFile::padded(data).len() == 10 * 1024 * 1024,
        GmfFile::padded(data).take(data.len() as int) == data,
        forall|i: int|
            data.len() <= i < GmfFile::padded(data).len() ==> #[trigger] GmfFile::padded(data)[i]
                == 0,
{
    assert(GmfFile::padded(data).take(data.len() as int) =~= data);
}

/// The words about a chunk out of order say which was expected, and which came.
pub proof fn law_out_of_order_is_told(expected: u32, got: u32)
    ensures
        crate::text::occurs(
            (WriteError::OutOfOrder { expected, got }).message(),
            "expected idx "@ + crate::number::decimal(expected as nat) + ", got "@
                + crate::number::decimal(got as nat),
        ),
{
    let n = "expected idx "@ + crate::number::decimal(expected as nat) + ", got "@
        + crate::number::decimal(got as nat);
    let none = Seq::<char>::empty();
    assert((WriteError::OutOfOrder { expected, got }).message() =~= none + n
        + " (out of order)"@);
    crate::text::law_part_occurs(none, n, " (out of order)"@);
}

}
