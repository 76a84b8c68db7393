//! Cutting a file into encrypted chunks with a manifest, and putting it together
//! again.
use crate::number::decimal_of;
use crate::outside::cipher::{gcm_open, gcm_seal, random_bytes, random_u64};
use crate::outside::digest::sha256_digest;
use crate::outside::encoding::{base64_decode, base64_encode, hex_encode, Base64Fault};
use crate::path::{file_name_of, with_file_name};
use crate::text::{cat2, cat3, cat5, chars_of, find, rfind, same, string_of, trim};
use vstd::prelude::*;
use vstd::slice::*;

verus! {

/// Bytes of the nonce in front of every encrypted chunk.
pub const NONCE_SIZE: usize = 12;

/// Bytes of the tag at the end of every encrypted chunk.
pub const TAG_SIZE: usize = 16;

/// Bytes of the key of a chunk.
pub const KEY_SIZE: usize = 32;

/// Bytes of the file in a full chunk: ten mebibytes.
pub const CHUNK_SIZE: usize = 10_485_760;

/// One chunk of a file in the manifest.
#[derive(Debug)]
pub struct ChunkInfo {
    /// Number of the chunk, counted from one.
    pub id: u32,
    /// Name of the file that holds the encrypted chunk.
    pub filename: String,
    /// The chunk's random key, in Base64.
    pub passphrase_b64: String,
    /// SHA-256 of the encrypted chunk, in hexadecimal.
    pub sha256: String,
    /// Bytes of the encrypted chunk.
    pub size: u64,
}

/// The list of all chunks of a file.
#[derive(Debug)]
pub struct ManifestFile {
    pub filename: String,
    pub total_size: u64,
    pub chunk_size: usize,
    pub total_chunks: u32,
    pub chunks: Vec<ChunkInfo>,
}

/// Why a chunk could not be encrypted: it is longer than the cipher allows.
#[derive(Debug, Clone, Copy, PartialEq, Eq, Structural)]
pub struct SealError {
    /// Bytes of the chunk.
    pub len: usize,
}

/// Why an encrypted chunk could not be opened.
#[derive(Debug, Clone, Copy, PartialEq, Eq, Structural)]
pub enum OpenError {
    /// There is no file with the chunk.
    Missing { id: u32 },
    /// The chunk has another size than the manifest says.
    SizeMismatch { id: u32, expected: u64, actual: u64 },
    /// The chunk has another SHA-256 than the manifest says.
    HashMismatch { id: u32 },
    /// The passphrase is not Base64.
    PassphraseNotBase64(Base64Fault),
    /// The passphrase does not encode a key of thirty-two bytes.
    KeyLength { len: usize },
    /// The chunk is too short to hold a nonce.
    TooShort,
    /// The cipher refused the chunk.
    CipherFailed,
}

/// A chunk as it is stored: the nonce, then the ciphertext with its tag.
pub open spec fn sealed_chunk(key: Seq<u8>, nonce: Seq<u8>, plain: Seq<u8>) -> Seq<u8> {
    nonce + crate::outside::cipher::gcm_sealed(key, nonce, plain)
}

/// What a stored chunk opens to under a key of the right length.
pub open spec fn opened_chunk(key: Seq<u8>, data: Seq<u8>) -> Result<Seq<u8>, OpenError> {
    if data.len() < NONCE_SIZE {
        Err(OpenError::TooShort)
    } else {
        match crate::outside::cipher::gcm_opened(
            key,
            data.take(NONCE_SIZE as int),
            data.skip(NONCE_SIZE as int),
        ) {
            Some(plain) => Ok(plain),
            None => Err(OpenError::CipherFailed),
        }
    }
}

/// What a stored chunk opens to under a key in Base64.
pub open spec fn opened_with_passphrase(passphrase_b64: Seq<char>, data: Seq<u8>) -> Result<
    Seq<u8>,
    OpenError,
> {
    match crate::outside::encoding::base64_data(passphrase_b64) {
        Err(fault) => Err(OpenError::PassphraseNotBase64(fault)),
        Ok(key) => if key.len() != KEY_SIZE {
            Err(OpenError::KeyLength { len: key.len() as usize })
        } else {
            opened_chunk(key, data)
        },
    }
}

/// What a stored chunk opens to when the manifest gives it this size, digest and
/// passphrase.
pub open spec fn checked_and_opened(
    id: u32,
    size: u64,
    sha256: Seq<char>,
    passphrase_b64: Seq<char>,
    data: Seq<u8>,
) -> Result<Seq<u8>, OpenError> {
    if data.len() != size {
        Err(OpenError::SizeMismatch { id, expected: size, actual: data.len() as u64 })
    } else if crate::outside::encoding::hex_text(crate::outside::digest::sha256(data)) != sha256 {
        Err(OpenError::HashMismatch { id })
    } else {
        opened_with_passphrase(passphrase_b64, data)
    }
}

/// What a stored chunk opens to under its entry in the manifest.
pub open spec fn opened_as(info: ChunkInfo, data: Seq<u8>) -> Result<Seq<u8>, OpenError> {
    checked_and_opened(info.id, info.size, info.sha256@, info.passphrase_b64@, data)
}

/// `r` is the outcome `s`, with the bytes that `s` names.
pub open spec fn is_outcome<E>(r: Result<Vec<u8>, E>, s: Result<Seq<u8>, E>) -> bool {
    match r {
        Ok(v) => s == Ok::<Seq<u8>, E>(v@),
        Err(e) => s == Err::<Seq<u8>, E>(e),
    }
}

/// A fresh key from the system's generator.
pub fn generate_key() -> (key: [u8; 32]) {
    random_bytes::<32>()
}

/// `other` is the stored chunk `data` with another tag: only its last sixteen bytes
/// differ.
pub open spec fn has_other_tag(other: Seq<u8>, data: Seq<u8>) -> bool {
    &&& other.len() == data.len()
    &&& data.len() >= TAG_SIZE
    &&& other.take(data.len() - TAG_SIZE) == data.take(data.len() - TAG_SIZE)
    &&& other != data
}

/// The stored chunk `data` opens under `key` with its own tag only.
pub open spec fn tag_is_only_one(key: Seq<u8>, data: Seq<u8>) -> bool {
    forall|other: Seq<u8>| #[trigger]
        has_other_tag(other, data) ==> opened_chunk(key, other) == Err::<Seq<u8>, OpenError>(
            OpenError::CipherFailed,
        )
}

/// `other` is the stored chunk `data` with another nonce: only its first twelve bytes
/// differ.
pub open spec fn has_other_nonce(other: Seq<u8>, data: Seq<u8>) -> bool {
    &&& other.len() == data.len()
    &&& data.len() >= NONCE_SIZE
    &&& other.skip(NONCE_SIZE as int) == data.skip(NONCE_SIZE as int)
    &&& other != data
}

/// The stored chunk `data` opens under `key` with its own nonce only.
pub open spec fn nonce_is_only_one(key: Seq<u8>, data: Seq<u8>) -> bool {
    forall|other: Seq<u8>| #[trigger]
        has_other_nonce(other, data) ==> opened_chunk(key, other) == Err::<Seq<u8>, OpenError>(
            OpenError::CipherFailed,
        )
}

/// Encrypts a chunk under a key and a nonce: the nonce goes in front of the
/// ciphertext. Only a chunk longer than the cipher allows is refused. What comes out
/// opens to the chunk, and no longer does when its nonce or its tag was changed.
pub fn encrypt_chunk_with_nonce(key: &[u8; 32], nonce: &[u8; 12], input: &[u8]) -> (r: Result<
    Vec<u8>,
    SealError,
>)
    requires
        input@.len() + 28 <= isize::MAX,
    ensures
        r is Ok <==> input@.len() <= crate::outside::cipher::max_plain_len(),
        r matches Ok(d) ==> d@ == sealed_chunk(key@, nonce@, input@) && d@.len() == input@.len() + 28
            && opened_chunk(key@, d@) == Ok::<Seq<u8>, OpenError>(input@) && tag_is_only_one(
            key@,
            d@,
        ) && nonce_is_only_one(key@, d@),
        r matches Err(e) ==> e.len == input@.len(),
{
    match gcm_seal(key.as_slice(), nonce.as_slice(), input) {
        Some(mut ciphertext) => {
            let mut result: Vec<u8> = Vec::new();
            result.extend_from_slice(nonce.as_slice());
            let ghost sealed = ciphertext@;
            result.append(&mut ciphertext);
            assert(result@ == nonce@ + sealed);
            assert(result@.take(NONCE_SIZE as int) == nonce@);
            assert(result@.skip(NONCE_SIZE as int) == sealed);
            proof {
                let d = result@;
                let cut = d.len() - TAG_SIZE;
                assert forall|other: Seq<u8>| #[trigger] has_other_tag(other, d) implies opened_chunk(
                    key@,
                    other,
                ) == Err::<Seq<u8>, OpenError>(OpenError::CipherFailed) by {
                    let x = other.skip(NONCE_SIZE as int);
                    let n = input@.len() as int;
                    assert forall|k: int| 0 <= k < cut implies other[k] == d[k] by {
                        assert(other.take(cut)[k] == d.take(cut)[k]);
                    }
                    assert(other.take(NONCE_SIZE as int) =~= nonce@);
                    assert(x.take(n) =~= sealed.take(n));
                    if x == sealed {
                        assert forall|k: int| 0 <= k < d.len() implies other[k] == d[k] by {
                            if k >= NONCE_SIZE {
                                assert(x[k - NONCE_SIZE] == sealed[k - NONCE_SIZE]);
                            }
                        }
                        assert(other =~= d);
                    }
                    assert(crate::outside::cipher::gcm_opened(key@, nonce@, x) is None);
                }
                assert forall|other: Seq<u8>| #[trigger] has_other_nonce(other, d) implies opened_chunk(
                    key@,
                    other,
                ) == Err::<Seq<u8>, OpenError>(OpenError::CipherFailed) by {
                    let n = other.take(NONCE_SIZE as int);
                    if n == nonce@ {
                        assert(other =~= n + other.skip(NONCE_SIZE as int));
                        assert(d =~= nonce@ + sealed);
                    }
                    assert(crate::outside::cipher::gcm_opened(key@, n, sealed) is None);
                }
            }
            Ok(result)
        },
        None => Err(SealError { len: input.len() }),
    }
}

/// Encrypts a chunk under `key` and a fresh nonce.
pub fn encrypt_chunk(key: &[u8; 32], input: &[u8]) -> (r: Result<Vec<u8>, SealError>)
    requires
        input@.len() + 28 <= isize::MAX,
    ensures
        r is Ok <==> input@.len() <= crate::outside::cipher::max_plain_len(),
        r matches Ok(d) ==> d@.len() == input@.len() + 28 && d@ == sealed_chunk(
            key@,
            d@.take(NONCE_SIZE as int),
            input@,
        ) && opened_chunk(key@, d@) == Ok::<Seq<u8>, OpenError>(input@) && tag_is_only_one(
            key@,
            d@,
        ) && nonce_is_only_one(key@, d@),
        r matches Err(e) ==> e.len == input@.len(),
{
    let nonce = random_bytes::<12>();
    let r = encrypt_chunk_with_nonce(key, &nonce, input);
    proof {
        if r is Ok {
            assert((r->Ok_0)@.take(NONCE_SIZE as int) == nonce@);
        }
    }
    r
}

/// Opens a stored chunk under a key. One that is too short for a nonce and a tag does
/// not open; one that opens is longer than what it held by just these.
pub fn decrypt_chunk(key: &[u8], data: &[u8]) -> (r: Result<Vec<u8>, OpenError>)
    requires
        key@.len() == KEY_SIZE,
    ensures
        is_outcome(r, opened_chunk(key@, data@)),
        data@.len() < NONCE_SIZE + TAG_SIZE ==> r is Err,
        r matches Ok(plain) ==> data@.len() == plain@.len() + NONCE_SIZE + TAG_SIZE,
{
    if data.len() < NONCE_SIZE {
        return Err(OpenError::TooShort);
    }
    let nonce = slice_subrange(data, 0, NONCE_SIZE);
    let ciphertext = slice_subrange(data, NONCE_SIZE, data.len());
    assert(nonce@ == data@.take(NONCE_SIZE as int));
    assert(ciphertext@ == data@.skip(NONCE_SIZE as int));
    match gcm_open(key, nonce, ciphertext) {
        Some(plain) => Ok(plain),
        None => Err(OpenError::CipherFailed),
    }
}

/// Opens a stored chunk under a key in Base64.
pub fn open_with_passphrase(passphrase_b64: &str, data: &[u8]) -> (r: Result<Vec<u8>, OpenError>)
    ensures
        is_outcome(r, opened_with_passphrase(passphrase_b64@, data@)),
{
    match base64_decode(passphrase_b64) {
        Err(fault) => Err(OpenError::PassphraseNotBase64(fault)),
        Ok(key) => {
            if key.len() != KEY_SIZE {
                Err(OpenError::KeyLength { len: key.len() })
            } else {
                decrypt_chunk(key.as_slice(), data)
            }
        },
    }
}

/// The SHA-256 of `data` in lower case hexadecimal.
pub fn sha256_hex(data: &[u8]) -> (r: String)
    ensures
        r@ == crate::outside::encoding::hex_text(crate::outside::digest::sha256(data@)),
        r@.len() == 64,
{
    let d = sha256_digest(data);
    hex_encode(d.as_slice())
}

/// Checks size and digest of a stored chunk, and opens it.
pub fn check_and_open(
    id: u32,
    size: u64,
    sha256: &str,
    passphrase_b64: &str,
    data: &[u8],
) -> (r: Result<Vec<u8>, OpenError>)
    ensures
        is_outcome(r, checked_and_opened(id, size, sha256@, passphrase_b64@, data@)),
{
    if data.len() as u64 != size {
        return Err(OpenError::SizeMismatch { id, expected: size, actual: data.len() as u64 });
    }
    let digest = sha256_hex(data);
    if !same(digest.as_str(), sha256) {
        return Err(OpenError::HashMismatch { id });
    }
    open_with_passphrase(passphrase_b64, data)
}

impl Clone for ChunkInfo {
    fn clone(&self) -> (r: ChunkInfo)
        ensures
            r == *self,
    {
        ChunkInfo {
            id: self.id,
            filename: self.filename.clone(),
            passphrase_b64: self.passphrase_b64.clone(),
            sha256: self.sha256.clone(),
            size: self.size,
        }
    }
}

impl ChunkInfo {
    /// Opens the stored chunk that this entry describes.
    pub fn open(&self, data: &[u8]) -> (r: Result<Vec<u8>, OpenError>)
        ensures
            is_outcome(r, opened_as(*self, data@)),
    {
        check_and_open(
            self.id,
            self.size,
            self.sha256.as_str(),
            self.passphrase_b64.as_str(),
            data,
        )
    }
}

/// The entries in the order of their numbers, and entries with the same number in the
/// order in which they stood.
pub open spec fn in_order(chunks: Seq<ChunkInfo>) -> Seq<ChunkInfo>
    decreases chunks.len(),
{
    if chunks.len() == 0 {
        Seq::empty()
    } else {
        inserted(in_order(chunks.drop_last()), chunks.last())
    }
}

/// `info` put behind every entry of `chunks` whose number is not greater.
pub open spec fn inserted(chunks: Seq<ChunkInfo>, info: ChunkInfo) -> Seq<ChunkInfo>
    decreases chunks.len(),
{
    if chunks.len() == 0 || chunks.last().id <= info.id {
        chunks.push(info)
    } else {
        inserted(chunks.drop_last(), info).push(chunks.last())
    }
}

fn insert_in_order(chunks: &mut Vec<ChunkInfo>, info: ChunkInfo)
    ensures
        final(chunks)@ == inserted(old(chunks)@, info),
{
    let ghost all = chunks@;
    let mut at: usize = chunks.len();
    assert(all.take(at as int) == all);
    while at > 0 && chunks[at - 1].id > info.id
        invariant
            at <= chunks@.len(),
            chunks@ == all,
            inserted(all, info) == inserted(all.take(at as int), info) + all.skip(at as int),
        decreases at,
    {
        let ghost head = all.take(at as int);
        assert(head.drop_last() == all.take(at - 1));
        assert(head.last() == all[at - 1]);
        assert(inserted(all.take(at - 1), info).push(all[at - 1]) + all.skip(at as int) == inserted(
            all.take(at - 1),
            info,
        ) + all.skip(at - 1));
        at -= 1;
    }
    proof {
        let head = all.take(at as int);
        if at > 0 {
            assert(head.last() == all[at - 1]);
        }
        assert(inserted(head, info) == head.push(info));
        assert(all.insert(at as int, info) == head.push(info) + all.skip(at as int));
    }
    chunks.insert(at, info);
}

/// Sorts entries by number; entries with the same number keep their order.
pub fn sort_chunks(chunks: &Vec<ChunkInfo>) -> (out: Vec<ChunkInfo>)
    ensures
        out@ == in_order(chunks@),
{
    let mut out: Vec<ChunkInfo> = Vec::new();
    for i in 0..chunks.len()
        invariant
            out@ == in_order(chunks@.take(i as int)),
    {
        assert(chunks@.take(i + 1).drop_last() == chunks@.take(i as int));
        insert_in_order(&mut out, chunks[i].clone());
    }
    assert(chunks@.take(chunks@.len() as int) == chunks@);
    out
}

/// Numbers never fall along `chunks`.
pub open spec fn is_ascending(chunks: Seq<ChunkInfo>) -> bool {
    forall|i: int, j: int| 0 <= i <= j < chunks.len() ==> chunks[i].id <= chunks[j].id
}

proof fn lemma_inserted(chunks: Seq<ChunkInfo>, info: ChunkInfo)
    requires
        is_ascending(chunks),
    ensures
        is_ascending(inserted(chunks, info)),
        inserted(chunks, info).to_multiset() == chunks.to_multiset().insert(info),
        inserted(chunks, info).len() == chunks.len() + 1,
        forall|i: int|
            0 <= i < inserted(chunks, info).len() ==> #[trigger] inserted(chunks, info)[i].id
                <= info.id || (chunks.len() > 0 && inserted(chunks, info)[i].id <= chunks.last().id),
    decreases chunks.len(),
{
    broadcast use vstd::seq_lib::group_to_multiset_ensures;

    if chunks.len() > 0 && chunks.last().id > info.id {
        lemma_inserted(chunks.drop_last(), info);
        assert(chunks == chunks.drop_last().push(chunks.last()));
    }
}

/// Sorting gives the same entries, in the order of their numbers.
pub proof fn law_in_order_sorts(chunks: Seq<ChunkInfo>)
    ensures
        is_ascending(in_order(chunks)),
        in_order(chunks).to_multiset() == chunks.to_multiset(),
        in_order(chunks).len() == chunks.len(),
    decreases chunks.len(),
{
    broadcast use vstd::seq_lib::group_to_multiset_ensures;

    if chunks.len() > 0 {
        law_in_order_sorts(chunks.drop_last());
        lemma_inserted(in_order(chunks.drop_last()), chunks.last());
        assert(chunks == chunks.drop_last().push(chunks.last()));
    } else {
        assert(chunks =~= Seq::empty());
    }
}

/// Sorting leaves entries alone whose numbers already ascend.
pub proof fn law_in_order_keeps_ascending(chunks: Seq<ChunkInfo>)
    requires
        is_ascending(chunks),
    ensures
        in_order(chunks) == chunks,
    decreases chunks.len(),
{
    if chunks.len() > 0 {
        let before = chunks.drop_last();
        law_in_order_keeps_ascending(before);
        if before.len() > 0 {
            assert(before.last() == chunks[chunks.len() - 2]);
        }
        assert(before.push(chunks.last()) == chunks);
    } else {
        assert(in_order(chunks) =~= chunks);
    }
}

/// What the entry `info` opens to when its file holds `stored`, or is not there.
pub open spec fn opened_entry(info: ChunkInfo, stored: Option<Seq<u8>>) -> Result<
    Seq<u8>,
    OpenError,
> {
    match stored {
        Some(data) => opened_as(info, data),
        None => Err(OpenError::Missing { id: info.id }),
    }
}

/// The file that the stored chunks make up: each opened under its entry, one behind
/// the other, or the error of the first that does not open.
pub open spec fn merged(chunks: Seq<ChunkInfo>, stored: Seq<Option<Seq<u8>>>) -> Result<
    Seq<u8>,
    OpenError,
>
    decreases chunks.len(),
{
    if chunks.len() == 0 {
        Ok(Seq::empty())
    } else {
        match merged(chunks.drop_last(), stored.drop_last()) {
            Err(e) => Err(e),
            Ok(head) => match opened_entry(chunks.last(), stored.last()) {
                Err(e) => Err(e),
                Ok(tail) => Ok(head + tail),
            },
        }
    }
}

/// What a sequence of files holds, where they are there.
pub open spec fn stored_views(stored: Seq<Option<Vec<u8>>>) -> Seq<Option<Seq<u8>>> {
    Seq::new(
        stored.len(),
        |i: int|
            match stored[i] {
                Some(v) => Some(v@),
                None => None,
            },
    )
}

proof fn lemma_merged_error(chunks: Seq<ChunkInfo>, stored: Seq<Option<Seq<u8>>>, k: int)
    requires
        0 <= k <= chunks.len(),
        chunks.len() == stored.len(),
        merged(chunks.take(k), stored.take(k)) is Err,
    ensures
        merged(chunks, stored) == merged(chunks.take(k), stored.take(k)),
    decreases chunks.len(),
{
    if k < chunks.len() {
        assert(chunks.drop_last().take(k) == chunks.take(k));
        assert(stored.drop_last().take(k) == stored.take(k));
        lemma_merged_error(chunks.drop_last(), stored.drop_last(), k);
    } else {
        assert(chunks.take(k) == chunks);
        assert(stored.take(k) == stored);
    }
}

/// Opens the stored chunks of a file in the order of their numbers and puts them
/// together. `stored` holds, for each entry in that order, what its file holds, or
/// nothing when the file is not there.
pub fn decrypt_and_merge(manifest: &ManifestFile, stored: &Vec<Option<Vec<u8>>>) -> (r: Result<
    Vec<u8>,
    OpenError,
>)
    requires
        stored@.len() == manifest.chunks@.len(),
    ensures
        is_outcome(r, merged(in_order(manifest.chunks@), stored_views(stored@))),
{
    let chunks = sort_chunks(&manifest.chunks);
    proof {
        law_in_order_sorts(manifest.chunks@);
    }
    let mut file: Vec<u8> = Vec::new();
    for i in 0..chunks.len()
        invariant
            chunks@.len() == stored@.len(),
            merged(chunks@.take(i as int), stored_views(stored@).take(i as int)) == Ok::<
                Seq<u8>,
                OpenError,
            >(file@),
            chunks@ == in_order(manifest.chunks@),
    {
        let opened = match &stored[i] {
            Some(data) => chunks[i].open(data.as_slice()),
            None => Err(OpenError::Missing { id: chunks[i].id }),
        };
        proof {
            let c = chunks@.take(i + 1);
            let s = stored_views(stored@).take(i + 1);
            assert(c.drop_last() == chunks@.take(i as int));
            assert(s.drop_last() == stored_views(stored@).take(i as int));
            assert(s.last() == stored_views(stored@)[i as int]);
        }
        match opened {
            Err(e) => {
                proof {
                    lemma_merged_error(chunks@, stored_views(stored@), i + 1);
                }
                return Err(e);
            },
            Ok(mut plain) => {
                file.append(&mut plain);
            },
        }
    }
    assert(chunks@.take(chunks@.len() as int) == chunks@);
    assert(stored_views(stored@).take(stored@.len() as int) == stored_views(stored@));
    Ok(file)
}

/// A file that is put together chunk by chunk, in the order of their numbers, so that only
/// one of its chunks is held at a time.
#[derive(Debug)]
pub struct Merger {
    chunks: Vec<ChunkInfo>,
    opened: usize,
}

impl Merger {
    /// The entries in the order of their numbers.
    pub closed spec fn entries(self) -> Seq<ChunkInfo> {
        self.chunks@
    }

    /// How many chunks were opened.
    pub closed spec fn count(self) -> nat {
        self.opened as nat
    }

    pub open spec fn wf(self) -> bool {
        self.count() <= self.entries().len()
    }

    /// What was opened so far of the chunks that are stored as `stored` makes up `file`.
    pub open spec fn has_merged(self, stored: Seq<Option<Seq<u8>>>, file: Seq<u8>) -> bool {
        &&& self.wf()
        &&& merged(
            self.entries().take(self.count() as int),
            stored.take(self.count() as int),
        ) == Ok::<Seq<u8>, OpenError>(file)
    }

    /// Starts with the first chunk.
    pub fn new(chunks: &Vec<ChunkInfo>) -> (r: Merger)
        ensures
            r.entries() == in_order(chunks@),
            r.count() == 0,
    {
        Merger { chunks: sort_chunks(chunks), opened: 0 }
    }

    /// The name of the file of the next chunk, if there is one.
    pub fn next_file(&self) -> (r: Option<String>)
        ensures
            r is Some <==> self.count() < self.entries().len(),
            r matches Some(name) ==> name@ == self.entries()[self.count() as int].filename@,
    {
        if self.opened < self.chunks.len() {
            Some(self.chunks[self.opened].filename.clone())
        } else {
            None
        }
    }

    /// Opens the next chunk; `stored` is what its file holds, or nothing when the file is
    /// not there. What the chunk holds is to be written behind what was written before.
    pub fn step(&mut self, stored: &Option<Vec<u8>>) -> (r: Result<Vec<u8>, OpenError>)
        requires
            old(self).count() < old(self).entries().len(),
        ensures
            is_outcome(
                r,
                opened_entry(
                    old(self).entries()[old(self).count() as int],
                    match *stored {
                        Some(v) => Some(v@),
                        None => None,
                    },
                ),
            ),
            final(self).entries() == old(self).entries(),
            final(self).count() == old(self).count() + if r is Ok {
                1nat
            } else {
                0nat
            },
    {
        let len: usize = self.chunks.len();
        assert(self.opened < len);
        let info = &self.chunks[self.opened];
        let r = match stored {
            Some(data) => info.open(data.as_slice()),
            None => Err(OpenError::Missing { id: info.id }),
        };
        if r.is_ok() {
            self.opened = self.opened + 1;
        }
        r
    }
}

/// Chunk by chunk, what was opened stays what the stored chunks make up.
pub proof fn law_merging_goes_on(
    before: Merger,
    after: Merger,
    stored: Seq<Option<Seq<u8>>>,
    file: Seq<u8>,
    plain: Seq<u8>,
)
    requires
        before.has_merged(stored, file),
        before.count() < before.entries().len(),
        stored.len() == before.entries().len(),
        opened_entry(before.entries()[before.count() as int], stored[before.count() as int])
            == Ok::<Seq<u8>, OpenError>(plain),
        after.entries() == before.entries(),
        after.count() == before.count() + 1,
    ensures
        after.has_merged(stored, file + plain),
{
    let n = before.count() as int;
    let c = before.entries().take(n + 1);
    let s = stored.take(n + 1);
    assert(c.drop_last() == before.entries().take(n));
    assert(s.drop_last() == stored.take(n));
    assert(c.last() == before.entries()[n]);
    assert(s.last() == stored[n]);
}

/// The file that comes of opening chunk by chunk is the one that comes of opening all.
pub proof fn law_merging_gives_the_file(
    end: Merger,
    stored: Seq<Option<Seq<u8>>>,
    file: Seq<u8>,
)
    requires
        end.has_merged(stored, file),
        end.count() == end.entries().len(),
        stored.len() == end.entries().len(),
    ensures
        merged(end.entries(), stored) == Ok::<Seq<u8>, OpenError>(file),
{
    assert(end.entries().take(end.entries().len() as int) == end.entries());
    assert(stored.take(stored.len() as int) == stored);
}

/// `pieces` one behind the other.
pub open spec fn concatenated(pieces: Seq<Seq<u8>>) -> Seq<u8>
    decreases pieces.len(),
{
    if pieces.len() == 0 {
        Seq::empty()
    } else {
        concatenated(pieces.drop_last()) + pieces.last()
    }
}

/// The bytes that a sequence of byte vectors holds.
pub open spec fn byte_views(blobs: Seq<Vec<u8>>) -> Seq<Seq<u8>> {
    Seq::new(blobs.len(), |i: int| blobs[i]@)
}

/// Name of the directory, below the one for temporary files, that holds the chunks.
pub open spec fn work_dir_name(random_id: u64) -> Seq<char> {
    "gmf-"@ + crate::number::decimal(random_id as nat)
}

/// Names the directory for the chunks after a random number.
pub fn name_work_dir(random_id: u64) -> (r: String)
    ensures
        r@ == work_dir_name(random_id),
{
    cat2("gmf-", decimal_of(random_id).as_str())
}

/// Names a fresh directory for the chunks.
pub fn new_work_dir() -> (r: String)
    ensures
        exists|random_id: u64| r@ == work_dir_name(random_id),
{
    let random_id: u64 = random_u64();
    name_work_dir(random_id)
}

/// Name of the file of chunk `id` in the directory `work_dir`.
pub open spec fn part_name(work_dir: Seq<char>, id: u32) -> Seq<char> {
    work_dir + "/gmf.part"@ + crate::number::decimal(id as nat)
}

/// The entry for chunk `id` that is stored as `data` under the key `key`.
pub open spec fn is_entry(
    info: ChunkInfo,
    work_dir: Seq<char>,
    id: u32,
    key: Seq<u8>,
    data: Seq<u8>,
) -> bool {
    &&& info.id == id
    &&& info.filename@ == part_name(work_dir, id)
    &&& info.passphrase_b64@ == crate::outside::encoding::base64_text(key)
    &&& info.sha256@ == crate::outside::encoding::hex_text(crate::outside::digest::sha256(data))
    &&& info.size == data.len()
}

/// Encrypts `plain` as chunk `id` under a given key and nonce, and writes its entry.
/// What comes out opens to `plain` under that entry.
pub fn seal_entry(work_dir: &str, id: u32, key: &[u8; 32], nonce: &[u8; 12], plain: &[u8]) -> (r: Result<
    (ChunkInfo, Vec<u8>),
    SealError,
>)
    requires
        plain@.len() + 28 <= isize::MAX,
    ensures
        r is Ok <==> plain@.len() <= crate::outside::cipher::max_plain_len(),
        r matches Ok((info, data)) ==> data@ == sealed_chunk(key@, nonce@, plain@) && is_entry(
            info,
            work_dir@,
            id,
            key@,
            data@,
        ) && opened_as(info, data@) == Ok::<Seq<u8>, OpenError>(plain@) && info.size
            == plain@.len() + NONCE_SIZE + TAG_SIZE,
        r matches Err(e) ==> e.len == plain@.len(),
{
    let data = match encrypt_chunk_with_nonce(key, nonce, plain) {
        Ok(d) => d,
        Err(e) => return Err(e),
    };
    let info = ChunkInfo {
        id,
        filename: cat3(work_dir, "/gmf.part", decimal_of(id as u64).as_str()),
        passphrase_b64: base64_encode(key.as_slice()),
        sha256: sha256_hex(data.as_slice()),
        size: data.len() as u64,
    };
    Ok((info, data))
}

/// Encrypts `plain` as chunk `id` under a fresh key and nonce, and writes its entry.
pub fn seal_fresh_entry(work_dir: &str, id: u32, plain: &[u8]) -> (r: Result<
    (ChunkInfo, Vec<u8>),
    SealError,
>)
    requires
        plain@.len() + 28 <= isize::MAX,
    ensures
        r is Ok <==> plain@.len() <= crate::outside::cipher::max_plain_len(),
        r matches Ok((info, data)) ==> exists|key: Seq<u8>, nonce: Seq<u8>|
            #![trigger sealed_chunk(key, nonce, plain@)]
            key.len() == KEY_SIZE && nonce.len() == NONCE_SIZE && data@ == sealed_chunk(
                key,
                nonce,
                plain@,
            ) && is_entry(info, work_dir@, id, key, data@),
        r matches Ok((info, data)) ==> opened_as(info, data@) == Ok::<Seq<u8>, OpenError>(plain@)
            && info.id == id && info.filename@ == part_name(work_dir@, id) && info.size
            == plain@.len() + NONCE_SIZE + TAG_SIZE,
        r matches Err(e) ==> e.len == plain@.len(),
{
    let key = generate_key();
    let nonce = random_bytes::<12>();
    seal_entry(work_dir, id, &key, &nonce, plain)
}

/// `chunks` are numbered from one on, named after their numbers, and each opens what
/// is stored for it to the piece of the file it was made from. What is stored is longer
/// than the piece by a nonce and a tag.
pub open spec fn describes(
    chunks: Seq<ChunkInfo>,
    stored: Seq<Seq<u8>>,
    work_dir: Seq<char>,
    pieces: Seq<Seq<u8>>,
) -> bool {
    &&& chunks.len() == pieces.len()
    &&& stored.len() == pieces.len()
    &&& forall|i: int|
        0 <= i < chunks.len() ==> (#[trigger] chunks[i]).id == i + 1 && chunks[i].filename@
            == part_name(work_dir, (i + 1) as u32) && chunks[i].size == pieces[i].len()
            + NONCE_SIZE + TAG_SIZE && opened_as(chunks[i], stored[i]) == Ok::<
            Seq<u8>,
            OpenError,
        >(pieces[i])
}

/// A file that is split piece by piece, so that only one of its pieces is held at a time.
#[derive(Debug)]
pub struct Splitter {
    work_dir: String,
    chunks: Vec<ChunkInfo>,
}

impl Splitter {
    /// The directory for the chunks.
    pub closed spec fn dir(self) -> Seq<char> {
        self.work_dir@
    }

    /// The entries of the chunks that were made.
    pub closed spec fn entries(self) -> Seq<ChunkInfo> {
        self.chunks@
    }

    /// The chunks that were made of `pieces` are stored as `stored`.
    pub open spec fn has_split(self, stored: Seq<Seq<u8>>, pieces: Seq<Seq<u8>>) -> bool {
        describes(self.entries(), stored, self.dir(), pieces)
    }

    /// Starts to split a file into a directory.
    pub fn new(work_dir: &str) -> (r: Splitter)
        ensures
            r.dir() == work_dir@,
            r.entries().len() == 0,
    {
        Splitter { work_dir: work_dir.to_owned(), chunks: Vec::new() }
    }

    /// Encrypts the next piece of the file. What comes back is the name of the file for
    /// the chunk, and what to store in it. Only a piece longer than the cipher allows is
    /// refused.
    pub fn step(&mut self, piece: &[u8]) -> (r: Result<(String, Vec<u8>), SealError>)
        requires
            old(self).entries().len() < u32::MAX,
            piece@.len() + 28 <= isize::MAX,
        ensures
            final(self).dir() == old(self).dir(),
            r is Ok <==> piece@.len() <= crate::outside::cipher::max_plain_len(),
            r matches Ok((name, data)) ==> is_split_step(
                old(self).entries(),
                final(self).entries(),
                old(self).dir(),
                name@,
                data@,
                piece@,
            ),
            r matches Err(e) ==> *final(self) == *old(self) && e.len == piece@.len(),
    {
        let id: u32 = self.chunks.len() as u32 + 1;
        match seal_fresh_entry(self.work_dir.as_str(), id, piece) {
            Err(e) => Err(e),
            Ok((info, data)) => {
                let name = info.filename.clone();
                self.chunks.push(info);
                assert(self.chunks@.drop_last() == old(self).chunks@);
                Ok((name, data))
            },
        }
    }

    /// Writes the manifest of a file that was split.
    pub fn finish(self, filename: &str, total_size: u64) -> (r: ManifestFile)
        requires
            self.entries().len() <= u32::MAX,
        ensures
            r.filename@ == filename@,
            r.total_size == total_size,
            r.chunk_size == CHUNK_SIZE,
            r.total_chunks == self.entries().len(),
            r.chunks@ == self.entries(),
    {
        ManifestFile {
            filename: filename.to_owned(),
            total_size,
            chunk_size: CHUNK_SIZE,
            total_chunks: self.chunks.len() as u32,
            chunks: self.chunks,
        }
    }
}

/// `after` has one entry more than `before`: that of the chunk that was made of `piece`
/// and is to be stored as `data` in the file `name`.
pub open spec fn is_split_step(
    before: Seq<ChunkInfo>,
    after: Seq<ChunkInfo>,
    work_dir: Seq<char>,
    name: Seq<char>,
    data: Seq<u8>,
    piece: Seq<u8>,
) -> bool {
    &&& after.len() == before.len() + 1
    &&& after.drop_last() == before
    &&& after.last().id == after.len()
    &&& after.last().filename@ == name
    &&& name == part_name(work_dir, after.len() as u32)
    &&& after.last().size == piece.len() + NONCE_SIZE + TAG_SIZE
    &&& opened_as(after.last(), data) == Ok::<Seq<u8>, OpenError>(piece)
}

/// Piece by piece, the chunks that were made stay those of the pieces.
pub proof fn law_splitting_goes_on(
    before: Splitter,
    after: Splitter,
    stored: Seq<Seq<u8>>,
    pieces: Seq<Seq<u8>>,
    name: Seq<char>,
    data: Seq<u8>,
    piece: Seq<u8>,
)
    requires
        before.has_split(stored, pieces),
        after.dir() == before.dir(),
        is_split_step(before.entries(), after.entries(), before.dir(), name, data, piece),
    ensures
        after.has_split(stored.push(data), pieces.push(piece)),
{
    let chunks = after.entries();
    let s = stored.push(data);
    let p = pieces.push(piece);
    assert forall|i: int| 0 <= i < chunks.len() implies (#[trigger] chunks[i]).id == i + 1
        && chunks[i].filename@ == part_name(after.dir(), (i + 1) as u32) && chunks[i].size
        == p[i].len() + NONCE_SIZE + TAG_SIZE && opened_as(chunks[i], s[i]) == Ok::<
        Seq<u8>,
        OpenError,
    >(p[i]) by {
        if i < before.entries().len() {
            assert(chunks.drop_last()[i] == before.entries()[i]);
        }
    }
}

/// Encrypts a file that was read in `pieces`, one chunk for each, and writes its
/// manifest. Only a piece longer than the cipher allows is refused, the first such.
pub fn split_and_encrypt(
    work_dir: &str,
    filename: &str,
    total_size: u64,
    pieces: &Vec<Vec<u8>>,
) -> (r: Result<(ManifestFile, Vec<Vec<u8>>), SealError>)
    requires
        pieces@.len() <= u32::MAX,
        forall|i: int| 0 <= i < pieces@.len() ==> (#[trigger] pieces@[i])@.len() + 28 <= isize::MAX,
    ensures
        r is Ok <==> forall|i: int|
            0 <= i < pieces@.len() ==> (#[trigger] pieces@[i])@.len()
                <= crate::outside::cipher::max_plain_len(),
        r matches Ok((manifest, stored)) ==> {
            &&& manifest.filename@ == filename@
            &&& manifest.total_size == total_size
            &&& manifest.chunk_size == CHUNK_SIZE
            &&& manifest.total_chunks == pieces@.len()
            &&& describes(
                manifest.chunks@,
                byte_views(stored@),
                work_dir@,
                byte_views(pieces@),
            )
        },
        r matches Err(e) ==> exists|i: int|
            0 <= i < pieces@.len() && (#[trigger] pieces@[i])@.len() == e.len && e.len
                > crate::outside::cipher::max_plain_len() && forall|j: int|
                0 <= j < i ==> (#[trigger] pieces@[j])@.len()
                    <= crate::outside::cipher::max_plain_len(),
{
    let mut splitter = Splitter::new(work_dir);
    let mut stored: Vec<Vec<u8>> = Vec::new();
    for i in 0..pieces.len()
        invariant
            pieces@.len() <= u32::MAX,
            forall|k: int|
                0 <= k < pieces@.len() ==> (#[trigger] pieces@[k])@.len() + 28 <= isize::MAX,
            forall|k: int|
                0 <= k < i ==> (#[trigger] pieces@[k])@.len()
                    <= crate::outside::cipher::max_plain_len(),
            splitter.dir() == work_dir@,
            splitter.entries().len() == i,
            splitter.has_split(byte_views(stored@), byte_views(pieces@).take(i as int)),
    {
        let ghost before = splitter;
        let ghost kept = byte_views(stored@);
        match splitter.step(pieces[i].as_slice()) {
            Err(e) => return Err(e),
            Ok((name, data)) => {
                proof {
                    law_splitting_goes_on(
                        before,
                        splitter,
                        kept,
                        byte_views(pieces@).take(i as int),
                        name@,
                        data@,
                        pieces@[i as int]@,
                    );
                    assert(byte_views(pieces@).take(i + 1) == byte_views(pieces@).take(
                        i as int,
                    ).push(pieces@[i as int]@));
                }
                let ghost bytes = data@;
                stored.push(data);
                assert(byte_views(stored@) == kept.push(bytes));
            },
        }
    }
    assert(byte_views(pieces@).take(pieces@.len() as int) == byte_views(pieces@));
    Ok((splitter.finish(filename, total_size), stored))
}

/// A file comes back as it was: the chunks made from its pieces, read by the order of
/// their numbers, open and merge to the pieces one behind the other.
pub proof fn law_merge_restores_file(
    chunks: Seq<ChunkInfo>,
    stored: Seq<Seq<u8>>,
    work_dir: Seq<char>,
    pieces: Seq<Seq<u8>>,
)
    requires
        describes(chunks, stored, work_dir, pieces),
    ensures
        merged(in_order(chunks), stored.map_values(|s: Seq<u8>| Some(s))) == Ok::<
            Seq<u8>,
            OpenError,
        >(concatenated(pieces)),
{
    law_in_order_keeps_ascending(chunks);
    lemma_merge_restores(chunks, stored, work_dir, pieces);
}

proof fn lemma_merge_restores(
    chunks: Seq<ChunkInfo>,
    stored: Seq<Seq<u8>>,
    work_dir: Seq<char>,
    pieces: Seq<Seq<u8>>,
)
    requires
        describes(chunks, stored, work_dir, pieces),
    ensures
        merged(chunks, stored.map_values(|s: Seq<u8>| Some(s))) == Ok::<Seq<u8>, OpenError>(
            concatenated(pieces),
        ),
    decreases chunks.len(),
{
    if chunks.len() > 0 {
        let c = chunks.drop_last();
        let s = stored.drop_last();
        let p = pieces.drop_last();
        assert(describes(c, s, work_dir, p)) by {
            assert forall|i: int| 0 <= i < c.len() implies (#[trigger] c[i]).id == i + 1
                && c[i].filename@ == part_name(work_dir, (i + 1) as u32) && c[i].size == p[i].len()
                + NONCE_SIZE + TAG_SIZE && opened_as(c[i], s[i]) == Ok::<Seq<u8>, OpenError>(
                p[i],
            ) by {
                assert(c[i] == chunks[i]);
            }
        }
        lemma_merge_restores(c, s, work_dir, p);
        let all = stored.map_values(|x: Seq<u8>| Some(x));
        assert(all.drop_last() == s.map_values(|x: Seq<u8>| Some(x)));
        assert(chunks.last() == chunks[chunks.len() - 1]);
        assert(all.last() == Some(stored[stored.len() - 1]));
    }
}

/// A stored chunk is found to be changed: it is not there, or has another length or
/// another SHA-256 than the one that was made.
pub open spec fn is_changed(made: Seq<u8>, found: Option<Seq<u8>>) -> bool {
    match found {
        None => true,
        Some(data) => data.len() != made.len() || crate::outside::digest::sha256(data)
            != crate::outside::digest::sha256(made),
    }
}

proof fn lemma_hex_injective(a: Seq<u8>, b: Seq<u8>)
    requires
        crate::outside::encoding::hex_text(a) == crate::outside::encoding::hex_text(b),
    ensures
        a == b,
{
    let x = crate::outside::encoding::hex_text(a);
    let y = crate::outside::encoding::hex_text(b);
    assert(x.len() == a.len() * 2 && y.len() == b.len() * 2);
    assert forall|i: int| 0 <= i < a.len() implies a[i] == b[i] by {
        assert((2 * i) / 2 == i && (2 * i) % 2 == 0);
        assert((2 * i + 1) / 2 == i && (2 * i + 1) % 2 == 1);
        let high = |d: u8| (d / 16) as nat;
        let low = |d: u8| (d % 16) as nat;
        assert(x[2 * i] == crate::number::digit_char(high(a[i])));
        assert(y[2 * i] == crate::number::digit_char(high(b[i])));
        assert(x[2 * i + 1] == crate::number::digit_char(low(a[i])));
        assert(y[2 * i + 1] == crate::number::digit_char(low(b[i])));
        assert(high(a[i]) < 16 && high(b[i]) < 16 && low(a[i]) < 16 && low(b[i]) < 16);
        assert(high(a[i]) == high(b[i]));
        assert(low(a[i]) == low(b[i]));
        assert(a[i] == 16 * high(a[i]) + low(a[i]));
        assert(b[i] == 16 * high(b[i]) + low(b[i]));
    }
    assert(a =~= b);
}

/// Bytes are read back from their digits: different bytes are written differently.
pub proof fn law_hex_injective(a: Seq<u8>, b: Seq<u8>)
    ensures
        crate::outside::encoding::hex_text(a) == crate::outside::encoding::hex_text(b) <==> a == b,
{
    if crate::outside::encoding::hex_text(a) == crate::outside::encoding::hex_text(b) {
        lemma_hex_injective(a, b);
    }
}

/// Nothing comes of a file of which a stored chunk is missing, or has another length or
/// another SHA-256 than the one that was made from its piece.
pub proof fn law_changed_chunk_is_refused(
    chunks: Seq<ChunkInfo>,
    stored: Seq<Seq<u8>>,
    work_dir: Seq<char>,
    pieces: Seq<Seq<u8>>,
    found: Seq<Option<Seq<u8>>>,
    i: int,
)
    requires
        describes(chunks, stored, work_dir, pieces),
        found.len() == chunks.len(),
        0 <= i < chunks.len(),
        is_changed(stored[i], found[i]),
    ensures
        merged(in_order(chunks), found) is Err,
{
    law_in_order_keeps_ascending(chunks);
    assert(opened_as(chunks[i], stored[i]) is Ok);
    assert(opened_entry(chunks[i], found[i]) is Err) by {
        if found[i] is Some {
            let data = found[i]->0;
            if crate::outside::encoding::hex_text(crate::outside::digest::sha256(data))
                == crate::outside::encoding::hex_text(crate::outside::digest::sha256(stored[i])) {
                lemma_hex_injective(
                    crate::outside::digest::sha256(data),
                    crate::outside::digest::sha256(stored[i]),
                );
            }
        }
    }
    let c = chunks.take(i + 1);
    let f = found.take(i + 1);
    assert(c.last() == chunks[i]);
    assert(f.last() == found[i]);
    lemma_merged_error(chunks, found, i + 1);
}

/// Where a file goes that was put together at `output_path`: beside it, under the name
/// that `filename` gives it. Both are Unix paths, and `filename` must name a file.
pub fn restored_path(filename: &str, output_path: &str) -> (r: String)
    requires
        crate::path::file_name(filename@) is Some,
    ensures
        r@ == crate::path::renamed(output_path@, crate::path::file_name(filename@)->0),
{
    let name = file_name_of(filename);
    with_file_name(output_path, name.unwrap().as_str())
}

/// The line before the manifest in what the splitting side prints.
pub const START_DELIMITER: &'static str = "---GMF-MANIFEST-START---";

/// The line behind the manifest.
pub const END_DELIMITER: &'static str = "---GMF-MANIFEST-END---";

/// Why no manifest was found in an output.
#[derive(Debug, Clone, Copy, PartialEq, Eq, Structural)]
pub enum ManifestError {
    /// The first delimiter is missing.
    NoStart,
    /// The last delimiter is missing.
    NoEnd,
    /// Nothing stands between the delimiters, or they are the wrong way round.
    Empty,
}

impl ManifestError {
    /// The error in words.
    pub open spec fn message(self) -> Seq<char> {
        match self {
            ManifestError::NoStart => "找不到清单起始分隔符: "@ + START_DELIMITER@,
            ManifestError::NoEnd => "找不到清单结束分隔符: "@ + END_DELIMITER@,
            ManifestError::Empty => "清单分隔符顺序不正确或内容为空"@,
        }
    }

    /// Puts the error in words.
    pub fn text(&self) -> (r: String)
        ensures
            r@ == self.message(),
    {
        match self {
            ManifestError::NoStart => cat2("找不到清单起始分隔符: ", START_DELIMITER),
            ManifestError::NoEnd => cat2("找不到清单结束分隔符: ", END_DELIMITER),
            ManifestError::Empty => "清单分隔符顺序不正确或内容为空".to_owned(),
        }
    }
}

/// What is printed for a manifest: its JSON between the delimiters, a line each.
pub open spec fn framed_manifest(json: Seq<char>) -> Seq<char> {
    START_DELIMITER@ + "\n"@ + json + "\n"@ + END_DELIMITER@ + "\n"@
}

/// Puts the JSON of a manifest between the delimiters.
pub fn frame_manifest(json: &str) -> (r: String)
    ensures
        r@ == framed_manifest(json@),
{
    let mut out = cat5(START_DELIMITER, "\n", json, "\n", END_DELIMITER);
    out.append("\n");
    out
}

/// `i` is the first place where `needle` stands in `hay`.
pub open spec fn first_at(hay: Seq<char>, needle: Seq<char>, i: int) -> bool {
    crate::text::occurs_at(hay, needle, i) && forall|j: int|
        #![trigger crate::text::occurs_at(hay, needle, j)]
        j < i ==> !crate::text::occurs_at(hay, needle, j)
}

/// `i` is the last place where `needle` stands in `hay`.
pub open spec fn last_at(hay: Seq<char>, needle: Seq<char>, i: int) -> bool {
    crate::text::occurs_at(hay, needle, i) && forall|j: int|
        #![trigger crate::text::occurs_at(hay, needle, j)]
        j > i ==> !crate::text::occurs_at(hay, needle, j)
}

/// `r` is what an output holds of a manifest: what stands between the first start and
/// the last end delimiter, without the white space around it.
pub open spec fn is_manifest_json(output: Seq<char>, r: Result<Seq<char>, ManifestError>) -> bool {
    let start = START_DELIMITER@;
    let end = END_DELIMITER@;
    match r {
        Err(ManifestError::NoStart) => !crate::text::occurs(output, start),
        Err(ManifestError::NoEnd) => crate::text::occurs(output, start) && !crate::text::occurs(
            output,
            end,
        ),
        Err(ManifestError::Empty) => exists|i: int, j: int|
            #![trigger first_at(output, start, i), last_at(output, end, j)]
            first_at(output, start, i) && last_at(output, end, j) && i + start.len() >= j,
        Ok(json) => exists|i: int, j: int|
            #![trigger first_at(output, start, i), last_at(output, end, j)]
            first_at(output, start, i) && last_at(output, end, j) && i + start.len() < j && json
                == crate::text::trimmed(output.subrange(i + start.len(), j)),
    }
}

/// Finds the JSON of a manifest in everything that the splitting side printed.
pub fn manifest_from_str(full_output: &str) -> (r: Result<String, ManifestError>)
    ensures
        is_manifest_json(
            full_output@,
            match r {
                Ok(json) => Ok(json@),
                Err(e) => Err(e),
            },
        ),
{
    let output = chars_of(full_output);
    let start = chars_of(START_DELIMITER);
    let end = chars_of(END_DELIMITER);
    let from: usize = match find(&output, &start) {
        None => return Err(ManifestError::NoStart),
        Some(i) => i,
    };
    assert(first_at(output@, start@, from as int));
    let to: usize = match rfind(&output, &end) {
        None => return Err(ManifestError::NoEnd),
        Some(j) => j,
    };
    assert(last_at(output@, end@, to as int));
    assert(crate::text::occurs_at(output@, start@, from as int));
    let len: usize = output.len();
    assert(from + start@.len() <= len);
    let begin: usize = from + start.len();
    if begin >= to {
        return Err(ManifestError::Empty);
    }
    let between = string_of(&output, begin, to);
    Ok(trim(between.as_str()))
}

/// What is read of an output is settled by the output.
pub proof fn law_manifest_json_unique(
    output: Seq<char>,
    a: Result<Seq<char>, ManifestError>,
    b: Result<Seq<char>, ManifestError>,
)
    requires
        is_manifest_json(output, a),
        is_manifest_json(output, b),
    ensures
        a == b,
{
    lemma_places(output);
    let start = START_DELIMITER@;
    let end = END_DELIMITER@;
    assert forall|i: int| first_at(output, start, i) implies crate::text::occurs(output, start) by {
        assert(crate::text::occurs_at(output, start, i));
    }
    assert forall|j: int| last_at(output, end, j) implies crate::text::occurs(output, end) by {
        assert(crate::text::occurs_at(output, end, j));
    }
}

proof fn lemma_places(output: Seq<char>)
    ensures
        forall|i: int, j: int|
            first_at(output, START_DELIMITER@, i) && first_at(output, START_DELIMITER@, j) ==> i
                == j,
        forall|i: int, j: int|
            last_at(output, END_DELIMITER@, i) && last_at(output, END_DELIMITER@, j) ==> i == j,
{
    assert forall|i: int, j: int|
        first_at(output, START_DELIMITER@, i) && first_at(output, START_DELIMITER@, j) implies i
        == j by {
        if i < j {
            assert(crate::text::occurs_at(output, START_DELIMITER@, i));
        } else if j < i {
            assert(crate::text::occurs_at(output, START_DELIMITER@, j));
        }
    }
    assert forall|i: int, j: int|
        last_at(output, END_DELIMITER@, i) && last_at(output, END_DELIMITER@, j) implies i
        == j by {
        if i < j {
            assert(crate::text::occurs_at(output, END_DELIMITER@, j));
        } else if j < i {
            assert(crate::text::occurs_at(output, END_DELIMITER@, i));
        }
    }
}

/// A manifest that was framed is found again, whatever it holds: only the white space
/// around its JSON is lost.
pub proof fn law_framed_manifest_found(json: Seq<char>)
    ensures
        is_manifest_json(framed_manifest(json), Ok(crate::text::trimmed(json))),
{
    reveal_strlit("---GMF-MANIFEST-START---");
    reveal_strlit("---GMF-MANIFEST-END---");
    reveal_strlit("\n");
    let start = START_DELIMITER@;
    let end = END_DELIMITER@;
    let output = framed_manifest(json);
    let j = (start.len() + 1 + json.len() + 1) as int;
    assert(output.len() == j + end.len() + 1);
    assert(output.subrange(0, start.len() as int) == start);
    assert(crate::text::occurs_at(output, start, 0));
    assert(first_at(output, start, 0));
    assert(output.subrange(j, j + end.len()) == end);
    assert(crate::text::occurs_at(output, end, j));
    assert forall|k: int| k > j implies !#[trigger] crate::text::occurs_at(output, end, k) by {
        if crate::text::occurs_at(output, end, k) {
            assert(k == j + 1);
            let shifted = output.subrange(k, k + end.len());
            assert(shifted[2] == output[j + 3]);
            assert(output[j + 3] == end[3]);
            assert(end[2] == '-');
            assert(end[3] == 'G');
            assert(shifted[2] == end[2]);
        }
    }
    assert(last_at(output, end, j));
    assert("\n"@ =~= seq!['\n']);
    assert(output.subrange(start.len() as int, j) == (seq!['\n'] + json).push('\n'));
    crate::text::law_trim_ignores_ends(json, '\n', '\n');
    crate::text::law_trim_ignores_ends(seq!['\n'] + json, '\n', '\n');
}

impl OpenError {
    /// The error in words; `path` is where the chunk should be, for people.
    pub open spec fn message(self, path: Seq<char>) -> Seq<char> {
        match self {
            OpenError::Missing { .. } => "分块文件不存在: "@ + path,
            OpenError::SizeMismatch { id, expected, actual } => "分块 "@ + crate::number::decimal(
                id as nat,
            ) + " 大小不匹配. 预期: "@ + crate::number::decimal(expected as nat) + ", 实际: "@
                + crate::number::decimal(actual as nat),
            OpenError::HashMismatch { id } => "分块 "@ + crate::number::decimal(id as nat)
                + " SHA256校验和不匹配."@,
            OpenError::PassphraseNotBase64(fault) => fault.message(),
            OpenError::KeyLength { .. } => "could not convert slice to array"@,
            OpenError::TooShort => "输入文件太短，无法包含有效 nonce"@,
            OpenError::CipherFailed => "解密失败: Error"@,
        }
    }

    /// Puts the error in words.
    pub fn text(&self, path: &str) -> (r: String)
        ensures
            r@ == self.message(path@),
    {
        match self {
            OpenError::Missing { .. } => cat2("分块文件不存在: ", path),
            OpenError::SizeMismatch { id, expected, actual } => {
                let mut out = cat5(
                    "分块 ",
                    decimal_of(*id as u64).as_str(),
                    " 大小不匹配. 预期: ",
                    decimal_of(*expected).as_str(),
                    ", 实际: ",
                );
                out.append(decimal_of(*actual).as_str());
                out
            },
            OpenError::HashMismatch { id } => cat3(
                "分块 ",
                decimal_of(*id as u64).as_str(),
                " SHA256校验和不匹配.",
            ),
            OpenError::PassphraseNotBase64(fault) => fault.text(),
            OpenError::KeyLength { .. } => "could not convert slice to array".to_owned(),
            OpenError::TooShort => "输入文件太短，无法包含有效 nonce".to_owned(),
            OpenError::CipherFailed => "解密失败: Error".to_owned(),
        }
    }
}

/// A stored chunk is a nonce of twelve bytes and what the cipher made of the chunk behind
/// it: it opens under a key just as the cipher opens what stands behind the nonce, under
/// that key and that nonce.
pub proof fn law_stored_chunk_layout(
    key: Seq<u8>,
    nonce: Seq<u8>,
    plain: Seq<u8>,
    ciphertext: Seq<u8>,
)
    requires
        nonce.len() == 12,
    ensures
        sealed_chunk(key, nonce, plain).take(12) == nonce,
        sealed_chunk(key, nonce, plain).skip(12) == crate::outside::cipher::gcm_sealed(
            key,
            nonce,
            plain,
        ),
        opened_chunk(key, nonce + ciphertext) is Ok <==> crate::outside::cipher::gcm_opened(
            key,
            nonce,
            ciphertext,
        ) is Some,
        opened_chunk(key, nonce + ciphertext) matches Ok(p)
            ==> crate::outside::cipher::gcm_opened(key, nonce, ciphertext) == Some(p),
        opened_chunk(key, nonce + ciphertext) matches Err(e) ==> e == OpenError::CipherFailed,
{
    assert(sealed_chunk(key, nonce, plain).take(12) =~= nonce);
    assert(sealed_chunk(key, nonce, plain).skip(12) =~= crate::outside::cipher::gcm_sealed(
        key,
        nonce,
        plain,
    ));
    assert((nonce + ciphertext).take(12) =~= nonce);
    assert((nonce + ciphertext).skip(12) =~= ciphertext);
}

/// A passphrase is the key in Base64: any that encodes thirty-two bytes opens what these
/// bytes open, and no other opens anything.
pub proof fn law_passphrase_is_the_key(passphrase_b64: Seq<char>, key: Seq<u8>, data: Seq<u8>)
    requires
        crate::outside::encoding::base64_data(passphrase_b64) == Ok::<Seq<u8>, Base64Fault>(key),
    ensures
        key.len() == 32 ==> opened_with_passphrase(passphrase_b64, data) == opened_chunk(
            key,
            data,
        ),
        key.len() != 32 ==> opened_with_passphrase(passphrase_b64, data) == Err::<
            Seq<u8>,
            OpenError,
        >(OpenError::KeyLength { len: key.len() as usize }),
{
}

/// Nothing opens under a passphrase that is not Base64, and the fault is told.
pub proof fn law_no_base64_opens_nothing(
    passphrase_b64: Seq<char>,
    fault: Base64Fault,
    data: Seq<u8>,
)
    requires
        crate::outside::encoding::base64_data(passphrase_b64) == Err::<Seq<u8>, Base64Fault>(
            fault,
        ),
    ensures
        opened_with_passphrase(passphrase_b64, data) == Err::<Seq<u8>, OpenError>(
            OpenError::PassphraseNotBase64(fault),
        ),
{
}

/// A chunk opens under its entry just when it has the size and the digest that the entry
/// says and opens under its passphrase; one that has not is refused by its number, first
/// for its size.
pub proof fn law_entry_is_checked(info: ChunkInfo, data: Seq<u8>)
    requires
        data.len() <= u64::MAX,
    ensures
        data.len() == info.size && crate::outside::encoding::hex_text(
            crate::outside::digest::sha256(data),
        ) == info.sha256@ ==> opened_as(info, data) == opened_with_passphrase(
            info.passphrase_b64@,
            data,
        ),
        data.len() != info.size <==> (opened_as(info, data) matches Err(
            OpenError::SizeMismatch { .. },
        )),
        opened_as(info, data) matches Err(OpenError::SizeMismatch { id, expected, actual }) ==> id
            == info.id && expected == info.size && actual == data.len(),
        data.len() == info.size && crate::outside::encoding::hex_text(
            crate::outside::digest::sha256(data),
        ) != info.sha256@ ==> opened_as(info, data) == Err::<Seq<u8>, OpenError>(
            OpenError::HashMismatch { id: info.id },
        ),
        opened_entry(info, Some(data)) == opened_as(info, data),
        opened_entry(info, None) == Err::<Seq<u8>, OpenError>(OpenError::Missing { id: info.id }),
{
}

/// An outcome is the one that is named: the same bytes, or the same error.
pub proof fn law_outcome_is_the_one_named<E>(
    r: Result<Vec<u8>, E>,
    s: Result<Seq<u8>, E>,
    plain: Seq<u8>,
    e: E,
)
    requires
        is_outcome(r, s),
    ensures
        r is Ok <==> s is Ok,
        s == Ok::<Seq<u8>, E>(plain) ==> r->Ok_0@ == plain,
        s == Err::<Seq<u8>, E>(e) ==> r == Err::<Vec<u8>, E>(e),
{
}

/// What is said to be stored is what is stored, entry by entry.
pub proof fn law_views_are_what_is_stored(
    stored: Seq<Option<Vec<u8>>>,
    blobs: Seq<Vec<u8>>,
    i: int,
)
    ensures
        stored_views(stored).len() == stored.len(),
        0 <= i < stored.len() && stored[i] is Some ==> stored_views(stored)[i] == Some(
            stored[i]->0@,
        ),
        0 <= i < stored.len() && stored[i] is None ==> stored_views(stored)[i] is None,
        byte_views(blobs).len() == blobs.len(),
        0 <= i < blobs.len() ==> byte_views(blobs)[i] == blobs[i]@,
{
}

/// The first chunk that does not open ends everything with its error, whatever stands
/// behind it.
pub proof fn law_first_bad_chunk_ends_merge(
    chunks: Seq<ChunkInfo>,
    stored: Seq<Option<Seq<u8>>>,
    k: int,
    e: OpenError,
)
    requires
        chunks.len() == stored.len(),
        0 <= k < chunks.len(),
        merged(chunks.take(k), stored.take(k)) is Ok,
        opened_entry(chunks[k], stored[k]) == Err::<Seq<u8>, OpenError>(e),
    ensures
        merged(chunks, stored) == Err::<Seq<u8>, OpenError>(e),
{
    let c = chunks.take(k + 1);
    let s = stored.take(k + 1);
    assert(c.drop_last() == chunks.take(k));
    assert(s.drop_last() == stored.take(k));
    assert(c.last() == chunks[k]);
    assert(s.last() == stored[k]);
    lemma_merged_error(chunks, stored, k + 1);
}

/// Pieces one behind the other are the first of them and then the rest: where they are put
/// apart does not matter, and a piece alone is itself.
pub proof fn law_pieces_stand_behind_each_other(a: Seq<Seq<u8>>, b: Seq<Seq<u8>>, piece: Seq<u8>)
    ensures
        concatenated(a + b) == concatenated(a) + concatenated(b),
        concatenated(seq![piece]) == piece,
    decreases b.len(),
{
    assert(seq![piece].drop_last() =~= Seq::<Seq<u8>>::empty());
    assert(concatenated(seq![piece].drop_last()) + piece =~= piece);
    if b.len() == 0 {
        assert(a + b =~= a);
        assert(concatenated(a) + concatenated(b) =~= concatenated(a));
    } else {
        law_pieces_stand_behind_each_other(a, b.drop_last(), piece);
        assert((a + b).drop_last() =~= a + b.drop_last());
        assert(concatenated(a) + (concatenated(b.drop_last()) + b.last()) =~= (concatenated(a)
            + concatenated(b.drop_last())) + b.last());
    }
}

proof fn lemma_inserted_filter(chunks: Seq<ChunkInfo>, info: ChunkInfo, id: u32)
    ensures
        inserted(chunks, info).filter(|c: ChunkInfo| c.id == id) == if info.id == id {
            chunks.filter(|c: ChunkInfo| c.id == id).push(info)
        } else {
            chunks.filter(|c: ChunkInfo| c.id == id)
        },
    decreases chunks.len(),
{
    reveal(Seq::filter);
    let p = |c: ChunkInfo| c.id == id;
    if chunks.len() == 0 || chunks.last().id <= info.id {
        assert(chunks.push(info).drop_last() =~= chunks);
    } else {
        let rest = inserted(chunks.drop_last(), info);
        lemma_inserted_filter(chunks.drop_last(), info, id);
        assert(rest.push(chunks.last()).drop_last() =~= rest);
    }
}

/// Entries with the same number keep their order when they are sorted.
pub proof fn law_in_order_is_stable(chunks: Seq<ChunkInfo>, id: u32)
    ensures
        in_order(chunks).filter(|c: ChunkInfo| c.id == id) == chunks.filter(
            |c: ChunkInfo| c.id == id,
        ),
    decreases chunks.len(),
{
    reveal(Seq::filter);
    if chunks.len() > 0 {
        law_in_order_is_stable(chunks.drop_last(), id);
        lemma_inserted_filter(in_order(chunks.drop_last()), chunks.last(), id);
    }
}

/// No two chunks share a file, and no two drawn numbers share a directory.
pub proof fn law_chunk_files_differ(work_dir: Seq<char>, a: u32, b: u32, m: u64, n: u64)
    ensures
        part_name(work_dir, a) == part_name(work_dir, b) ==> a == b,
        work_dir_name(m) == work_dir_name(n) ==> m == n,
        part_name(work_dir, a).take(work_dir.len() as int) == work_dir,
{
    let head = work_dir + "/gmf.part"@;
    let x = crate::number::decimal(a as nat);
    let y = crate::number::decimal(b as nat);
    assert(x =~= part_name(work_dir, a).skip(head.len() as int));
    assert(y =~= part_name(work_dir, b).skip(head.len() as int));
    if part_name(work_dir, a) == part_name(work_dir, b) {
        crate::number::law_decimal_injective(a as nat, b as nat);
    }
    assert(part_name(work_dir, a).take(work_dir.len() as int) =~= work_dir);
    let u = crate::number::decimal(m as nat);
    let v = crate::number::decimal(n as nat);
    assert(u =~= work_dir_name(m).skip("gmf-"@.len() as int));
    assert(v =~= work_dir_name(n).skip("gmf-"@.len() as int));
    if work_dir_name(m) == work_dir_name(n) {
        crate::number::law_decimal_injective(m as nat, n as nat);
    }
}

/// Full chunks are ten mebibytes, and what is stored is longer by twelve and sixteen bytes.
pub proof fn law_chunk_sizes()
    ensures
        CHUNK_SIZE == 10 * 1024 * 1024,
        NONCE_SIZE == 12,
        TAG_SIZE == 16,
        KEY_SIZE == 32,
{
}

/// An entry is for one chunk: it gives its number and its file, the key in Base64, and the
/// digest and the size of what is stored, so that what is stored passes both checks.
pub proof fn law_entry_describes_what_is_stored(
    info: ChunkInfo,
    work_dir: Seq<char>,
    id: u32,
    key: Seq<u8>,
    data: Seq<u8>,
)
    requires
        is_entry(info, work_dir, id, key, data),
    ensures
        info.id == id,
        info.filename@ == part_name(work_dir, id),
        opened_as(info, data) == opened_with_passphrase(
            crate::outside::encoding::base64_text(key),
            data,
        ),
{
}

/// The words about a chunk that did not open say which it is, or where it should be.
pub proof fn law_open_error_names_the_chunk(e: OpenError, path: Seq<char>)
    ensures
        e is Missing ==> crate::text::occurs(e.message(path), path),
        e matches OpenError::SizeMismatch { id, expected, actual } ==> crate::text::occurs(
            e.message(path),
            crate::number::decimal(id as nat),
        ) && crate::text::occurs(e.message(path), crate::number::decimal(expected as nat))
            && crate::text::occurs(e.message(path), crate::number::decimal(actual as nat)),
        e matches OpenError::HashMismatch { id } ==> crate::text::occurs(
            e.message(path),
            crate::number::decimal(id as nat),
        ),
        e matches OpenError::PassphraseNotBase64(fault) ==> e.message(path) == fault.message(),
{
    let w = e.message(path);
    let none = Seq::<char>::empty();
    match e {
        OpenError::Missing { .. } => {
            assert(w =~= "分块文件不存在: "@ + path + none);
            crate::text::law_part_occurs("分块文件不存在: "@, path, none);
        },
        OpenError::SizeMismatch { id, expected, actual } => {
            let a = "分块 "@;
            let b = crate::number::decimal(id as nat);
            let c = " 大小不匹配. 预期: "@;
            let d = crate::number::decimal(expected as nat);
            let f = ", 实际: "@;
            let g = crate::number::decimal(actual as nat);
            assert(w =~= a + b + (c + d + f + g));
            crate::text::law_part_occurs(a, b, c + d + f + g);
            assert(w =~= (a + b + c) + d + (f + g));
            crate::text::law_part_occurs(a + b + c, d, f + g);
            assert(w =~= (a + b + c + d + f) + g + none);
            crate::text::law_part_occurs(a + b + c + d + f, g, none);
        },
        OpenError::HashMismatch { id } => {
            crate::text::law_part_occurs(
                "分块 "@,
                crate::number::decimal(id as nat),
                " SHA256校验和不匹配."@,
            );
        },
        _ => {},
    }
}

/// The manifest is told apart from what else is printed by two lines that are not the same:
/// the framed text begins with the one and ends with the other.
pub proof fn law_manifest_stands_between_its_lines(json: Seq<char>)
    ensures
        framed_manifest(json).take(25) == "---GMF-MANIFEST-START---\n"@,
        crate::text::closes_with(framed_manifest(json), "\n---GMF-MANIFEST-END---\n"@),
        framed_manifest(json).subrange(25, 25int + json.len()) == json,
        framed_manifest(json).len() == 25 + json.len() + 24,
{
    reveal_strlit("---GMF-MANIFEST-START---");
    reveal_strlit("---GMF-MANIFEST-START---\n");
    reveal_strlit("---GMF-MANIFEST-END---");
    reveal_strlit("\n---GMF-MANIFEST-END---\n");
    reveal_strlit("\n");
    let start = "---GMF-MANIFEST-START---\n"@;
    let end = "\n---GMF-MANIFEST-END---\n"@;
    assert(start =~= START_DELIMITER@ + "\n"@);
    assert(end =~= "\n"@ + END_DELIMITER@ + "\n"@);
    let framed = framed_manifest(json);
    assert(framed =~= start + json + end);
    assert(framed.take(25) =~= start);
    assert(framed.subrange(25, 25int + json.len()) =~= json);
    crate::text::law_closes_with_its_end(start + json, end);
}

}
