//! Opening the chunks that `openssl enc` encrypted, and putting the file together.
use crate::chunk::{sha256_hex, ChunkInfo};
use crate::common::utils::join_path;
use crate::number::decimal_of;
use crate::outside::cipher::{cbc_open, pbkdf2_sha256};
use crate::shell::remote::ManifestFile;
use crate::text::{cat2, cat3, cat4, cat5, same};
use vstd::prelude::*;
use vstd::slice::*;
use vstd::utf8::*;

verus! {

/// The bytes that a chunk starts with: `Salted__`.
pub open spec fn salt_mark() -> Seq<u8> {
    seq![83u8, 97, 108, 116, 101, 100, 95, 95]
}

/// The greatest length and number that OpenSSL takes: that of a C `int`.
pub const C_INT_MAX: u32 = 0x7fff_ffff;

/// Bytes of the mark and the salt.
pub const SALT_HEADER: usize = 16;

/// Why a file could not be put together.
#[derive(Debug)]
pub enum MergeError {
    /// A chunk has another SHA-256 than the manifest says.
    Sha256 { id: u32, stated: String, computed: String },
    /// A chunk does not start with the mark and a salt.
    NoSalt { id: u32 },
    /// No key could be derived, in the words of OpenSSL.
    Kdf(String),
    /// The chunks are encrypted in a way that is not known here.
    Cipher(String),
    /// The cipher refused a chunk, in the words of OpenSSL.
    Decrypt(String),
    /// The file is not as long as the manifest says.
    TotalSize { manifest: u64, actual: u64 },
}

/// `data` starts with the mark and a salt.
pub open spec fn has_salt(data: Seq<u8>) -> bool {
    data.len() >= SALT_HEADER && data.take(8) == salt_mark()
}

/// What is derived from a passphrase and the salt of a chunk: a key and a start value.
pub open spec fn key_material(passphrase: Seq<char>, data: Seq<u8>, iterations: u32) -> Option<
    Seq<u8>,
> {
    crate::outside::cipher::pbkdf2_derived(
        encode_utf8(passphrase),
        data.subrange(8, 16),
        iterations as nat,
        48,
    )
}

/// What a stored chunk opens to.
pub open spec fn salted_opened(material: Seq<u8>, data: Seq<u8>) -> Option<Seq<u8>> {
    crate::outside::cipher::cbc_opened(
        material.take(32),
        material.subrange(32, 48),
        data.skip(SALT_HEADER as int),
    )
}

/// `r` is what comes of a stored chunk under its entry: first the digest must fit, then
/// the mark, then a key must be derived, the cipher be known, and the chunk open.
pub open spec fn is_opened(
    r: Result<Seq<u8>, MergeError>,
    info: ChunkInfo,
    cipher: Seq<char>,
    iterations: u32,
    data: Seq<u8>,
) -> bool {
    let digest = crate::outside::encoding::hex_text(crate::outside::digest::sha256(data));
    if digest != info.sha256@ {
        r matches Err(MergeError::Sha256 { id, stated, computed }) && id == info.id && stated@
            == info.sha256@ && computed@ == digest
    } else if !has_salt(data) {
        r == Err::<Seq<u8>, MergeError>(MergeError::NoSalt { id: info.id })
    } else {
        match key_material(info.passphrase_b64@, data, iterations) {
            None => r matches Err(MergeError::Kdf(_)),
            Some(material) => if cipher != "AES-256-CBC"@ {
                r matches Err(MergeError::Cipher(name)) && name@ == cipher
            } else {
                match salted_opened(material, data) {
                    None => r matches Err(MergeError::Decrypt(_)),
                    Some(plain) => r == Ok::<Seq<u8>, MergeError>(plain),
                }
            },
        }
    }
}

/// To open the chunk would hand OpenSSL a length or a number greater than it takes. A
/// chunk that is refused before that is not over the limits, whatever its length.
pub open spec fn is_over_limit(
    info: ChunkInfo,
    cipher: Seq<char>,
    iterations: u32,
    data: Seq<u8>,
) -> bool {
    &&& crate::outside::encoding::hex_text(crate::outside::digest::sha256(data)) == info.sha256@
    &&& has_salt(data)
    &&& {
        ||| iterations > C_INT_MAX
        ||| encode_utf8(info.passphrase_b64@).len() > C_INT_MAX
        ||| key_material(info.passphrase_b64@, data, iterations) is Some && cipher
            == "AES-256-CBC"@ && data.len() > C_INT_MAX
    }
}

fn starts_salted(data: &[u8]) -> (r: bool)
    ensures
        r == has_salt(data@),
{
    if data.len() < SALT_HEADER {
        return false;
    }
    let r = data[0] == 83 && data[1] == 97 && data[2] == 108 && data[3] == 116 && data[4] == 101
        && data[5] == 100 && data[6] == 95 && data[7] == 95;
    proof {
        let head = data@.take(8);
        let mark = salt_mark();
        if r {
            assert(head =~= mark);
        } else {
            assert(head[0] != mark[0] || head[1] != mark[1] || head[2] != mark[2] || head[3]
                != mark[3] || head[4] != mark[4] || head[5] != mark[5] || head[6] != mark[6]
                || head[7] != mark[7]);
        }
    }
    r
}

/// The outcome with the bytes that it holds.
pub open spec fn outcome_view(r: Result<Vec<u8>, MergeError>) -> Result<Seq<u8>, MergeError> {
    match r {
        Ok(v) => Ok(v@),
        Err(e) => Err(e),
    }
}

/// Opens a stored chunk under its entry. Nothing comes back for a chunk that is over the
/// limits of OpenSSL.
pub fn open_salted(info: &ChunkInfo, cipher: &str, iterations: u32, data: &[u8]) -> (r: Option<
    Result<Vec<u8>, MergeError>,
>)
    ensures
        r is None <==> is_over_limit(*info, cipher@, iterations, data@),
        r matches Some(o) ==> is_opened(outcome_view(o), *info, cipher@, iterations, data@),
        r matches Some(Ok(plain)) ==> plain@.len() <= data@.len(),
{
    let digest = sha256_hex(data);
    if !same(digest.as_str(), info.sha256.as_str()) {
        return Some(
            Err(MergeError::Sha256 { id: info.id, stated: info.sha256.clone(), computed: digest }),
        );
    }
    if !starts_salted(data) {
        return Some(Err(MergeError::NoSalt { id: info.id }));
    }
    let passphrase = info.passphrase_b64.as_str().as_bytes();
    if iterations > C_INT_MAX || passphrase.len() > C_INT_MAX as usize {
        return None;
    }
    let salt = slice_subrange(data, 8, 16);
    let ciphertext = slice_subrange(data, SALT_HEADER, data.len());
    assert(ciphertext@ == data@.skip(SALT_HEADER as int));
    let material = match pbkdf2_sha256(passphrase, salt, iterations) {
        Ok(m) => m,
        Err(words) => return Some(Err(MergeError::Kdf(words))),
    };
    if !same(cipher, "AES-256-CBC") {
        return Some(Err(MergeError::Cipher(cipher.to_owned())));
    }
    if data.len() > C_INT_MAX as usize {
        return None;
    }
    let bytes = material.as_slice();
    let key = slice_subrange(bytes, 0, 32);
    let iv = slice_subrange(bytes, 32, 48);
    assert(key@ == material@.take(32));
    assert(iv@ == material@.subrange(32, 48));
    match cbc_open(key, iv, ciphertext) {
        Ok(plain) => Some(Ok(plain)),
        Err(words) => Some(Err(MergeError::Decrypt(words))),
    }
}

/// Entry by entry, the stored chunks open to `pieces`.
pub open spec fn all_open(m: ManifestFile, stored: Seq<Seq<u8>>, pieces: Seq<Seq<u8>>) -> bool {
    &&& pieces.len() <= m.chunks@.len()
    &&& forall|i: int|
        0 <= i < pieces.len() ==> is_opened(
            Ok(#[trigger] pieces[i]),
            m.chunks@[i],
            m.cipher@,
            m.kdf_iter,
            stored[i],
        ) && !is_over_limit(m.chunks@[i], m.cipher@, m.kdf_iter, stored[i])
}

/// `r` is the file that the stored chunks make up, in the order of the manifest: the
/// first chunk that does not open ends everything, and the length must fit. Nothing comes
/// back when that chunk is over the limits of OpenSSL.
pub open spec fn is_merged(
    r: Option<Result<Seq<u8>, MergeError>>,
    m: ManifestFile,
    stored: Seq<Seq<u8>>,
) -> bool {
    match r {
        Some(Ok(file)) => exists|pieces: Seq<Seq<u8>>| #[trigger]
            all_open(m, stored, pieces) && pieces.len() == m.chunks@.len() && file
                == crate::chunk::concatenated(pieces) && file.len() == m.total_size,
        Some(Err(MergeError::TotalSize { manifest, actual })) => exists|pieces: Seq<Seq<u8>>|
            #[trigger]
            all_open(m, stored, pieces) && pieces.len() == m.chunks@.len() && manifest
                == m.total_size && actual == crate::chunk::concatenated(pieces).len() && actual
                != manifest,
        Some(Err(e)) => exists|pieces: Seq<Seq<u8>>| #[trigger]
            all_open(m, stored, pieces) && pieces.len() < m.chunks@.len() && is_opened(
                Err(e),
                m.chunks@[pieces.len() as int],
                m.cipher@,
                m.kdf_iter,
                stored[pieces.len() as int],
            ) && !is_over_limit(
                m.chunks@[pieces.len() as int],
                m.cipher@,
                m.kdf_iter,
                stored[pieces.len() as int],
            ),
        None => exists|pieces: Seq<Seq<u8>>| #[trigger]
            all_open(m, stored, pieces) && pieces.len() < m.chunks@.len() && is_over_limit(
                m.chunks@[pieces.len() as int],
                m.cipher@,
                m.kdf_iter,
                stored[pieces.len() as int],
            ),
    }
}

/// The outcome of a merge with the bytes that it holds.
pub open spec fn merge_view(r: Option<Result<Vec<u8>, MergeError>>) -> Option<
    Result<Seq<u8>, MergeError>,
> {
    match r {
        Some(o) => Some(outcome_view(o)),
        None => None,
    }
}

/// Judges the length of a file that was put together.
pub fn check_total(manifest: &ManifestFile, actual: u64) -> (r: Result<(), MergeError>)
    ensures
        r is Ok <==> actual == manifest.total_size,
        r matches Err(e) ==> e == (MergeError::TotalSize {
            manifest: manifest.total_size,
            actual,
        }),
{
    if actual != manifest.total_size {
        return Err(MergeError::TotalSize { manifest: manifest.total_size, actual });
    }
    Ok(())
}

/// Opens the stored chunks of a file in the order of the manifest and puts them together.
/// `stored` holds what the file of each entry holds.
pub fn decrypt_and_merge_local(manifest: &ManifestFile, stored: &Vec<Vec<u8>>) -> (r: Option<
    Result<Vec<u8>, MergeError>,
>)
    requires
        stored@.len() == manifest.chunks@.len(),
    ensures
        is_merged(merge_view(r), *manifest, crate::chunk::byte_views(stored@)),
{
    let ghost texts = crate::chunk::byte_views(stored@);
    let ghost mut pieces: Seq<Seq<u8>> = Seq::empty();
    let mut file: Vec<u8> = Vec::new();
    for i in 0..manifest.chunks.len()
        invariant
            stored@.len() == manifest.chunks@.len(),
            texts == crate::chunk::byte_views(stored@),
            pieces.len() == i,
            all_open(*manifest, texts, pieces),
            file@ == crate::chunk::concatenated(pieces),
    {
        assert(texts[i as int] == stored@[i as int]@);
        match open_salted(
            &manifest.chunks[i],
            manifest.cipher.as_str(),
            manifest.kdf_iter,
            stored[i].as_slice(),
        ) {
            None => return None,
            Some(Err(e)) => {
                assert(!(e is TotalSize));
                return Some(Err(e));
            },
            Some(Ok(plain)) => {
                proof {
                    lemma_one_more_opens(*manifest, texts, pieces, plain@);
                    pieces = pieces.push(plain@);
                }
                let mut more = plain;
                file.append(&mut more);
            },
        }
    }
    let actual: u64 = file.len() as u64;
    assert(all_open(*manifest, texts, pieces));
    match check_total(manifest, actual) {
        Ok(_) => Some(Ok(file)),
        Err(e) => Some(Err(e)),
    }
}

proof fn lemma_one_more_opens(
    m: ManifestFile,
    stored: Seq<Seq<u8>>,
    pieces: Seq<Seq<u8>>,
    plain: Seq<u8>,
)
    requires
        all_open(m, stored, pieces),
        pieces.len() < m.chunks@.len(),
        is_opened(
            Ok(plain),
            m.chunks@[pieces.len() as int],
            m.cipher@,
            m.kdf_iter,
            stored[pieces.len() as int],
        ),
        !is_over_limit(
            m.chunks@[pieces.len() as int],
            m.cipher@,
            m.kdf_iter,
            stored[pieces.len() as int],
        ),
    ensures
        all_open(m, stored, pieces.push(plain)),
        crate::chunk::concatenated(pieces.push(plain)) == crate::chunk::concatenated(pieces)
            + plain,
{
    let more = pieces.push(plain);
    assert(more.drop_last() == pieces);
    assert forall|k: int| 0 <= k < more.len() implies is_opened(
        Ok(#[trigger] more[k]),
        m.chunks@[k],
        m.cipher@,
        m.kdf_iter,
        stored[k],
    ) && !is_over_limit(m.chunks@[k], m.cipher@, m.kdf_iter, stored[k]) by {
        if k < pieces.len() {
            assert(more[k] == pieces[k]);
        }
    }
}

/// A file that is put together chunk by chunk, in the order of the manifest, so that only
/// one of its chunks is held at a time.
#[derive(Debug)]
pub struct LocalMerge {
    /// How many chunks were opened.
    pub opened: usize,
    /// How many bytes they held.
    pub total_written: u64,
}

impl LocalMerge {
    /// The chunks that were opened so far are `pieces`.
    pub open spec fn has_opened(
        self,
        m: ManifestFile,
        stored: Seq<Seq<u8>>,
        pieces: Seq<Seq<u8>>,
    ) -> bool {
        &&& self.opened == pieces.len()
        &&& all_open(m, stored, pieces)
        &&& self.total_written == crate::chunk::concatenated(pieces).len()
    }

    /// Starts with the first chunk.
    pub fn new() -> (r: LocalMerge)
        ensures
            r.opened == 0,
            r.total_written == 0,
    {
        LocalMerge { opened: 0, total_written: 0 }
    }

    /// The file of the next chunk, if there is one.
    pub fn next_file(&self, manifest: &ManifestFile, chunks_dir: &str) -> (r: Option<String>)
        ensures
            r is Some <==> self.opened < manifest.chunks@.len(),
            r matches Some(path) ==> path@ == crate::common::utils::joined(
                chunks_dir@,
                manifest.chunks@[self.opened as int].filename@,
            ),
    {
        if self.opened < manifest.chunks.len() {
            Some(join_path(chunks_dir, manifest.chunks[self.opened].filename.as_str()))
        } else {
            None
        }
    }

    /// Opens the next chunk, which is stored as `data`. What it holds is to be written
    /// behind what was written before.
    pub fn step(&mut self, manifest: &ManifestFile, data: &[u8]) -> (r: Option<
        Result<Vec<u8>, MergeError>,
    >)
        requires
            old(self).opened < manifest.chunks@.len(),
            old(self).total_written + data@.len() <= u64::MAX,
        ensures
            r is None <==> is_over_limit(
                manifest.chunks@[old(self).opened as int],
                manifest.cipher@,
                manifest.kdf_iter,
                data@,
            ),
            r matches Some(o) ==> is_opened(
                outcome_view(o),
                manifest.chunks@[old(self).opened as int],
                manifest.cipher@,
                manifest.kdf_iter,
                data@,
            ),
            match r {
                Some(Ok(plain)) => final(self).opened == old(self).opened + 1
                    && final(self).total_written == old(self).total_written + plain@.len(),
                _ => *final(self) == *old(self),
            },
    {
        let len: usize = manifest.chunks.len();
        assert(self.opened < len);
        let r = open_salted(
            &manifest.chunks[self.opened],
            manifest.cipher.as_str(),
            manifest.kdf_iter,
            data,
        );
        match &r {
            Some(Ok(plain)) => {
                self.opened = self.opened + 1;
                self.total_written = self.total_written + plain.len() as u64;
            },
            _ => {},
        }
        r
    }

    /// Judges the file once every chunk was opened.
    pub fn finish(&self, manifest: &ManifestFile) -> (r: Result<(), MergeError>)
        requires
            self.opened == manifest.chunks@.len(),
        ensures
            r is Ok <==> self.total_written == manifest.total_size,
            r matches Err(e) ==> e == (MergeError::TotalSize {
                manifest: manifest.total_size,
                actual: self.total_written,
            }),
    {
        check_total(manifest, self.total_written)
    }
}

/// Chunk by chunk, what was opened stays what the stored chunks open to.
pub proof fn law_local_merge_goes_on(
    before: LocalMerge,
    after: LocalMerge,
    m: ManifestFile,
    stored: Seq<Seq<u8>>,
    pieces: Seq<Seq<u8>>,
    plain: Seq<u8>,
)
    requires
        before.has_opened(m, stored, pieces),
        before.opened < m.chunks@.len(),
        is_opened(
            Ok(plain),
            m.chunks@[before.opened as int],
            m.cipher@,
            m.kdf_iter,
            stored[before.opened as int],
        ),
        !is_over_limit(
            m.chunks@[before.opened as int],
            m.cipher@,
            m.kdf_iter,
            stored[before.opened as int],
        ),
        after.opened == before.opened + 1,
        after.total_written == before.total_written + plain.len(),
    ensures
        after.has_opened(m, stored, pieces.push(plain)),
{
    lemma_one_more_opens(m, stored, pieces, plain);
}

/// The file that comes of opening chunk by chunk is the one that comes of opening all.
pub proof fn law_local_merge_is_the_file(
    end: LocalMerge,
    m: ManifestFile,
    stored: Seq<Seq<u8>>,
    pieces: Seq<Seq<u8>>,
)
    requires
        end.has_opened(m, stored, pieces),
        end.opened == m.chunks@.len(),
    ensures
        end.total_written == m.total_size ==> is_merged(
            Some(Ok(crate::chunk::concatenated(pieces))),
            m,
            stored,
        ),
        end.total_written != m.total_size ==> is_merged(
            Some(
                Err(
                    MergeError::TotalSize { manifest: m.total_size, actual: end.total_written },
                ),
            ),
            m,
            stored,
        ),
{
}

impl MergeError {
    /// The error in words.
    pub open spec fn message(self) -> Seq<char> {
        match self {
            MergeError::Sha256 { id, stated, computed } => "分块 "@ + crate::number::decimal(
                id as nat,
            ) + " SHA-256 不一致 (manifest="@ + stated@ + ", 计算="@ + computed@ + ")"@,
            MergeError::NoSalt { id } => "分块 "@ + crate::number::decimal(id as nat)
                + " 缺少 \"Salted__\" 头"@,
            MergeError::Kdf(words) => words@,
            MergeError::Cipher(name) => "暂不支持算法 "@ + name@,
            MergeError::Decrypt(words) => words@,
            MergeError::TotalSize { manifest, actual } => "解密完成但大小不符: manifest="@
                + crate::number::decimal(manifest as nat) + " 实际="@ + crate::number::decimal(
                actual as nat,
            ),
        }
    }

    /// Puts the error in words.
    pub fn text(&self) -> (r: String)
        ensures
            r@ == self.message(),
    {
        match self {
            MergeError::Sha256 { id, stated, computed } => {
                let mut out = cat5(
                    "分块 ",
                    decimal_of(*id as u64).as_str(),
                    " SHA-256 不一致 (manifest=",
                    stated.as_str(),
                    ", 计算=",
                );
                out.append(computed.as_str());
                out.append(")");
                out
            },
            MergeError::NoSalt { id } => cat3(
                "分块 ",
                decimal_of(*id as u64).as_str(),
                " 缺少 \"Salted__\" 头",
            ),
            MergeError::Kdf(words) => words.clone(),
            MergeError::Cipher(name) => cat2("暂不支持算法 ", name.as_str()),
            MergeError::Decrypt(words) => words.clone(),
            MergeError::TotalSize { manifest, actual } => cat4(
                "解密完成但大小不符: manifest=",
                decimal_of(*manifest).as_str(),
                " 实际=",
                decimal_of(*actual).as_str(),
            ),
        }
    }
}

/// A chunk that was encrypted comes back: behind the mark `Salted__` stands a salt of eight
/// bytes, and behind that the ciphertext; from the passphrase and the salt come a key of
/// thirty-two bytes and a start value of sixteen, and what the cipher makes of the
/// ciphertext under them is the chunk, whatever it holds.
pub proof fn law_salted_chunk_opens(
    info: ChunkInfo,
    iterations: u32,
    salt: Seq<u8>,
    ciphertext: Seq<u8>,
    key: Seq<u8>,
    iv: Seq<u8>,
    plain: Seq<u8>,
    data: Seq<u8>,
    r: Result<Seq<u8>, MergeError>,
)
    requires
        salt.len() == 8,
        key.len() == 32,
        iv.len() == 16,
        data == "Salted__"@.map_values(|c: char| c as u8) + salt + ciphertext,
        crate::outside::encoding::hex_text(crate::outside::digest::sha256(data)) == info.sha256@,
        crate::outside::cipher::pbkdf2_derived(
            encode_utf8(info.passphrase_b64@),
            salt,
            iterations as nat,
            48,
        ) == Some(key + iv),
        crate::outside::cipher::cbc_opened(key, iv, ciphertext) == Some(plain),
        is_opened(r, info, "AES-256-CBC"@, iterations, data),
    ensures
        r == Ok::<Seq<u8>, MergeError>(plain),
        has_salt(data),
{
    reveal_strlit("Salted__");
    let mark = "Salted__"@.map_values(|c: char| c as u8);
    assert(mark =~= salt_mark());
    assert(data.take(8) =~= salt_mark());
    assert(data.subrange(8, 16) =~= salt);
    assert(data.skip(SALT_HEADER as int) =~= ciphertext);
    assert((key + iv).take(32) =~= key);
    assert((key + iv).subrange(32, 48) =~= iv);
}

/// Only what was encrypted comes back: a chunk that opens has the digest that its entry
/// says, the mark and a salt, and a cipher that is known; and it opens to one thing only.
pub proof fn law_opened_chunk_was_checked(
    a: Seq<u8>,
    b: Result<Seq<u8>, MergeError>,
    info: ChunkInfo,
    cipher: Seq<char>,
    iterations: u32,
    data: Seq<u8>,
)
    requires
        is_opened(Ok(a), info, cipher, iterations, data),
        is_opened(b, info, cipher, iterations, data),
    ensures
        b == Ok::<Seq<u8>, MergeError>(a),
        crate::outside::encoding::hex_text(crate::outside::digest::sha256(data)) == info.sha256@,
        has_salt(data),
        cipher == "AES-256-CBC"@,
{
}

/// A chunk that was changed is refused by its number: one with another digest than its
/// entry says, whatever it holds, and one without the mark.
pub proof fn law_changed_salted_chunk_is_refused(
    r: Result<Seq<u8>, MergeError>,
    info: ChunkInfo,
    cipher: Seq<char>,
    iterations: u32,
    data: Seq<u8>,
)
    requires
        is_opened(r, info, cipher, iterations, data),
    ensures
        crate::outside::encoding::hex_text(crate::outside::digest::sha256(data)) != info.sha256@
            <==> (r matches Err(MergeError::Sha256 { .. })),
        r matches Err(MergeError::Sha256 { id, stated, computed }) ==> id == info.id && stated@
            == info.sha256@ && computed@ == crate::outside::encoding::hex_text(
            crate::outside::digest::sha256(data),
        ),
        data.len() < 16 ==> r is Err,
        r matches Err(MergeError::NoSalt { id }) ==> id == info.id,
        r matches Err(MergeError::Cipher(name)) ==> name@ == cipher && cipher != "AES-256-CBC"@,
        !(r matches Err(MergeError::TotalSize { .. })),
{
}

/// Only lengths that OpenSSL cannot take are over the limits: two gibibytes and more.
pub proof fn law_ordinary_chunk_is_within_limits(
    info: ChunkInfo,
    cipher: Seq<char>,
    iterations: u32,
    data: Seq<u8>,
)
    ensures
        iterations < 0x8000_0000 && encode_utf8(info.passphrase_b64@).len() < 0x8000_0000
            && data.len() < 0x8000_0000 ==> !is_over_limit(info, cipher, iterations, data),
        is_over_limit(info, cipher, iterations, data) ==> iterations >= 0x8000_0000
            || encode_utf8(info.passphrase_b64@).len() >= 0x8000_0000 || data.len()
            >= 0x8000_0000,
{
}

proof fn lemma_opens_to_one_thing(
    m: ManifestFile,
    stored: Seq<Seq<u8>>,
    a: Seq<Seq<u8>>,
    b: Seq<Seq<u8>>,
)
    requires
        all_open(m, stored, a),
        all_open(m, stored, b),
        a.len() == b.len(),
    ensures
        a == b,
{
    assert forall|i: int| 0 <= i < a.len() implies a[i] == b[i] by {
        assert(is_opened(Ok(a[i]), m.chunks@[i], m.cipher@, m.kdf_iter, stored[i]));
        assert(is_opened(Ok(b[i]), m.chunks@[i], m.cipher@, m.kdf_iter, stored[i]));
    }
    assert(a =~= b);
}

/// A file whose chunks all open is put together: when each opens to its piece and they are
/// as long together as the manifest says, what comes back is the pieces one behind the
/// other, and nothing else.
pub proof fn law_merge_gives_the_pieces(
    r: Option<Result<Seq<u8>, MergeError>>,
    m: ManifestFile,
    stored: Seq<Seq<u8>>,
    pieces: Seq<Seq<u8>>,
)
    requires
        is_merged(r, m, stored),
        all_open(m, stored, pieces),
        pieces.len() == m.chunks@.len(),
        crate::chunk::concatenated(pieces).len() <= u64::MAX,
    ensures
        crate::chunk::concatenated(pieces).len() == m.total_size ==> r == Some(
            Ok::<Seq<u8>, MergeError>(crate::chunk::concatenated(pieces)),
        ),
        crate::chunk::concatenated(pieces).len() != m.total_size ==> r == Some(
            Err::<Seq<u8>, MergeError>(
                MergeError::TotalSize {
                    manifest: m.total_size,
                    actual: crate::chunk::concatenated(pieces).len() as u64,
                },
            ),
        ),
{
    match r {
        Some(Ok(file)) => {
            let p = choose|p: Seq<Seq<u8>>| #[trigger]
                all_open(m, stored, p) && p.len() == m.chunks@.len() && file
                    == crate::chunk::concatenated(p) && file.len() == m.total_size;
            lemma_opens_to_one_thing(m, stored, p, pieces);
        },
        Some(Err(MergeError::TotalSize { manifest, actual })) => {
            let p = choose|p: Seq<Seq<u8>>| #[trigger]
                all_open(m, stored, p) && p.len() == m.chunks@.len() && manifest == m.total_size
                    && actual == crate::chunk::concatenated(p).len() && actual != manifest;
            lemma_opens_to_one_thing(m, stored, p, pieces);
        },
        Some(Err(e)) => {
            let p = choose|p: Seq<Seq<u8>>| #[trigger]
                all_open(m, stored, p) && p.len() < m.chunks@.len() && is_opened(
                    Err(e),
                    m.chunks@[p.len() as int],
                    m.cipher@,
                    m.kdf_iter,
                    stored[p.len() as int],
                );
            assert(is_opened(
                Ok(pieces[p.len() as int]),
                m.chunks@[p.len() as int],
                m.cipher@,
                m.kdf_iter,
                stored[p.len() as int],
            ));
        },
        None => {
            let p = choose|p: Seq<Seq<u8>>| #[trigger]
                all_open(m, stored, p) && p.len() < m.chunks@.len() && is_over_limit(
                    m.chunks@[p.len() as int],
                    m.cipher@,
                    m.kdf_iter,
                    stored[p.len() as int],
                );
            assert(is_opened(
                Ok(pieces[p.len() as int]),
                m.chunks@[p.len() as int],
                m.cipher@,
                m.kdf_iter,
                stored[p.len() as int],
            ));
        },
    }
}

/// A file that was put together is as long as its manifest says.
pub proof fn law_merged_file_has_its_length(
    file: Seq<u8>,
    m: ManifestFile,
    stored: Seq<Seq<u8>>,
)
    requires
        is_merged(Some(Ok(file)), m, stored),
    ensures
        file.len() == m.total_size,
{
}

/// The words about a file that could not be put together say what is wrong: both digests of
/// a chunk that was changed, the cipher that is not known, and the words of OpenSSL as they
/// are.
pub proof fn law_merge_error_says_what_is_wrong(e: MergeError)
    ensures
        e matches MergeError::Sha256 { id, stated, computed } ==> crate::text::occurs(
            e.message(),
            stated@,
        ) && crate::text::occurs(e.message(), computed@) && crate::text::occurs(
            e.message(),
            crate::number::decimal(id as nat),
        ),
        e matches MergeError::NoSalt { id } ==> crate::text::occurs(
            e.message(),
            crate::number::decimal(id as nat),
        ),
        e matches MergeError::Cipher(name) ==> crate::text::occurs(e.message(), name@),
        e matches MergeError::Kdf(words) ==> e.message() == words@,
        e matches MergeError::Decrypt(words) ==> e.message() == words@,
        e matches MergeError::TotalSize { manifest, actual } ==> crate::text::occurs(
            e.message(),
            crate::number::decimal(manifest as nat),
        ) && crate::text::occurs(e.message(), crate::number::decimal(actual as nat)),
{
    let w = e.message();
    let none = Seq::<char>::empty();
    match e {
        MergeError::Sha256 { id, stated, computed } => {
            let a = "分块 "@;
            let b = crate::number::decimal(id as nat);
            let c = " SHA-256 不一致 (manifest="@;
            let d = stated@;
            let f = ", 计算="@;
            let g = computed@;
            let h = ")"@;
            assert(w =~= a + b + (c + d + f + g + h));
            crate::text::law_part_occurs(a, b, c + d + f + g + h);
            assert(w =~= (a + b + c) + d + (f + g + h));
            crate::text::law_part_occurs(a + b + c, d, f + g + h);
            assert(w =~= (a + b + c + d + f) + g + h);
            crate::text::law_part_occurs(a + b + c + d + f, g, h);
        },
        MergeError::NoSalt { id } => {
            crate::text::law_part_occurs(
                "分块 "@,
                crate::number::decimal(id as nat),
                " 缺少 \"Salted__\" 头"@,
            );
        },
        MergeError::Cipher(name) => {
            assert(w =~= "暂不支持算法 "@ + name@ + none);
            crate::text::law_part_occurs("暂不支持算法 "@, name@, none);
        },
        MergeError::TotalSize { manifest, actual } => {
            let a = "解密完成但大小不符: manifest="@;
            let b = crate::number::decimal(manifest as nat);
            let c = " 实际="@;
            let d = crate::number::decimal(actual as nat);
            assert(w =~= a + b + (c + d));
            crate::text::law_part_occurs(a, b, c + d);
            assert(w =~= (a + b + c) + d + none);
            crate::text::law_part_occurs(a + b + c, d, none);
        },
        _ => {},
    }
}

/// A chunk that is what the manifest says is left aside only for a number or a length beyond
/// what a C `int` holds.
pub proof fn law_left_aside_only_beyond_c_int(
    info: ChunkInfo,
    cipher: Seq<char>,
    iterations: u32,
    data: Seq<u8>,
)
    requires
        is_over_limit(info, cipher, iterations, data),
    ensures
        iterations > 2_147_483_647 || encode_utf8(info.passphrase_b64@).len() > 2_147_483_647
            || data.len() > 2_147_483_647,
{
}

}
