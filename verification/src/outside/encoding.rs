//! Bytes and dates as text: `base64`, `hex` and `httpdate`.
use crate::number::decimal_of;
use crate::text::{cat2, cat5};
use base64::engine::general_purpose::STANDARD;
use base64::{DecodeError, Engine};
use vstd::prelude::*;

verus! {

/// What `STANDARD.encode` of `base64` makes of some bytes.
pub uninterp spec fn base64_text(data: Seq<u8>) -> Seq<char>;

/// Why a text is not Base64: the variants of `base64::DecodeError`.
#[derive(Debug, Clone, Copy, PartialEq, Eq, Structural)]
pub enum Base64Fault {
    /// A byte that no Base64 holds, and where it stands.
    InvalidByte(usize, u8),
    /// A length that no Base64 has.
    InvalidLength(usize),
    /// A last symbol with bits that would be lost, and where it stands.
    InvalidLastSymbol(usize, u8),
    /// Padding that is not as it must be.
    InvalidPadding,
}

impl Base64Fault {
    /// The fault in the words of `base64`.
    pub open spec fn message(self) -> Seq<char> {
        match self {
            Base64Fault::InvalidByte(offset, byte) => "Invalid symbol "@ + crate::number::decimal(
                byte as nat,
            ) + ", offset "@ + crate::number::decimal(offset as nat) + "."@,
            Base64Fault::InvalidLength(len) => "Invalid input length: "@ + crate::number::decimal(
                len as nat,
            ),
            Base64Fault::InvalidLastSymbol(offset, byte) => "Invalid last symbol "@
                + crate::number::decimal(byte as nat) + ", offset "@ + crate::number::decimal(
                offset as nat,
            ) + "."@,
            Base64Fault::InvalidPadding => "Invalid padding"@,
        }
    }

    /// Puts the fault in words.
    pub fn text(&self) -> (r: String)
        ensures
            r@ == self.message(),
    {
        match self {
            Base64Fault::InvalidByte(offset, byte) => cat5(
                "Invalid symbol ",
                decimal_of(*byte as u64).as_str(),
                ", offset ",
                decimal_of(*offset as u64).as_str(),
                ".",
            ),
            Base64Fault::InvalidLength(len) => cat2(
                "Invalid input length: ",
                decimal_of(*len as u64).as_str(),
            ),
            Base64Fault::InvalidLastSymbol(offset, byte) => cat5(
                "Invalid last symbol ",
                decimal_of(*byte as u64).as_str(),
                ", offset ",
                decimal_of(*offset as u64).as_str(),
                ".",
            ),
            Base64Fault::InvalidPadding => "Invalid padding".to_owned(),
        }
    }
}

/// What `STANDARD.decode` of `base64` makes of a text: the bytes, or what is wrong when
/// the text is not their one padded encoding.
pub uninterp spec fn base64_data(text: Seq<char>) -> Result<Seq<u8>, Base64Fault>;

/// `STANDARD.encode` of `base64`. What it writes, `STANDARD.decode` reads back. The
/// text takes four characters for each three bytes begun, which must fit into one
/// allocation.
#[verifier::external_body]
pub(crate) fn base64_encode(data: &[u8]) -> (r: String)
    requires
        (data@.len() + 2) / 3 * 4 <= isize::MAX,
    ensures
        r@ == base64_text(data@),
        base64_data(r@) is Ok && base64_data(r@)->Ok_0 == data@,
{
    STANDARD.encode(data)
}

/// `STANDARD.decode` of `base64`.
#[verifier::external_body]
pub(crate) fn base64_decode(text: &str) -> (r: Result<Vec<u8>, Base64Fault>)
    ensures
        r matches Ok(d) ==> base64_data(text@) is Ok && base64_data(text@)->Ok_0 == d@,
        r matches Err(f) ==> base64_data(text@) is Err && base64_data(text@)->Err_0 == f,
{
    STANDARD.decode(text).map_err(|e| match e {
        DecodeError::InvalidByte(offset, byte) => Base64Fault::InvalidByte(offset, byte),
        DecodeError::InvalidLength(len) => Base64Fault::InvalidLength(len),
        DecodeError::InvalidLastSymbol(offset, byte) => Base64Fault::InvalidLastSymbol(offset, byte),
        DecodeError::InvalidPadding => Base64Fault::InvalidPadding,
    })
}

/// Each byte as two lower case hexadecimal digits, the high one first.
pub open spec fn hex_text(data: Seq<u8>) -> Seq<char> {
    Seq::new(
        data.len() * 2,
        |i: int|
            crate::number::digit_char(
                if i % 2 == 0 {
                    (data[i / 2] / 16) as nat
                } else {
                    (data[i / 2] % 16) as nat
                },
            ),
    )
}

/// `hex::encode`: two lower case digits for each byte, which must fit into one
/// allocation.
#[verifier::external_body]
pub(crate) fn hex_encode(data: &[u8]) -> (r: String)
    requires
        data@.len() * 2 <= isize::MAX,
    ensures
        r@ == hex_text(data@),
{
    hex::encode(data)
}

/// What `httpdate::parse_http_date` makes of a text: seconds since 1970, or nothing
/// when the text is no date.
pub uninterp spec fn http_date(text: Seq<char>) -> Option<u64>;

/// `httpdate::parse_http_date`: a date of whole seconds, never before 1970.
#[verifier::external_body]
pub(crate) fn parse_http_date(text: &str) -> (r: Option<u64>)
    ensures
        r == http_date(text@),
{
    let date = httpdate::parse_http_date(text).ok()?;
    date.duration_since(std::time::SystemTime::UNIX_EPOCH).ok().map(|d| d.as_secs())
}

/// Bytes are written one behind the other, each as two digits that make up its value.
pub proof fn law_hex_byte_by_byte(a: Seq<u8>, b: Seq<u8>, byte: u8)
    ensures
        hex_text(a + b) == hex_text(a) + hex_text(b),
        hex_text(a).len() == 2 * a.len(),
        exists|high: nat, low: nat|
            hex_text(seq![byte]) == seq![
                #[trigger] crate::number::digit_char(high),
                #[trigger] crate::number::digit_char(low),
            ] && high < 16 && low < 16 && 16 * high + low == byte,
{
    let x = hex_text(a + b);
    let y = hex_text(a) + hex_text(b);
    assert forall|i: int| 0 <= i < x.len() implies x[i] == y[i] by {
        if i >= 2 * a.len() {
            let k = i - 2 * a.len();
            assert(k / 2 == i / 2 - a.len() && k % 2 == i % 2);
        } else {
            assert(i / 2 < a.len());
        }
    }
    assert(x =~= y);
    let high = (byte / 16) as nat;
    let low = (byte % 16) as nat;
    assert(hex_text(seq![byte]) =~= seq![
        crate::number::digit_char(high),
        crate::number::digit_char(low),
    ]);
    assert(16 * high + low == byte);
}

/// The words about a text that is not Base64 say what is wrong and where.
pub proof fn law_base64_fault_says_where(offset: usize, byte: u8)
    ensures
        crate::text::occurs(
            Base64Fault::InvalidByte(offset, byte).message(),
            "symbol "@ + crate::number::decimal(byte as nat) + ", offset "@
                + crate::number::decimal(offset as nat) + "."@,
        ),
        crate::text::occurs(
            Base64Fault::InvalidLastSymbol(offset, byte).message(),
            "last symbol "@ + crate::number::decimal(byte as nat) + ", offset "@
                + crate::number::decimal(offset as nat) + "."@,
        ),
        crate::text::closes_with(
            Base64Fault::InvalidLength(offset).message(),
            crate::number::decimal(offset as nat),
        ),
{
    reveal_strlit("Invalid symbol ");
    reveal_strlit("Invalid last symbol ");
    reveal_strlit("symbol ");
    reveal_strlit("last symbol ");
    let tail = crate::number::decimal(byte as nat) + ", offset "@ + crate::number::decimal(
        offset as nat,
    ) + "."@;
    let none = Seq::<char>::empty();
    let head = "Invalid symbol "@.take(8);
    let n = "symbol "@ + crate::number::decimal(byte as nat) + ", offset "@
        + crate::number::decimal(offset as nat) + "."@;
    assert(Base64Fault::InvalidByte(offset, byte).message() =~= head + n + none);
    crate::text::law_part_occurs(head, n, none);
    let m = "last symbol "@ + crate::number::decimal(byte as nat) + ", offset "@
        + crate::number::decimal(offset as nat) + "."@;
    assert(Base64Fault::InvalidLastSymbol(offset, byte).message() =~= head + m + none);
    crate::text::law_part_occurs(head, m, none);
    crate::text::law_closes_with_its_end(
        "Invalid input length: "@,
        crate::number::decimal(offset as nat),
    );
}

}
