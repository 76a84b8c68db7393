//! The source text that puts packed programs into the client.
use crate::chunk::sha256_hex;
use crate::text::{cat3, chars_of, same, string_of};
use vstd::prelude::*;
use vstd::utf8::*;

verus! {

/// A packed program.
#[derive(Debug)]
pub struct AssetInfo {
    /// What the names of its constants start with.
    pub const_prefix: String,
    /// Where the archive is.
    pub targz_path: String,
    /// SHA-256 of the program, in hexadecimal.
    pub sha256_hex: String,
}

/// The constants for one program.
pub open spec fn asset_text(asset: AssetInfo) -> Seq<char> {
    "pub const "@ + asset.const_prefix@ + "_TAR_GZ: &[u8] = include_bytes!(r#\""@
        + asset.targz_path@ + "\"#);\npub const "@ + asset.const_prefix@ + "_SHA256: &str = \""@
        + asset.sha256_hex@ + "\";\n"@
}

/// Writes the constants for one program.
pub fn asset_source(asset: &AssetInfo) -> (r: String)
    ensures
        r@ == asset_text(*asset),
{
    let mut out = cat3(
        "pub const ",
        asset.const_prefix.as_str(),
        "_TAR_GZ: &[u8] = include_bytes!(r#\"",
    );
    out.append(asset.targz_path.as_str());
    out.append("\"#);\npub const ");
    out.append(asset.const_prefix.as_str());
    out.append("_SHA256: &str = \"");
    out.append(asset.sha256_hex.as_str());
    out.append("\";\n");
    out
}

/// The constants for all programs, each with an empty line behind it.
pub open spec fn all_assets_text(assets: Seq<AssetInfo>) -> Seq<char>
    decreases assets.len(),
{
    if assets.len() == 0 {
        "// This file is automatically generated by build.rs. Do not edit.\n\n"@
    } else {
        all_assets_text(assets.drop_last()) + asset_text(assets.last()) + "\n"@
    }
}

/// Writes the source text for all programs.
pub fn embedded_source(assets: &Vec<AssetInfo>) -> (r: String)
    ensures
        r@ == all_assets_text(assets@),
{
    let mut out = "// This file is automatically generated by build.rs. Do not edit.\n\n".to_owned();
    for i in 0..assets.len()
        invariant
            out@ == all_assets_text(assets@.take(i as int)),
    {
        assert(assets@.take(i + 1).drop_last() == assets@.take(i as int));
        out.append(asset_source(&assets[i]).as_str());
        out.append("\n");
    }
    assert(assets@.take(assets@.len() as int) == assets@);
    out
}

/// The name under which a fetched archive is kept: it holds the first sixteen digits of
/// the SHA-256 of its address.
pub open spec fn cache_name(url: Seq<char>) -> Seq<char> {
    "s5cmd_"@ + crate::outside::encoding::hex_text(
        crate::outside::digest::sha256(encode_utf8(url)),
    ).take(16) + ".tar.gz"@
}

/// Names the archive that was fetched from an address.
pub fn cache_filename(url: &str) -> (r: String)
    ensures
        r@ == cache_name(url@),
{
    let digest = sha256_hex(url.as_bytes());
    let chars = chars_of(digest.as_str());
    let short = string_of(&chars, 0, 16);
    assert(short@ == digest@.take(16));
    cat3("s5cmd_", short.as_str(), ".tar.gz")
}

/// `name` starts with `head`.
pub open spec fn starts_with(name: Seq<char>, head: Seq<char>) -> bool {
    name.len() >= head.len() && name.take(head.len() as int) == head
}

/// `name` ends with `tail`.
pub open spec fn ends_with(name: Seq<char>, tail: Seq<char>) -> bool {
    name.len() >= tail.len() && name.skip(name.len() - tail.len()) == tail
}

/// Whether a file is an archive that was kept, of whatever address.
pub fn is_kept_archive(name: &str) -> (r: bool)
    ensures
        r == (starts_with(name@, "s5cmd_"@) && ends_with(name@, ".tar.gz"@)),
{
    let chars = chars_of(name);
    let len: usize = chars.len();
    proof {
        reveal_strlit("s5cmd_");
        reveal_strlit(".tar.gz");
    }
    if len < 7 {
        return false;
    }
    let head = string_of(&chars, 0, 6);
    let tail = string_of(&chars, len - 7, len);
    assert(head@ == name@.take(6));
    assert(tail@ == name@.skip(len - 7));
    same(head.as_str(), "s5cmd_") && same(tail.as_str(), ".tar.gz")
}

/// Whether archives are packed as tightly as possible: only in a release.
pub fn packs_tightly(profile: &str) -> (r: bool)
    ensures
        r == (profile@ == "release"@),
{
    same(profile, "release")
}

/// A program is packed under its own name: its archive is the one at its path, and its
/// digest is the one that was found.
pub proof fn law_asset_is_packed(asset: AssetInfo)
    ensures
        crate::text::occurs(
            asset_text(asset),
            asset.const_prefix@ + "_TAR_GZ: &[u8] = include_bytes!(r#\""@ + asset.targz_path@
                + "\"#);\n"@,
        ),
        crate::text::occurs(
            asset_text(asset),
            asset.const_prefix@ + "_SHA256: &str = \""@ + asset.sha256_hex@ + "\";\n"@,
        ),
{
    let w = asset_text(asset);
    reveal_strlit("\"#);\n");
    reveal_strlit("pub const ");
    reveal_strlit("\"#);\npub const ");
    let n = asset.const_prefix@ + "_TAR_GZ: &[u8] = include_bytes!(r#\""@ + asset.targz_path@
        + "\"#);\n"@;
    let m = asset.const_prefix@ + "_SHA256: &str = \""@ + asset.sha256_hex@ + "\";\n"@;
    assert(w =~= "pub const "@ + n + ("pub const "@ + m));
    crate::text::law_part_occurs("pub const "@, n, "pub const "@ + m);
    assert(w =~= ("pub const "@ + n + "pub const "@) + m + Seq::<char>::empty());
    crate::text::law_part_occurs("pub const "@ + n + "pub const "@, m, Seq::empty());
}

/// Every program is packed, and the ones before it stay packed as they were.
pub proof fn law_every_asset_is_packed(assets: Seq<AssetInfo>, asset: AssetInfo)
    ensures
        crate::text::occurs(all_assets_text(assets.push(asset)), asset_text(asset)),
        all_assets_text(assets.push(asset)).take(all_assets_text(assets).len() as int)
            == all_assets_text(assets),
{
    assert(assets.push(asset).drop_last() =~= assets);
    let w = all_assets_text(assets.push(asset));
    crate::text::law_part_occurs(all_assets_text(assets), asset_text(asset), "\n"@);
    assert(w.take(all_assets_text(assets).len() as int) =~= all_assets_text(assets));
}

/// An archive that was fetched is known again as one that was kept, and is not taken for one
/// from another address unless their digests start alike.
pub proof fn law_kept_archive_is_known(a: Seq<char>, b: Seq<char>)
    requires
        crate::outside::digest::sha256(encode_utf8(a)).len() == 32,
        crate::outside::digest::sha256(encode_utf8(b)).len() == 32,
    ensures
        starts_with(cache_name(a), "s5cmd_"@),
        ends_with(cache_name(a), ".tar.gz"@),
        cache_name(a) == cache_name(b) ==> crate::outside::encoding::hex_text(
            crate::outside::digest::sha256(encode_utf8(a)),
        ).take(16) == crate::outside::encoding::hex_text(
            crate::outside::digest::sha256(encode_utf8(b)),
        ).take(16),
{
    let x = cache_name(a);
    let y = cache_name(b);
    let p = crate::outside::encoding::hex_text(crate::outside::digest::sha256(encode_utf8(a)));
    let q = crate::outside::encoding::hex_text(crate::outside::digest::sha256(encode_utf8(b)));
    assert(x.take("s5cmd_"@.len() as int) =~= "s5cmd_"@);
    assert(x.skip(x.len() - ".tar.gz"@.len()) =~= ".tar.gz"@);
    let k = "s5cmd_"@.len() as int;
    assert(p.take(16) =~= x.subrange(k, k + 16));
    assert(q.take(16) =~= y.subrange(k, k + 16));
}

/// A name starts and ends with what stands around its middle.
pub proof fn law_name_starts_and_ends(head: Seq<char>, middle: Seq<char>, tail: Seq<char>)
    ensures
        starts_with(head + middle + tail, head),
        ends_with(head + middle + tail, tail),
        middle.len() > 0 ==> !starts_with(head, head + middle),
{
    let w = head + middle + tail;
    assert(w.take(head.len() as int) =~= head);
    assert(w.skip(w.len() - tail.len()) =~= tail);
}

}
