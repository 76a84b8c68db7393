//! Objects in the bucket, as the HTTP service stores them.
use crate::number::decimal_of;
use crate::outside::utf8::text_lossy;
use crate::text::cat5;
use vstd::prelude::*;

verus! {

/// Name of the bucket.
pub const BUCKET_NAME: &'static str = "gmf";

/// The words for an upload that was answered with a status outside 200 to 299.
pub open spec fn put_failed_text(path: Seq<char>, status: u16, body: Seq<u8>) -> Seq<char> {
    "上传对象到 '"@ + path + "' 失败。状态码: "@ + crate::number::decimal(status as nat)
        + ". 错误信息: "@ + crate::outside::utf8::readable(body)
}

/// Judges the answer to an upload by its status.
pub fn put_object(path: &str, status: u16, body: &[u8]) -> (r: Result<(), String>)
    ensures
        r is Ok <==> 200 <= status < 300,
        r matches Err(e) ==> e@ == put_failed_text(path@, status, body@),
{
    if 200 <= status && status < 300 {
        Ok(())
    } else {
        let mut out = cat5(
            "上传对象到 '",
            path,
            "' 失败。状态码: ",
            decimal_of(status as u64).as_str(),
            ". 错误信息: ",
        );
        out.append(text_lossy(body).as_str());
        Err(out)
    }
}

/// The words about an upload that failed name the object and the status, and end with what
/// the store said.
pub proof fn law_failed_upload_is_told(path: Seq<char>, status: u16, body: Seq<u8>)
    ensures
        crate::text::occurs(put_failed_text(path, status, body), "'"@ + path + "'"@),
        crate::text::occurs(
            put_failed_text(path, status, body),
            crate::number::decimal(status as nat),
        ),
        crate::text::closes_with(
            put_failed_text(path, status, body),
            crate::outside::utf8::readable(body),
        ),
{
    let w = put_failed_text(path, status, body);
    let t = crate::outside::utf8::readable(body);
    let n = "'"@ + path + "'"@;
    reveal_strlit("'");
    reveal_strlit("上传对象到 '");
    reveal_strlit("' 失败。状态码: ");
    let k = "上传对象到 '"@.len() - 1;
    assert(w.subrange(k, k + n.len()) =~= n);
    assert(crate::text::occurs_at(w, n, k));
    let a = "上传对象到 '"@ + path + "' 失败。状态码: "@;
    let d = crate::number::decimal(status as nat);
    assert(w =~= a + d + (". 错误信息: "@ + t));
    crate::text::law_part_occurs(a, d, ". 错误信息: "@ + t);
    assert(w =~= (a + d + ". 错误信息: "@) + t);
    crate::text::law_closes_with_its_end(a + d + ". 错误信息: "@, t);
}

}
