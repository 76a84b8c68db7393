//! Emptying and deleting the bucket when the client is done with it.
use crate::common::r2::list_objects;
use crate::number::decimal_of;
use crate::outside::utf8::{quote_text, text_lossy};
use crate::text::{cat4, cat5, join_with};
use vstd::prelude::*;

verus! {

/// Name of the bucket.
pub const BUCKET_NAME: &'static str = "gmf";

/// The keys of all objects, page after page.
pub fn list_all_object_keys(pages: Vec<Vec<String>>) -> (r: Vec<String>)
    ensures
        crate::text::views(r@) == crate::text::views(crate::common::r2::all_keys(pages@)),
{
    list_objects(pages)
}

/// The words for an answer with another status than was wanted.
pub open spec fn status_text(
    what: Seq<char>,
    path: Seq<char>,
    status: u16,
    body: Seq<u8>,
) -> Seq<char> {
    what + " '"@ + path + "' 失败，API 返回非成功状态码: "@ + crate::number::decimal(
        status as nat,
    ) + ", 响应体: "@ + crate::outside::utf8::quoted_text(crate::outside::utf8::readable(body))
}

fn write_status(what: &str, path: &str, status: u16, body: &[u8]) -> (r: String)
    ensures
        r@ == status_text(what@, path@, status, body@),
{
    let mut out = cat4(what, " '", path, "' 失败，API 返回非成功状态码: ");
    out.append(decimal_of(status as u64).as_str());
    out.append(", 响应体: ");
    out.append(quote_text(text_lossy(body).as_str()).as_str());
    out
}

/// Judges the answer to the fetching of an object.
pub fn get_object(path: &str, status: u16, body: Vec<u8>) -> (r: Result<Vec<u8>, String>)
    ensures
        r is Ok <==> status == 200,
        r matches Ok(data) ==> data == body,
        r matches Err(e) ==> e@ == status_text("下载对象"@, path@, status, body@),
{
    if status != 200 {
        return Err(write_status("下载对象", path, status, body.as_slice()));
    }
    Ok(body)
}

/// Judges the answer to the deletion of an object.
pub fn delete_object(path: &str, status: u16, body: &[u8]) -> (r: Result<(), String>)
    ensures
        r is Ok <==> status == 204,
        r matches Err(e) ==> e@ == status_text("删除对象"@, path@, status, body@),
{
    if status != 204 {
        return Err(write_status("删除对象", path, status, body));
    }
    Ok(())
}

/// An object that was not deleted, and why.
#[derive(Debug)]
pub struct DeleteFailure {
    pub key: String,
    pub reason: String,
}

/// One line on an object that was not deleted.
pub open spec fn failure_line(f: DeleteFailure) -> Seq<char> {
    "  - 删除 '"@ + f.key@ + "' 失败: "@ + f.reason@
}

/// The words for a bucket that was not emptied: how many objects stayed, and a line on
/// each.
pub open spec fn not_cleared_text(failures: Seq<DeleteFailure>) -> Seq<char> {
    "清空存储桶时发生 "@ + crate::number::decimal(failures.len()) + " 个错误:\n"@
        + crate::text::joined_with(failures.map_values(|f: DeleteFailure| failure_line(f)), "\n"@)
}

/// Judges the deletion of all objects by those that stayed.
pub fn clear_bucket(failures: &Vec<DeleteFailure>) -> (r: Result<(), String>)
    ensures
        r is Ok <==> failures@.len() == 0,
        r matches Err(e) ==> e@ == not_cleared_text(failures@),
{
    if failures.len() == 0 {
        return Ok(());
    }
    let ghost wanted = failures@.map_values(|f: DeleteFailure| failure_line(f));
    let mut lines: Vec<String> = Vec::new();
    for i in 0..failures.len()
        invariant
            wanted == failures@.map_values(|f: DeleteFailure| failure_line(f)),
            crate::text::views(lines@) == wanted.take(i as int),
    {
        let ghost before = crate::text::views(lines@);
        let line = cat4(
            "  - 删除 '",
            failures[i].key.as_str(),
            "' 失败: ",
            failures[i].reason.as_str(),
        );
        let ghost text = line@;
        lines.push(line);
        assert(crate::text::views(lines@) =~= before.push(text));
        assert(wanted.take(i + 1) =~= wanted.take(i as int).push(wanted[i as int]));
    }
    assert(wanted.take(failures@.len() as int) == wanted);
    Err(
        cat4(
            "清空存储桶时发生 ",
            decimal_of(failures.len() as u64).as_str(),
            " 个错误:\n",
            join_with(&lines, "\n").as_str(),
        ),
    )
}

/// Judges the answer to the deletion of the bucket.
pub fn delete_bucket(status: u16) -> (r: Result<(), String>)
    ensures
        r is Ok <==> status == 204,
        r matches Err(e) ==> e@ == "删除存储桶 '"@ + BUCKET_NAME@
            + "' 失败，API 返回非预期的状态码: "@ + crate::number::decimal(status as nat)
            + " (预期为 204)"@,
{
    if status == 204 {
        Ok(())
    } else {
        Err(
            cat5(
                "删除存储桶 '",
                BUCKET_NAME,
                "' 失败，API 返回非预期的状态码: ",
                decimal_of(status as u64).as_str(),
                " (预期为 204)",
            ),
        )
    }
}

/// The words about an object that could not be fetched or deleted start with what was tried,
/// name the object and the status, and end with what the store said, between quotes.
pub proof fn law_failed_answer_is_told(
    what: Seq<char>,
    path: Seq<char>,
    status: u16,
    body: Seq<u8>,
)
    ensures
        status_text(what, path, status, body).take(what.len() as int) == what,
        crate::text::occurs(status_text(what, path, status, body), "'"@ + path + "'"@),
        crate::text::occurs(
            status_text(what, path, status, body),
            crate::number::decimal(status as nat),
        ),
        crate::text::closes_with(
            status_text(what, path, status, body),
            crate::outside::utf8::quoted_text(crate::outside::utf8::readable(body)),
        ),
{
    let w = status_text(what, path, status, body);
    let t = crate::outside::utf8::quoted_text(crate::outside::utf8::readable(body));
    let d = crate::number::decimal(status as nat);
    let n = "'"@ + path + "'"@;
    reveal_strlit("'");
    reveal_strlit(" '");
    reveal_strlit("' 失败，API 返回非成功状态码: ");
    assert(w.take(what.len() as int) =~= what);
    let k = what.len() as int + 1;
    assert(w.subrange(k, k + n.len()) =~= n);
    assert(crate::text::occurs_at(w, n, k));
    let a = what + " '"@ + path + "' 失败，API 返回非成功状态码: "@;
    assert(w =~= a + d + (", 响应体: "@ + t));
    crate::text::law_part_occurs(a, d, ", 响应体: "@ + t);
    assert(w =~= (a + d + ", 响应体: "@) + t);
    crate::text::law_closes_with_its_end(a + d + ", 响应体: "@, t);
}

/// Every object that stayed is told: the words hold how many there are, and a line on each
/// with its key and its reason.
pub proof fn law_every_object_that_stayed_is_told(failures: Seq<DeleteFailure>, i: int)
    requires
        0 <= i < failures.len(),
    ensures
        crate::text::occurs(not_cleared_text(failures), failure_line(failures[i])),
        crate::text::occurs(not_cleared_text(failures), crate::number::decimal(failures.len())),
        crate::text::occurs(failure_line(failures[i]), "'"@ + failures[i].key@ + "'"@),
        crate::text::closes_with(failure_line(failures[i]), failures[i].reason@),
{
    let w = not_cleared_text(failures);
    let lines = failures.map_values(|f: DeleteFailure| failure_line(f));
    let head = "清空存储桶时发生 "@ + crate::number::decimal(failures.len()) + " 个错误:\n"@;
    let all = crate::text::joined_with(lines, "\n"@);
    let none = Seq::<char>::empty();
    crate::text::law_joined_holds_each_part(lines, "\n"@, i);
    assert(lines[i] == failure_line(failures[i]));
    assert(w =~= head + all + none);
    crate::text::law_part_occurs(head, all, none);
    assert(w =~= "清空存储桶时发生 "@ + crate::number::decimal(failures.len()) + (
    " 个错误:\n"@ + all));
    crate::text::law_part_occurs(
        "清空存储桶时发生 "@,
        crate::number::decimal(failures.len()),
        " 个错误:\n"@ + all,
    );
    lemma_failure_line(failures[i]);
}

proof fn lemma_failure_line(failure: DeleteFailure)
    ensures
        crate::text::occurs(failure_line(failure), "'"@ + failure.key@ + "'"@),
        crate::text::closes_with(failure_line(failure), failure.reason@),
{
    let f = failure_line(failure);
    let n = "'"@ + failure.key@ + "'"@;
    reveal_strlit("'");
    reveal_strlit("  - 删除 '");
    reveal_strlit("' 失败: ");
    let k = "  - 删除 '"@.len() - 1;
    assert(f.subrange(k, k + n.len()) =~= n);
    assert(crate::text::occurs_at(f, n, k));
    crate::text::law_closes_with_its_end("  - 删除 '"@ + failure.key@ + "' 失败: "@, failure.reason@);
}

}
