//! Answers in JSON, and what is read of them.
use crate::cloudflare::worker::{text_of, WorkerEntry};
use crate::text::same;
use vstd::prelude::*;

verus! {

/// A JSON value, as far as answers are read.
#[derive(Debug)]
pub enum Json {
    Text(String),
    List(Vec<Json>),
    Record(Vec<(String, Json)>),
    /// Anything else.
    Other,
}

/// The value of the first entry under `key`, if there is one.
pub open spec fn entry(entries: Seq<(String, Json)>, key: Seq<char>) -> Option<Json>
    decreases entries.len(),
{
    if entries.len() == 0 {
        None
    } else if entries[0].0@ == key {
        Some(entries[0].1)
    } else {
        entry(entries.drop_first(), key)
    }
}

impl Json {
    /// What a record holds under `key`; other values hold nothing.
    pub open spec fn field(self, key: Seq<char>) -> Option<Json> {
        match self {
            Json::Record(entries) => entry(entries@, key),
            _ => None,
        }
    }

    /// The text that a record holds under `key`, where it is one.
    pub open spec fn text_at(self, key: Seq<char>) -> Option<Seq<char>> {
        match self.field(key) {
            Some(Json::Text(t)) => Some(t@),
            _ => None,
        }
    }

    /// The values of the list that a record holds under `key`, where it is one.
    pub open spec fn list_at(self, key: Seq<char>) -> Seq<Json> {
        match self.field(key) {
            Some(Json::List(values)) => values@,
            _ => Seq::empty(),
        }
    }

    /// Finds what a record holds under `key`.
    pub fn get(&self, key: &str) -> (r: Option<&Json>)
        ensures
            match r {
                Some(v) => self.field(key@) == Some(*v),
                None => self.field(key@) is None,
            },
    {
        match self {
            Json::Record(entries) => {
                assert(entries@.skip(0) == entries@);
                for i in 0..entries.len()
                    invariant
                        self.field(key@) == entry(entries@.skip(i as int), key@),
                {
                    assert(entries@.skip(i as int)[0] == entries@[i as int]);
                    assert(entries@.skip(i as int).drop_first() == entries@.skip(i + 1));
                    if same(entries[i].0.as_str(), key) {
                        return Some(&entries[i].1);
                    }
                }
                None
            },
            _ => None,
        }
    }

    /// Finds the text that a record holds under `key`.
    pub fn get_text(&self, key: &str) -> (r: Option<String>)
        ensures
            text_of(r) == self.text_at(key@),
    {
        match self.get(key) {
            Some(Json::Text(t)) => Some(t.clone()),
            _ => None,
        }
    }
}

/// Reads the workers from the answer to the question for their list. An answer without a
/// list has none, and what is not text in an entry is not there.
pub fn read_workers(answer: &Json) -> (r: Vec<WorkerEntry>)
    ensures
        r@.len() == answer.list_at("result"@).len(),
        forall|i: int|
            0 <= i < r@.len() ==> text_of((#[trigger] r@[i]).id) == answer.list_at("result"@)[i].text_at(
                "id"@,
            ) && text_of(r@[i].etag) == answer.list_at("result"@)[i].text_at("etag"@),
{
    let mut out: Vec<WorkerEntry> = Vec::new();
    match answer.get("result") {
        Some(Json::List(values)) => {
            for i in 0..values.len()
                invariant
                    answer.list_at("result"@) == values@,
                    out@.len() == i,
                    forall|k: int|
                        0 <= k < i ==> text_of((#[trigger] out@[k]).id) == values@[k].text_at("id"@)
                            && text_of(out@[k].etag) == values@[k].text_at("etag"@),
            {
                let value = &values[i];
                out.push(WorkerEntry { id: value.get_text("id"), etag: value.get_text("etag") });
            }
        },
        _ => {},
    }
    out
}

/// The tag in the answer to an upload, if there is one.
pub open spec fn uploaded_etag(answer: Json) -> Option<Seq<char>> {
    match answer.field("result"@) {
        Some(result) => result.text_at("etag"@),
        None => None,
    }
}

/// Reads the tag from the answer to an upload.
pub fn read_etag(answer: &Json) -> (r: Option<String>)
    ensures
        text_of(r) == uploaded_etag(*answer),
{
    match answer.get("result") {
        Some(result) => result.get_text("etag"),
        None => None,
    }
}

proof fn lemma_entry_behind(
    before: Seq<(String, Json)>,
    rest: Seq<(String, Json)>,
    key: Seq<char>,
)
    requires
        forall|i: int| 0 <= i < before.len() ==> (#[trigger] before[i]).0@ != key,
    ensures
        entry(before + rest, key) == entry(rest, key),
    decreases before.len(),
{
    if before.len() == 0 {
        assert(before + rest =~= rest);
    } else {
        let d = before.drop_first();
        assert forall|i: int| 0 <= i < d.len() implies (#[trigger] d[i]).0@ != key by {
            assert(d[i] == before[i + 1]);
        }
        lemma_entry_behind(d, rest, key);
        assert((before + rest)[0] == before[0]);
        assert((before + rest).drop_first() =~= d + rest);
    }
}

/// A record holds under a key what its first entry with that key says, wherever that stands;
/// and nothing under a key that no entry has.
pub proof fn law_entry_is_found_by_its_key(
    before: Seq<(String, Json)>,
    found: (String, Json),
    rest: Seq<(String, Json)>,
)
    requires
        forall|i: int| 0 <= i < before.len() ==> (#[trigger] before[i]).0@ != found.0@,
    ensures
        entry(before + seq![found] + rest, found.0@) == Some(found.1),
        entry(before, found.0@) is None,
{
    let tail = seq![found] + rest;
    assert(before + seq![found] + rest =~= before + tail);
    lemma_entry_behind(before, tail, found.0@);
    assert(tail[0] == found);
    lemma_entry_behind(before, Seq::empty(), found.0@);
    assert(before + Seq::<(String, Json)>::empty() =~= before);
}

/// What is read of a value is what stands there: a text is read as it is, the values of a
/// list all and in their order, and where there is something else nothing is read.
pub proof fn law_values_are_read_as_they_are(value: Json, key: Seq<char>)
    ensures
        value.field(key) matches Some(Json::Text(t)) ==> value.text_at(key) == Some(t@),
        !(value.field(key) matches Some(Json::Text(_))) ==> value.text_at(key) is None,
        value.field(key) matches Some(Json::List(values)) ==> value.list_at(key) == values@,
        !(value.field(key) matches Some(Json::List(_))) ==> value.list_at(key).len() == 0,
        !(value is Record) ==> value.field(key) is None,
        value matches Json::Record(entries) ==> value.field(key) == entry(entries@, key),
{
}

/// The tag of an upload is the one that the answer gives under its result, whatever else it
/// says; an answer that gives none has none.
pub proof fn law_uploaded_etag_is_the_one_given(answer: Json, result: Json)
    requires
        answer.field("result"@) == Some(result),
    ensures
        result.field("etag"@) matches Some(Json::Text(t)) ==> uploaded_etag(answer) == Some(t@),
        result.field("etag"@) is None ==> uploaded_etag(answer) is None,
{
}

}
