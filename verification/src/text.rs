//! Text as sequences of characters: searching, trimming, splitting and joining.
use vstd::prelude::*;

verus! {

/// Appends one character to a string: `String::push` adds `c` at the end and
/// leaves everything before it as it was.
pub assume_specification[ String::push ](s: &mut String, c: char)
    ensures
        final(s)@ == old(s)@.push(c),
;

/// The characters of `s`, in order.
pub fn chars_of(s: &str) -> (out: Vec<char>)
    ensures
        out@ == s@,
{
    let mut out: Vec<char> = Vec::new();
    for c in it: s.chars()
        invariant
            out@ == it.seq().take(it.index() as int),
            it.seq() == s@,
    {
        out.push(c);
    }
    out
}

/// The characters `from..to` of `chars` as a string.
pub fn string_of(chars: &Vec<char>, from: usize, to: usize) -> (out: String)
    requires
        from <= to <= chars@.len(),
    ensures
        out@ == chars@.subrange(from as int, to as int),
{
    let mut out = String::new();
    for i in from..to
        invariant
            from <= to <= chars@.len(),
            out@ == chars@.subrange(from as int, i as int),
    {
        out.push(chars[i]);
        assert(chars@.subrange(from as int, i + 1) == chars@.subrange(from as int, i as int).push(
            chars@[i as int],
        ));
    }
    out
}

/// `a` with `b` behind it.
pub fn cat2(a: &str, b: &str) -> (out: String)
    ensures
        out@ == a@ + b@,
{
    let mut out = a.to_owned();
    out.append(b);
    out
}

/// `a`, `b` and `c`, one behind the other.
pub fn cat3(a: &str, b: &str, c: &str) -> (out: String)
    ensures
        out@ == a@ + b@ + c@,
{
    let mut out = cat2(a, b);
    out.append(c);
    out
}

/// `a`, `b`, `c` and `d`, one behind the other.
pub fn cat4(a: &str, b: &str, c: &str, d: &str) -> (out: String)
    ensures
        out@ == a@ + b@ + c@ + d@,
{
    let mut out = cat3(a, b, c);
    out.append(d);
    out
}

/// `a`, `b`, `c`, `d` and `e`, one behind the other.
pub fn cat5(a: &str, b: &str, c: &str, d: &str, e: &str) -> (out: String)
    ensures
        out@ == a@ + b@ + c@ + d@ + e@,
{
    let mut out = cat4(a, b, c, d);
    out.append(e);
    out
}

/// Whether two strings hold the same characters.
pub fn same(a: &str, b: &str) -> (r: bool)
    ensures
        r == (a@ == b@),
{
    a.to_owned() == b.to_owned()
}

/// The texts that a sequence of strings holds.
pub open spec fn views(strings: Seq<String>) -> Seq<Seq<char>> {
    Seq::new(strings.len(), |i: int| strings[i]@)
}

/// `parts` one after the other, with `sep` between each two.
pub open spec fn joined_with(parts: Seq<Seq<char>>, sep: Seq<char>) -> Seq<char>
    decreases parts.len(),
{
    if parts.len() == 0 {
        Seq::empty()
    } else if parts.len() == 1 {
        parts[0]
    } else {
        joined_with(parts.drop_last(), sep) + sep + parts.last()
    }
}

/// Puts `parts` one after the other, with `sep` between each two.
pub fn join_with(parts: &Vec<String>, sep: &str) -> (out: String)
    ensures
        out@ == joined_with(views(parts@), sep@),
{
    let mut out = String::new();
    for i in 0..parts.len()
        invariant
            out@ == joined_with(views(parts@).take(i as int), sep@),
    {
        if i > 0 {
            out.append(sep);
        }
        out.append(parts[i].as_str());
        proof {
            let next = views(parts@).take(i + 1);
            assert(next.drop_last() == views(parts@).take(i as int));
            assert(next.last() == parts@[i as int]@);
            if i == 0 {
                assert(next[0] == parts@[0]@);
            }
        }
    }
    assert(views(parts@).take(parts@.len() as int) == views(parts@));
    out
}

/// Unicode's `White_Space` property.
pub open spec fn is_white_space(c: char) -> bool {
    ||| 0x09 <= c as u32 <= 0x0d
    ||| c as u32 == 0x20
    ||| c as u32 == 0x85
    ||| c as u32 == 0xa0
    ||| c as u32 == 0x1680
    ||| 0x2000 <= c as u32 <= 0x200a
    ||| c as u32 == 0x2028
    ||| c as u32 == 0x2029
    ||| c as u32 == 0x202f
    ||| c as u32 == 0x205f
    ||| c as u32 == 0x3000
}

/// Whether `c` has Unicode's `White_Space` property.
pub fn white_space(c: char) -> (r: bool)
    ensures
        r == is_white_space(c),
{
    let u: u32 = c as u32;
    (0x09 <= u && u <= 0x0d) || u == 0x20 || u == 0x85 || u == 0xa0 || u == 0x1680 || (0x2000 <= u
        && u <= 0x200a) || u == 0x2028 || u == 0x2029 || u == 0x202f || u == 0x205f || u == 0x3000
}

/// `s` without the white space at its start.
pub open spec fn trimmed_start(s: Seq<char>) -> Seq<char>
    decreases s.len(),
{
    if s.len() > 0 && is_white_space(s[0]) {
        trimmed_start(s.drop_first())
    } else {
        s
    }
}

/// `s` without the white space at its end.
pub open spec fn trimmed_end(s: Seq<char>) -> Seq<char>
    decreases s.len(),
{
    if s.len() > 0 && is_white_space(s.last()) {
        trimmed_end(s.drop_last())
    } else {
        s
    }
}

/// `s` without the white space at both ends.
pub open spec fn trimmed(s: Seq<char>) -> Seq<char> {
    trimmed_end(trimmed_start(s))
}

/// `s` without the white space at both ends.
pub fn trim(s: &str) -> (out: String)
    ensures
        out@ == trimmed(s@),
{
    let chars = chars_of(s);
    let mut from: usize = 0;
    assert(chars@.skip(0) == chars@);
    while from < chars.len() && white_space(chars[from])
        invariant
            from <= chars@.len(),
            trimmed_start(chars@) == trimmed_start(chars@.skip(from as int)),
        decreases chars@.len() - from,
    {
        assert(chars@.skip(from as int).drop_first() == chars@.skip(from + 1));
        from += 1;
    }
    assert(trimmed_start(chars@) == chars@.skip(from as int));
    let ghost kept = chars@.skip(from as int);
    let mut to: usize = chars.len();
    assert(kept.take(to - from) == kept);
    while to > from && white_space(chars[to - 1])
        invariant
            from <= to <= chars@.len(),
            kept == chars@.skip(from as int),
            trimmed_end(kept) == trimmed_end(kept.take(to - from)),
        decreases to,
    {
        assert(kept.take(to - from).drop_last() == kept.take(to - from - 1));
        assert(kept.take(to - from).last() == chars@[to - 1]);
        to -= 1;
    }
    proof {
        let rest = kept.take(to - from);
        if to > from {
            assert(rest.last() == chars@[to - 1]);
        }
        assert(trimmed_end(rest) == rest);
        assert(rest == chars@.subrange(from as int, to as int));
    }
    string_of(&chars, from, to)
}

/// `needle` stands in `hay` from position `i` on.
pub open spec fn occurs_at(hay: Seq<char>, needle: Seq<char>, i: int) -> bool {
    0 <= i && i + needle.len() <= hay.len() && hay.subrange(i, i + needle.len()) == needle
}

/// `needle` stands somewhere in `hay`.
pub open spec fn occurs(hay: Seq<char>, needle: Seq<char>) -> bool {
    exists|i: int| occurs_at(hay, needle, i)
}

/// Whether `needle` stands in `hay` from position `i` on.
fn matches_at(hay: &Vec<char>, needle: &Vec<char>, i: usize) -> (r: bool)
    requires
        i + needle@.len() <= hay@.len(),
    ensures
        r == occurs_at(hay@, needle@, i as int),
{
    let len: usize = hay.len();
    for k in 0..needle.len()
        invariant
            i + needle@.len() <= hay@.len(),
            len == hay@.len(),
            forall|m: int| 0 <= m < k ==> hay@[i + m] == #[trigger] needle@[m],
    {
        if hay[i + k] != needle[k] {
            assert(hay@.subrange(i as int, i + needle@.len())[k as int] != needle@[k as int]);
            return false;
        }
    }
    assert(hay@.subrange(i as int, i + needle@.len()) =~= needle@);
    true
}

/// The first position at which `needle` stands in `hay`.
pub fn find(hay: &Vec<char>, needle: &Vec<char>) -> (r: Option<usize>)
    ensures
        match r {
            Some(i) => occurs_at(hay@, needle@, i as int) && forall|j: int|
                #![trigger occurs_at(hay@, needle@, j)]
                j < i ==> !occurs_at(hay@, needle@, j),
            None => forall|j: int| !occurs_at(hay@, needle@, j),
        },
{
    if needle.len() > hay.len() {
        return None;
    }
    let last: usize = hay.len() - needle.len();
    let mut i: usize = 0;
    while i <= last
        invariant
            last + needle@.len() == hay@.len(),
            0 <= i <= last + 1,
            forall|j: int| j < i ==> !#[trigger] occurs_at(hay@, needle@, j),
        decreases last + 1 - i,
    {
        if matches_at(hay, needle, i) {
            return Some(i);
        }
        if i == last {
            return None;
        }
        i += 1;
    }
    None
}

/// The last position at which `needle` stands in `hay`.
pub fn rfind(hay: &Vec<char>, needle: &Vec<char>) -> (r: Option<usize>)
    ensures
        match r {
            Some(i) => occurs_at(hay@, needle@, i as int) && forall|j: int|
                #![trigger occurs_at(hay@, needle@, j)]
                j > i ==> !occurs_at(hay@, needle@, j),
            None => forall|j: int| !occurs_at(hay@, needle@, j),
        },
{
    if needle.len() > hay.len() {
        return None;
    }
    let mut i: usize = hay.len() - needle.len();
    loop
        invariant
            i + needle@.len() <= hay@.len(),
            forall|j: int| j > i ==> !#[trigger] occurs_at(hay@, needle@, j),
        decreases i,
    {
        if matches_at(hay, needle, i) {
            return Some(i);
        }
        if i == 0 {
            return None;
        }
        i -= 1;
    }
}

/// Whether `needle` stands somewhere in `hay`.
pub fn contains(hay: &str, needle: &str) -> (r: bool)
    ensures
        r == occurs(hay@, needle@),
{
    let h = chars_of(hay);
    let n = chars_of(needle);
    match find(&h, &n) {
        Some(_) => true,
        None => false,
    }
}

/// The pieces of `s` between the characters `sep`: one more than there are `sep`.
pub open spec fn pieces(s: Seq<char>, sep: char) -> Seq<Seq<char>>
    decreases s.len(),
{
    if s.len() == 0 {
        seq![Seq::empty()]
    } else {
        let before = pieces(s.drop_last(), sep);
        if s.last() == sep {
            before.push(Seq::empty())
        } else {
            before.drop_last().push(before.last().push(s.last()))
        }
    }
}

/// Splits `s` at every `sep`.
pub fn split(s: &str, sep: char) -> (out: Vec<String>)
    ensures
        views(out@) == pieces(s@, sep),
{
    let chars = chars_of(s);
    let mut out: Vec<String> = Vec::new();
    let mut cur = String::new();
    assert(views(out@).push(cur@) == pieces(chars@.take(0), sep));
    for i in 0..chars.len()
        invariant
            views(out@).push(cur@) == pieces(chars@.take(i as int), sep),
    {
        let c = chars[i];
        let ghost done = views(out@);
        let ghost part = cur@;
        assert(chars@.take(i + 1).drop_last() == chars@.take(i as int));
        if c == sep {
            out.push(cur);
            cur = String::new();
            assert(views(out@) == done.push(part));
        } else {
            cur.push(c);
            assert(done.push(part).drop_last() == done);
        }
    }
    assert(chars@.take(chars@.len() as int) == chars@);
    let ghost done = views(out@);
    let ghost part = cur@;
    out.push(cur);
    assert(views(out@) == done.push(part));
    out
}

/// `c` with `A`..`Z` made lower case, every other character as it is.
pub open spec fn ascii_lower(c: char) -> char {
    if 'A' <= c <= 'Z' {
        (c as u8 + 32) as char
    } else {
        c
    }
}

/// `s` with `A`..`Z` made lower case.
pub open spec fn ascii_lowered(s: Seq<char>) -> Seq<char> {
    s.map_values(|c: char| ascii_lower(c))
}

/// The characters of `s` with `A`..`Z` made lower case.
pub fn lower_chars(s: &str) -> (out: Vec<char>)
    ensures
        out@ == ascii_lowered(s@),
{
    let chars = chars_of(s);
    let mut out: Vec<char> = Vec::new();
    for i in 0..chars.len()
        invariant
            out@ == ascii_lowered(chars@.take(i as int)),
    {
        let c = chars[i];
        if 'A' <= c && c <= 'Z' {
            out.push((c as u8 + 32) as char);
        } else {
            out.push(c);
        }
        assert(ascii_lowered(chars@.take(i + 1)) == ascii_lowered(chars@.take(i as int)).push(
            ascii_lower(c),
        ));
    }
    assert(chars@.take(chars@.len() as int) == chars@);
    out
}

/// Whether `a` and `b` differ at most in the case of `A`..`Z`.
pub fn same_ignore_case(a: &str, b: &str) -> (r: bool)
    ensures
        r == (ascii_lowered(a@) == ascii_lowered(b@)),
{
    let x = lower_chars(a);
    let y = lower_chars(b);
    if x.len() != y.len() {
        return false;
    }
    for i in 0..x.len()
        invariant
            x@.len() == y@.len(),
            x@ == ascii_lowered(a@),
            y@ == ascii_lowered(b@),
            forall|k: int| 0 <= k < i ==> x@[k] == y@[k],
    {
        if x[i] != y[i] {
            return false;
        }
    }
    assert(x@ =~= y@);
    true
}

/// `s` without the characters `c` at its start.
pub open spec fn stripped_start(s: Seq<char>, c: char) -> Seq<char>
    decreases s.len(),
{
    if s.len() > 0 && s[0] == c {
        stripped_start(s.drop_first(), c)
    } else {
        s
    }
}

/// `s` without the characters `c` at its start.
pub fn strip_start(s: &str, c: char) -> (out: String)
    ensures
        out@ == stripped_start(s@, c),
{
    let chars = chars_of(s);
    let mut from: usize = 0;
    assert(chars@.skip(0) == chars@);
    while from < chars.len() && chars[from] == c
        invariant
            from <= chars@.len(),
            stripped_start(chars@, c) == stripped_start(chars@.skip(from as int), c),
        decreases chars@.len() - from,
    {
        assert(chars@.skip(from as int).drop_first() == chars@.skip(from + 1));
        from += 1;
    }
    assert(chars@.skip(from as int) == chars@.subrange(from as int, chars@.len() as int));
    string_of(&chars, from, chars.len())
}

/// `s` with `to` in place of each `from`, looked for from the start on.
pub open spec fn replaced(s: Seq<char>, from: Seq<char>, to: Seq<char>) -> Seq<char>
    decreases s.len(),
{
    if from.len() == 0 || s.len() < from.len() {
        s
    } else if s.take(from.len() as int) == from {
        to + replaced(s.skip(from.len() as int), from, to)
    } else {
        seq![s[0]] + replaced(s.drop_first(), from, to)
    }
}

/// Puts `to` in place of each `from`.
pub fn replace_all(s: &str, from: &str, to: &str) -> (out: String)
    requires
        from@.len() > 0,
    ensures
        out@ == replaced(s@, from@, to@),
{
    let chars = chars_of(s);
    let needle = chars_of(from);
    let len: usize = chars.len();
    let mut out = String::new();
    let mut i: usize = 0;
    assert(chars@.skip(0) == chars@);
    while len - i >= needle.len()
        invariant
            i <= len == chars@.len(),
            needle@ == from@,
            from@.len() > 0,
            out@ + replaced(chars@.skip(i as int), from@, to@) == replaced(chars@, from@, to@),
        decreases len - i,
    {
        let ghost rest = chars@.skip(i as int);
        let ghost before = out@;
        assert(rest.take(needle@.len() as int) == chars@.subrange(i as int, i + needle@.len()));
        if matches_at(&chars, &needle, i) {
            out.append(to);
            proof {
                assert(rest.skip(needle@.len() as int) == chars@.skip(i + needle@.len()));
                let tail = replaced(chars@.skip(i + needle@.len()), from@, to@);
                assert((before + to@) + tail =~= before + (to@ + tail));
            }
            i += needle.len();
        } else {
            out.push(chars[i]);
            proof {
                assert(rest.drop_first() == chars@.skip(i + 1));
                let tail = replaced(chars@.skip(i + 1), from@, to@);
                assert(before.push(rest[0]) + tail =~= before + (seq![rest[0]] + tail));
            }
            i += 1;
        }
    }
    let rest = string_of(&chars, i, len);
    assert(chars@.skip(i as int) == rest@);
    out.append(rest.as_str());
    out
}

/// White space in front of a text or behind it does not change what is left when the
/// text is trimmed.
pub proof fn law_trim_ignores_ends(s: Seq<char>, before: char, behind: char)
    requires
        is_white_space(before),
        is_white_space(behind),
    ensures
        trimmed(seq![before] + s) == trimmed(s),
        trimmed(s.push(behind)) == trimmed(s),
{
    assert((seq![before] + s).drop_first() == s);
    lemma_trimmed_start_push(s, behind);
    let t = trimmed_start(s);
    if t.len() > 0 {
        assert(t.push(behind).drop_last() == t);
    }
}

proof fn lemma_trimmed_start_push(s: Seq<char>, behind: char)
    requires
        is_white_space(behind),
    ensures
        trimmed_start(s.push(behind)) == if trimmed_start(s).len() > 0 {
            trimmed_start(s).push(behind)
        } else {
            Seq::empty()
        },
    decreases s.len(),
{
    if s.len() == 0 {
        assert(s.push(behind).drop_first() =~= Seq::empty());
        assert(trimmed_start(Seq::<char>::empty()) =~= Seq::empty());
    } else if is_white_space(s[0]) {
        assert(s.push(behind).drop_first() == s.drop_first().push(behind));
        lemma_trimmed_start_push(s.drop_first(), behind);
    }
}

/// Trimming a trimmed text changes nothing.
pub proof fn law_trim_idempotent(s: Seq<char>)
    ensures
        trimmed(trimmed(s)) == trimmed(s),
{
    lemma_trimmed_start_head(s);
    let t = trimmed_start(s);
    lemma_trimmed_end_last(t);
    lemma_trimmed_end_prefix(t);
    let u = trimmed_end(t);
    if u.len() > 0 {
        assert(u[0] == t[0]);
    }
    assert(trimmed_start(u) == u);
    assert(trimmed_end(u) == u);
}

proof fn lemma_trimmed_start_head(s: Seq<char>)
    ensures
        trimmed_start(s).len() > 0 ==> !is_white_space(trimmed_start(s)[0]),
    decreases s.len(),
{
    if s.len() > 0 && is_white_space(s[0]) {
        lemma_trimmed_start_head(s.drop_first());
    }
}

proof fn lemma_trimmed_end_last(s: Seq<char>)
    ensures
        trimmed_end(s).len() > 0 ==> !is_white_space(trimmed_end(s).last()),
    decreases s.len(),
{
    if s.len() > 0 && is_white_space(s.last()) {
        lemma_trimmed_end_last(s.drop_last());
    }
}

proof fn lemma_trimmed_end_prefix(s: Seq<char>)
    ensures
        trimmed_end(s).len() <= s.len(),
        trimmed_end(s) == s.take(trimmed_end(s).len() as int),
    decreases s.len(),
{
    if s.len() > 0 && is_white_space(s.last()) {
        lemma_trimmed_end_prefix(s.drop_last());
        assert(s.drop_last().take(trimmed_end(s).len() as int) == s.take(
            trimmed_end(s).len() as int,
        ));
    } else {
        assert(s.take(s.len() as int) == s);
    }
}

/// Joining the pieces of a text again gives the text, and no piece holds the character at
/// which the text was split.
pub proof fn law_join_undoes_split(s: Seq<char>, sep: char)
    ensures
        pieces(s, sep).len() >= 1,
        joined_with(pieces(s, sep), seq![sep]) == s,
        forall|i: int| 0 <= i < pieces(s, sep).len() ==> !(#[trigger] pieces(s, sep)[i]).contains(sep),
    decreases s.len(),
{
    if s.len() > 0 {
        let before = pieces(s.drop_last(), sep);
        let now = pieces(s, sep);
        law_join_undoes_split(s.drop_last(), sep);
        assert(s =~= s.drop_last().push(s.last()));
        if s.last() == sep {
            assert(now.drop_last() =~= before);
            assert(joined_with(now, seq![sep]) =~= joined_with(before, seq![sep]) + seq![sep]);
            assert forall|i: int| 0 <= i < now.len() implies !(#[trigger] now[i]).contains(sep) by {
                if i < before.len() {
                    assert(now[i] == before[i]);
                }
            }
        } else {
            let last = before.last().push(s.last());
            assert(now.drop_last() =~= before.drop_last());
            assert(now.last() == last);
            if before.len() == 1 {
                assert(joined_with(now, seq![sep]) =~= joined_with(before, seq![sep]).push(
                    s.last(),
                ));
            } else {
                let head = joined_with(before.drop_last(), seq![sep]) + seq![sep];
                assert(head + last =~= (head + before.last()).push(s.last()));
            }
            assert forall|i: int| 0 <= i < now.len() implies !(#[trigger] now[i]).contains(sep) by {
                if i < before.len() - 1 {
                    assert(now[i] == before[i]);
                } else {
                    assert(!before[before.len() - 1].contains(sep));
                    if last.contains(sep) {
                        let k = choose|k: int| 0 <= k < last.len() && last[k] == sep;
                        assert(before.last()[k] == sep);
                    }
                }
            }
        }
    } else {
        assert(pieces(s, sep)[0] =~= s);
    }
}

proof fn lemma_pieces_behind(a: Seq<char>, b: Seq<char>, sep: char)
    requires
        !b.contains(sep),
    ensures
        pieces(a + seq![sep] + b, sep) == pieces(a, sep).push(b),
        pieces(b, sep) == seq![b],
    decreases b.len(),
{
    let s = a + seq![sep] + b;
    if b.len() == 0 {
        assert(s.drop_last() =~= a);
        assert(b =~= Seq::empty());
    } else {
        assert(b.last() != sep) by {
            assert(b[b.len() - 1] == b.last());
        }
        assert(!b.drop_last().contains(sep)) by {
            if b.drop_last().contains(sep) {
                let k = choose|k: int| 0 <= k < b.drop_last().len() && b.drop_last()[k] == sep;
                assert(b[k] == sep);
            }
        }
        lemma_pieces_behind(a, b.drop_last(), sep);
        assert(s.drop_last() =~= a + seq![sep] + b.drop_last());
        assert(b.drop_last().push(b.last()) =~= b);
        assert(pieces(a, sep).push(b.drop_last()).drop_last() =~= pieces(a, sep));
        assert(seq![b.drop_last()].drop_last() =~= Seq::<Seq<char>>::empty());
        assert(pieces(b, sep) =~= seq![b]);
    }
}

/// Splitting texts that were joined gives the texts, when none of them holds the character
/// between them.
pub proof fn law_split_undoes_join(parts: Seq<Seq<char>>, sep: char)
    requires
        parts.len() > 0,
        forall|i: int| 0 <= i < parts.len() ==> !(#[trigger] parts[i]).contains(sep),
    ensures
        pieces(joined_with(parts, seq![sep]), sep) == parts,
    decreases parts.len(),
{
    assert(!parts[parts.len() - 1].contains(sep));
    if parts.len() == 1 {
        lemma_pieces_behind(Seq::empty(), parts[0], sep);
        assert(parts =~= seq![parts[0]]);
    } else {
        let head = parts.drop_last();
        assert forall|i: int| 0 <= i < head.len() implies !(#[trigger] head[i]).contains(sep) by {
            assert(head[i] == parts[i]);
        }
        law_split_undoes_join(head, sep);
        lemma_pieces_behind(joined_with(head, seq![sep]), parts.last(), sep);
        assert(head.push(parts.last()) =~= parts);
    }
}

/// White space is what ends words: blanks of every width, tabs and ends of lines are, and
/// no letter, digit or sign is, in whatever script.
pub proof fn law_white_space_is_blank(c: char)
    ensures
        c == ' ' || c == '\t' || c == '\n' || c == '\r' ==> is_white_space(c),
        0x0b <= c as u32 <= 0x0c ==> is_white_space(c),
        c as u32 == 0x85 || c as u32 == 0xa0 || c as u32 == 0x1680 ==> is_white_space(c),
        0x2000 <= c as u32 <= 0x200a ==> is_white_space(c),
        0x2028 <= c as u32 <= 0x2029 ==> is_white_space(c),
        c as u32 == 0x202f || c as u32 == 0x205f || c as u32 == 0x3000 ==> is_white_space(c),
        (c as u32) < 0x09 || 0x0e <= c as u32 <= 0x1f ==> !is_white_space(c),
        0x21 <= c as u32 <= 0x84 ==> !is_white_space(c),
        0x86 <= c as u32 <= 0x9f ==> !is_white_space(c),
        0xa1 <= c as u32 <= 0x167f ==> !is_white_space(c),
        0x1681 <= c as u32 <= 0x1fff ==> !is_white_space(c),
        0x200b <= c as u32 <= 0x2027 ==> !is_white_space(c),
        0x202a <= c as u32 <= 0x202e ==> !is_white_space(c),
        0x2030 <= c as u32 <= 0x205e ==> !is_white_space(c),
        0x2060 <= c as u32 <= 0x2fff ==> !is_white_space(c),
        c as u32 > 0x3000 ==> !is_white_space(c),
{
}

/// A text with no white space at its ends stays as it is when it is trimmed.
pub proof fn law_trim_keeps_text(s: Seq<char>)
    requires
        s.len() > 0 ==> !is_white_space(s[0]) && !is_white_space(s.last()),
    ensures
        trimmed(s) == s,
{
}

/// Trimming takes nothing away but white space at the ends.
pub proof fn law_trim_takes_only_white_space(s: Seq<char>) -> (ends: (int, int))
    ensures
        0 <= ends.0 <= ends.1 <= s.len(),
        trimmed(s) == s.subrange(ends.0, ends.1),
        forall|i: int| 0 <= i < ends.0 ==> is_white_space(#[trigger] s[i]),
        forall|i: int| ends.1 <= i < s.len() ==> is_white_space(#[trigger] s[i]),
        ends.0 < ends.1 ==> !is_white_space(s[ends.0]) && !is_white_space(s[ends.1 - 1]),
{
    let from = lemma_trimmed_start_at(s);
    let t = trimmed_start(s);
    lemma_trimmed_start_head(s);
    lemma_trimmed_end_last(t);
    lemma_trimmed_end_prefix(t);
    lemma_trimmed_end_cut(t);
    let u = trimmed_end(t);
    let to = from + u.len();
    assert(u =~= s.subrange(from, to));
    assert forall|i: int| to <= i < s.len() implies is_white_space(#[trigger] s[i]) by {
        assert(t[i - from] == s[i]);
    }
    if from < to {
        assert(u[0] == t[0] && t[0] == s[from]);
        assert(u.last() == s[to - 1]);
    }
    (from, to)
}

proof fn lemma_trimmed_start_at(s: Seq<char>) -> (from: int)
    ensures
        0 <= from <= s.len(),
        trimmed_start(s) == s.skip(from),
        forall|i: int| 0 <= i < from ==> is_white_space(#[trigger] s[i]),
    decreases s.len(),
{
    if s.len() > 0 && is_white_space(s[0]) {
        let d = s.drop_first();
        let from = lemma_trimmed_start_at(d) + 1;
        assert(d.skip(from - 1) =~= s.skip(from));
        assert forall|i: int| 0 <= i < from implies is_white_space(#[trigger] s[i]) by {
            if i > 0 {
                assert(d[i - 1] == s[i]);
            }
        }
        from
    } else {
        assert(s.skip(0) =~= s);
        0
    }
}

proof fn lemma_trimmed_end_cut(s: Seq<char>)
    ensures
        forall|i: int| trimmed_end(s).len() <= i < s.len() ==> is_white_space(#[trigger] s[i]),
    decreases s.len(),
{
    if s.len() > 0 && is_white_space(s.last()) {
        let d = s.drop_last();
        lemma_trimmed_end_cut(d);
        assert forall|i: int| trimmed_end(s).len() <= i < s.len() implies is_white_space(
            #[trigger] s[i],
        ) by {
            if i < d.len() {
                assert(d[i] == s[i]);
            }
        }
    }
}

/// Case is ignored letter by letter: each large letter becomes the small one in the same
/// place of the alphabet, and nothing else changes.
pub proof fn law_lower_case_letter_by_letter(s: Seq<char>, i: int)
    requires
        0 <= i < s.len(),
    ensures
        ascii_lowered(s).len() == s.len(),
        'A' <= s[i] <= 'Z' ==> ascii_lowered(s)[i] as u32 - 'a' as u32 == s[i] as u32 - 'A' as u32,
        !('A' <= s[i] <= 'Z') ==> ascii_lowered(s)[i] == s[i],
        ascii_lowered(ascii_lowered(s)) == ascii_lowered(s),
{
    assert(ascii_lowered(ascii_lowered(s)) =~= ascii_lowered(s));
}

/// Only the characters at the start go: the text is what is left behind a run of them, and
/// what is left does not start with another.
pub proof fn law_strip_start_takes_a_run(s: Seq<char>, c: char) -> (from: int)
    ensures
        0 <= from <= s.len(),
        stripped_start(s, c) == s.skip(from),
        forall|i: int| 0 <= i < from ==> #[trigger] s[i] == c,
        from < s.len() ==> s[from] != c,
    decreases s.len(),
{
    if s.len() > 0 && s[0] == c {
        let d = s.drop_first();
        let from = law_strip_start_takes_a_run(d, c) + 1;
        assert(d.skip(from - 1) =~= s.skip(from));
        assert forall|i: int| 0 <= i < from implies #[trigger] s[i] == c by {
            if i > 0 {
                assert(d[i - 1] == s[i]);
            }
        }
        from
    } else {
        assert(s.skip(0) =~= s);
        0
    }
}

/// Replacing changes what is looked for and nothing else: a text without it stays as it is,
/// and where it is found first, the text in front of it stays, what replaces it follows, and
/// the rest is replaced in the same way.
pub proof fn law_replaced_where_found(s: Seq<char>, from: Seq<char>, to: Seq<char>, at: int)
    requires
        from.len() > 0,
        forall|j: int| 0 <= j < at ==> !#[trigger] occurs_at(s, from, j),
    ensures
        at >= s.len() ==> replaced(s, from, to) == s,
        0 <= at && occurs_at(s, from, at) ==> replaced(s, from, to) == s.take(at) + to + replaced(
            s.skip(at + from.len()),
            from,
            to,
        ),
    decreases s.len(),
{
    if s.len() < from.len() {
    } else {
        assert(s.subrange(0, from.len() as int) =~= s.take(from.len() as int));
        if s.take(from.len() as int) == from {
            assert(occurs_at(s, from, 0));
            assert(at <= 0);
            if at == 0 {
                assert(s.take(0) + to =~= to);
            }
        } else {
            let d = s.drop_first();
            assert forall|j: int| 0 <= j < at - 1 implies !#[trigger] occurs_at(d, from, j) by {
                assert(!occurs_at(s, from, j + 1));
                if j + 1 + from.len() <= s.len() {
                    assert(d.subrange(j, j + from.len()) =~= s.subrange(j + 1, j + 1 + from.len()));
                }
            }
            law_replaced_where_found(d, from, to, at - 1);
            if at >= s.len() {
                assert(seq![s[0]] + d =~= s);
            }
            if 0 <= at && occurs_at(s, from, at) {
                assert(at > 0);
                assert(d.subrange(at - 1, at - 1 + from.len()) =~= s.subrange(
                    at,
                    at + from.len(),
                ));
                assert(d.skip(at - 1 + from.len()) =~= s.skip(at + from.len()));
                let tail = replaced(s.skip(at + from.len()), from, to);
                assert(seq![s[0]] + (d.take(at - 1) + to + tail) =~= s.take(at) + to + tail);
            }
        }
    }
}

/// A text stands in each that was made by putting others around it, and where it stands in
/// a text, that stands in others still hold it.
pub proof fn law_part_occurs(before: Seq<char>, needle: Seq<char>, behind: Seq<char>)
    ensures
        occurs_at(before + needle + behind, needle, before.len() as int),
        occurs(before + needle + behind, needle),
        forall|inner: Seq<char>| #[trigger]
            occurs(needle, inner) ==> occurs(before + needle + behind, inner),
{
    let hay = before + needle + behind;
    assert(hay.subrange(before.len() as int, (before.len() + needle.len()) as int) =~= needle);
    assert(occurs_at(hay, needle, before.len() as int));
    assert forall|inner: Seq<char>| #[trigger] occurs(needle, inner) implies occurs(hay, inner) by {
        let i = choose|i: int| occurs_at(needle, inner, i);
        assert(hay.subrange(before.len() + i, before.len() + i + inner.len()) =~= needle.subrange(
            i,
            i + inner.len(),
        ));
        assert(occurs_at(hay, inner, before.len() + i));
    }
}

/// `args` hold the option `flag` with `value` behind it.
pub open spec fn gives_option(args: Seq<Seq<char>>, flag: Seq<char>, value: Seq<char>) -> bool {
    exists|i: int| #![trigger args[i]] 0 <= i < args.len() - 1 && args[i] == flag && args[i + 1] == value
}

/// What strings are said to hold is what they hold, one by one.
pub proof fn law_views_one_by_one(strings: Seq<String>, i: int)
    ensures
        views(strings).len() == strings.len(),
        0 <= i < strings.len() ==> views(strings)[i] == strings[i]@,
{
}

/// `w` ends with `tail`.
pub open spec fn closes_with(w: Seq<char>, tail: Seq<char>) -> bool {
    w.len() >= tail.len() && w.skip(w.len() - tail.len()) == tail
}

/// A text ends with what was put at its end.
pub proof fn law_closes_with_its_end(head: Seq<char>, tail: Seq<char>)
    ensures
        closes_with(head + tail, tail),
{
    assert((head + tail).skip((head + tail).len() - tail.len()) =~= tail);
}

/// Each of the texts that were joined stands in what came of it.
pub proof fn law_joined_holds_each_part(parts: Seq<Seq<char>>, sep: Seq<char>, i: int)
    requires
        0 <= i < parts.len(),
    ensures
        occurs(joined_with(parts, sep), parts[i]),
    decreases parts.len(),
{
    let none = Seq::<char>::empty();
    let w = joined_with(parts, sep);
    if parts.len() == 1 {
        assert(w =~= none + parts[0] + none);
        law_part_occurs(none, parts[0], none);
    } else {
        let head = joined_with(parts.drop_last(), sep);
        if i == parts.len() - 1 {
            assert(w =~= (head + sep) + parts[i] + none);
            law_part_occurs(head + sep, parts[i], none);
        } else {
            law_joined_holds_each_part(parts.drop_last(), sep, i);
            assert(parts.drop_last()[i] == parts[i]);
            assert(w =~= none + head + (sep + parts.last()));
            law_part_occurs(none, head, sep + parts.last());
        }
    }
}

/// The pieces of two texts with the character between them are the pieces of the one and
/// then those of the other.
pub proof fn law_pieces_of_both(a: Seq<char>, b: Seq<char>, sep: char)
    ensures
        pieces(a + seq![sep] + b, sep) == pieces(a, sep) + pieces(b, sep),
    decreases b.len(),
{
    let s = a + seq![sep] + b;
    let x = pieces(a, sep);
    if b.len() == 0 {
        assert(s.drop_last() =~= a);
        assert(s.last() == sep);
        assert(x.push(Seq::<char>::empty()) =~= x + pieces(b, sep));
    } else {
        let d = b.drop_last();
        law_pieces_of_both(a, d, sep);
        law_join_undoes_split(d, sep);
        assert(s.drop_last() =~= a + seq![sep] + d);
        assert(s.last() == b.last());
        let y = pieces(d, sep);
        if b.last() == sep {
            assert((x + y).push(Seq::<char>::empty()) =~= x + y.push(Seq::<char>::empty()));
        } else {
            assert((x + y).last() == y.last());
            assert((x + y).drop_last().push(y.last().push(b.last())) =~= x + y.drop_last().push(
                y.last().push(b.last()),
            ));
        }
    }
}

}
