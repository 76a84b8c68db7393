//! Words for a shell: `shlex` and `shellexpand`.
use vstd::prelude::*;

verus! {

/// A character that a shell reads as itself without quotes.
pub open spec fn plain_in_shell(c: char) -> bool {
    ||| '0' <= c <= '9'
    ||| 'A' <= c <= 'Z'
    ||| 'a' <= c <= 'z'
    ||| c == '+' || c == '-' || c == '.' || c == '/' || c == ':' || c == '@' || c == ']' || c == '_'
}

/// What `shlex::try_quote` makes of a word.
pub uninterp spec fn shell_quoted(word: Seq<char>) -> Seq<char>;

/// `shlex::try_quote`. It fails just on a word with a nul character. A word that
/// needs no quotes comes back as it is.
#[verifier::external_body]
pub(crate) fn shell_quote(word: &str) -> (r: Option<String>)
    ensures
        r is None <==> word@.contains('\0'),
        r matches Some(q) ==> q@ == shell_quoted(word@),
        r matches Some(q) ==> (word@.len() > 0 && (forall|i: int|
            0 <= i < word@.len() ==> plain_in_shell(#[trigger] word@[i]))) ==> q@ == word@,
{
    shlex::try_quote(word).ok().map(|q| q.into_owned())
}

/// `path` begins with a tilde that stands for the home directory: alone, or before a
/// separator.
pub open spec fn has_home_tilde(path: Seq<char>) -> bool {
    path.len() > 0 && path[0] == '~' && (path.len() == 1 || path[1] == '/')
}

/// `path` begins with a tilde before a backslash, which separates on some systems only.
pub open spec fn has_backslash_tilde(path: Seq<char>) -> bool {
    path.len() > 1 && path[0] == '~' && path[1] == '\\'
}

/// `path` with the home directory in place of a tilde that stands for it, where there is
/// a home directory.
pub open spec fn expanded_path(path: Seq<char>, home: Option<String>) -> Seq<char> {
    match home {
        Some(dir) => if has_home_tilde(path) {
            dir@ + path.drop_first()
        } else {
            path
        },
        None => path,
    }
}

/// `shellexpand::tilde_with_context` with a given home directory. A tilde before a
/// backslash is replaced on some systems and stays on others; of such a path, only
/// these two outcomes are said.
#[verifier::external_body]
pub(crate) fn expand_tilde(path: &str, home: &Option<String>) -> (r: String)
    ensures
        !has_backslash_tilde(path@) ==> r@ == expanded_path(path@, *home),
        has_backslash_tilde(path@) ==> r@ == path@ || (home is Some && r@ == home->0@
            + path@.drop_first()),
{
    shellexpand::tilde_with_context(path, || home.clone()).into_owned()
}

/// A tilde stands for the home directory only in front of a path, alone or before a slash;
/// every other path stays as it is, and so does any where there is no home directory.
pub proof fn law_tilde_is_home(path: Seq<char>, rest: Seq<char>, home: Option<String>)
    ensures
        home is None ==> expanded_path(path, home) == path,
        home is Some ==> expanded_path(seq!['~'], home) == home->0@,
        home is Some ==> expanded_path(seq!['~', '/'] + rest, home) == home->0@ + seq!['/'] + rest,
        path.len() == 0 || path[0] != '~' ==> expanded_path(path, home) == path,
        path.len() > 1 && path[1] != '/' ==> expanded_path(path, home) == path,
        has_backslash_tilde(path) <==> path.len() > 1 && path[0] == '~' && path[1] == '\\',
{
    if home is Some {
        assert(seq!['~'].drop_first() =~= Seq::<char>::empty());
        assert(expanded_path(seq!['~'], home) =~= home->0@);
        let p = seq!['~', '/'] + rest;
        assert(expanded_path(p, home) =~= home->0@ + seq!['/'] + rest);
    }
}

}
