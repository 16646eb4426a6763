//! Building the prompt shown before each command is read.
//!
//! The prompt combines the user name, the host name and the current
//! working directory, with the home directory shown as `~` when - and only
//! when - it is a prefix of the working directory at a path component
//! boundary.
use vstd::prelude::*;
use crate::text::copy_chars;
use crate::text::push_all;

verus! {

/// True when `home` stands at the front of `cwd` on a path component
/// boundary: either the two are equal, or `home` is followed in `cwd` by a
/// path separator.  An empty home directory never counts as a prefix.
pub open spec fn home_is_prefix(cwd: Seq<char>, home: Seq<char>) -> bool {
    &&& home.len() > 0
    &&& cwd.len() >= home.len()
    &&& cwd.take(home.len() as int) == home
    &&& (cwd.len() == home.len() || cwd[home.len() as int] == '/')
}

/// The working directory as the prompt shows it: with the home directory
/// replaced by `~` when it stands at the front on a path component
/// boundary, and unchanged otherwise.
pub open spec fn display_path_spec(cwd: Seq<char>, home: Seq<char>) -> Seq<char> {
    if home_is_prefix(cwd, home) {
        seq!['~'] + cwd.skip(home.len() as int)
    } else {
        cwd
    }
}

/// Shortens the working directory with `~` for the home directory,
/// exactly at a path component boundary.
pub fn display_path(cwd: &Vec<char>, home: &Vec<char>) -> (r: Vec<char>)
    ensures
        r@ == display_path_spec(cwd@, home@),
{
    let hn = home.len();
    let n = cwd.len();
    let mut matched = home.len() > 0 && cwd.len() >= home.len();
    if matched {
        let mut i: usize = 0;
        while i < hn && matched
            invariant
                0 <= i <= hn <= n,
                n == cwd@.len() && hn == home@.len(),
                matched ==> forall|k: int| 0 <= k < i ==> cwd@[k] == home@[k],
                !matched ==> exists|k: int| 0 <= k < hn && cwd@[k] != home@[k],
            decreases hn - i,
        {
            if cwd[i] != home[i] {
                matched = false;
            }
            i = i + 1;
        }
        proof {
            if matched {
                assert(cwd@.take(hn as int) =~= home@);
            } else {
                let k = choose|k: int| 0 <= k < hn && cwd@[k] != home@[k];
                assert(cwd@.take(hn as int)[k] != home@[k]);
            }
        }
    }
    if matched && n > hn {
        matched = cwd[hn] == '/';
    }
    if matched {
        let mut r: Vec<char> = Vec::new();
        r.push('~');
        let mut i: usize = hn;
        while i < n
            invariant
                hn <= i <= n,
                n == cwd@.len() && hn == home@.len(),
                r@ =~= seq!['~'] + cwd@.subrange(hn as int, i as int),
            decreases n - i,
        {
            r.push(cwd[i]);
            i = i + 1;
        }
        proof {
            assert(cwd@.subrange(hn as int, n as int) =~= cwd@.skip(hn as int));
            assert(r@ =~= seq!['~'] + cwd@.skip(hn as int));
        }
        r
    } else {
        proof {
            assert(!home_is_prefix(cwd@, home@));
        }
        copy_chars(cwd)
    }
}

/// The prompt text for the given user name, host name and shortened
/// working directory.
pub open spec fn prompt_spec(user: Seq<char>, host: Seq<char>, shown_dir: Seq<char>) -> Seq<char> {
    user + seq!['@'] + host + seq![':'] + shown_dir + seq!['$', ' ']
}

/// Builds the prompt: the user name, the host name and the working
/// directory - home shortened to `~` - joined as `user@host:dir$ `.
pub fn build_prompt(user: &Vec<char>, host: &Vec<char>, cwd: &Vec<char>, home: &Vec<char>) -> (r:
    Vec<char>)
    ensures
        r@ == prompt_spec(user@, host@, display_path_spec(cwd@, home@)),
{
    let shown = display_path(cwd, home);
    let mut r = copy_chars(user);
    r.push('@');
    push_all(&mut r, host);
    r.push(':');
    push_all(&mut r, &shown);
    r.push('$');
    r.push(' ');
    proof {
        assert(r@ =~= prompt_spec(user@, host@, display_path_spec(cwd@, home@)));
    }
    r
}

/// Home substitution happens exactly at a path prefix boundary: below the
/// home directory the prompt shows `~` and the remainder, and a directory
/// that merely starts with the home directory's text, without a separator
/// at the boundary, is left unmodified.
pub proof fn lemma_home_substitution_boundary(cwd: Seq<char>, home: Seq<char>, rest: Seq<char>)
    requires
        home.len() > 0,
    ensures
        cwd == home + seq!['/'] + rest ==> display_path_spec(cwd, home) == seq!['~', '/'] + rest,
        cwd == home ==> display_path_spec(cwd, home) == seq!['~'],
        cwd.len() > home.len() && cwd.take(home.len() as int) == home && cwd[home.len() as int]
            != '/' ==> display_path_spec(cwd, home) == cwd,
{
    if cwd == home + seq!['/'] + rest {
        assert(cwd.take(home.len() as int) =~= home);
        assert(cwd[home.len() as int] == '/');
        assert(home_is_prefix(cwd, home));
        assert(cwd.skip(home.len() as int) =~= seq!['/'] + rest);
        assert(seq!['~'] + (seq!['/'] + rest) =~= seq!['~', '/'] + rest);
    }
    if cwd == home {
        assert(cwd.take(home.len() as int) =~= home);
        assert(home_is_prefix(cwd, home));
        assert(seq!['~'] + cwd.skip(home.len() as int) =~= seq!['~']);
    }
}

} // verus!
