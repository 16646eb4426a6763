//! Resolving a typed program name to a concrete executable path.
//!
//! A name that contains a path separator is an explicit path and must name
//! a regular file.  Any other name is searched for in an ordered list of
//! directories; the first directory holding a regular file of exactly that
//! name wins.  The filesystem itself stays outside: the caller probes it
//! and hands the answers in as plain values, and every decision made on
//! those values is verified here.
use vstd::prelude::*;
use crate::text::chars_equal;
use crate::text::contains_char;
use crate::text::copy_chars;
use crate::text::push_all;
use crate::parse::split_chars;
use crate::parse::split_on;
use crate::parse::views_of;

verus! {

/// Why a program name failed to resolve.
#[derive(Debug)]
pub enum ResolveError {
    /// An explicit path was given but does not name a regular file.
    InvalidPath(Vec<char>),
    /// No directory on the search path holds the program.
    NotFound(Vec<char>),
}

/// True when the program name is an explicit path - absolute or relative -
/// rather than a bare name to search for.
pub fn has_path_separator(program: &Vec<char>) -> (r: bool)
    ensures
        r == program@.contains('/'),
{
    contains_char(program, '/')
}

/// Resolves an explicit path, given whether the filesystem reports it as
/// an existing regular file: the path itself on success, and an
/// invalid-path error naming it otherwise.
pub fn resolve_explicit(program: &Vec<char>, is_regular_file: bool) -> (r: Result<
    Vec<char>,
    ResolveError,
>)
    ensures
        is_regular_file ==> (r matches Ok(p) && p@ == program@),
        !is_regular_file ==> (r matches Err(ResolveError::InvalidPath(p)) && p@ == program@),
{
    if is_regular_file {
        Ok(copy_chars(program))
    } else {
        Err(ResolveError::InvalidPath(copy_chars(program)))
    }
}

/// The directories of a colon-separated search-path value, in listed
/// order, empty entries included.
pub fn split_search_path(path_var: &Vec<char>) -> (r: Vec<Vec<char>>)
    ensures
        views_of(r@) == split_on(path_var@, ':'),
        r@.len() >= 1,
{
    split_chars(path_var, ':')
}

/// One entry of a directory, as the filesystem reports it: its file name
/// and whether it is a regular file.
pub struct DirEntry {
    /// The entry's file name, without its directory.
    pub name: Vec<char>,
    /// Whether the entry is a regular file.
    pub is_file: bool,
}

/// One directory of the search path together with its listing: `None` when
/// the directory could not be listed, which skips it silently.
pub struct DirListing {
    /// The directory's own path.
    pub dir: Vec<char>,
    /// The directory's entries, or `None` when listing it failed.
    pub entries: Option<Vec<DirEntry>>,
}

/// The path of the file `name` inside `dir`, joined the way paths are
/// built: a separator goes between them unless the directory is empty or
/// already ends in one.
pub open spec fn join_path(dir: Seq<char>, name: Seq<char>) -> Seq<char> {
    if dir.len() == 0 {
        name
    } else if dir.last() == '/' {
        dir + name
    } else {
        dir + seq!['/'] + name
    }
}

/// True when the listed entries hold a regular file named exactly
/// `program`.
pub open spec fn entries_have(entries: Seq<DirEntry>, program: Seq<char>) -> bool {
    exists|k: int| 0 <= k < entries.len() && entries[k].is_file && entries[k].name@ == program
}

/// True when the listing was readable and holds a regular file named
/// exactly `program`.
pub open spec fn listing_has(listing: DirListing, program: Seq<char>) -> bool {
    listing.entries matches Some(es) && entries_have(es@, program)
}

/// The resolved path of the search: the first listed directory whose
/// entries hold a regular file named exactly `program`; directories that
/// could not be listed are skipped.
pub open spec fn search_spec(listings: Seq<DirListing>, program: Seq<char>) -> Option<Seq<char>>
    decreases listings.len(),
{
    if listings.len() == 0 {
        None
    } else if listing_has(listings[0], program) {
        Some(join_path(listings[0].dir@, program))
    } else {
        search_spec(listings.skip(1), program)
    }
}

/// Joins a directory path and a file name with a separator between them.
pub fn join_dir_file(dir: &Vec<char>, name: &Vec<char>) -> (r: Vec<char>)
    ensures
        r@ == join_path(dir@, name@),
{
    let mut r = copy_chars(dir);
    if dir.len() > 0 && dir[dir.len() - 1] != '/' {
        r.push('/');
        proof {
            assert(r@ =~= dir@ + seq!['/']);
        }
    }
    push_all(&mut r, name);
    r
}

/// Looks for a regular file named exactly `program` among the entries of
/// one directory, returning its joined path.
pub fn find_in_dir(dir: &Vec<char>, entries: &Vec<DirEntry>, program: &Vec<char>) -> (r: Option<
    Vec<char>,
>)
    ensures
        r is Some <==> entries_have(entries@, program@),
        r matches Some(p) ==> p@ == join_path(dir@, program@),
{
    let n = entries.len();
    let mut i: usize = 0;
    while i < n
        invariant
            0 <= i <= n,
            n == entries@.len(),
            forall|k: int|
                0 <= k < i ==> !(#[trigger] entries@[k].is_file && entries@[k].name@ == program@),
        decreases n - i,
    {
        let entry = &entries[i];
        if entry.is_file && chars_equal(&entry.name, program) {
            return Some(join_dir_file(dir, program));
        }
        i = i + 1;
    }
    None
}

/// Searches the listed directories, in order, for a regular file named
/// exactly `program`: the first match's joined path, and a not-found error
/// naming the program when no directory yields one.
pub fn resolve_in_path(program: &Vec<char>, listings: &Vec<DirListing>) -> (r: Result<
    Vec<char>,
    ResolveError,
>)
    ensures
        r matches Ok(p) ==> search_spec(listings@, program@) == Some(p@),
        r matches Err(ResolveError::NotFound(q)) ==> search_spec(listings@, program@) is None
            && q@ == program@,
        r is Err ==> (r matches Err(ResolveError::NotFound(q)) && q@ == program@),
{
    let n = listings.len();
    let mut i: usize = 0;
    proof {
        assert(listings@.skip(0) =~= listings@);
    }
    while i < n
        invariant
            0 <= i <= n,
            n == listings@.len(),
            search_spec(listings@, program@) == search_spec(
                listings@.skip(i as int),
                program@,
            ),
        decreases n - i,
    {
        let ghost s = listings@.skip(i as int);
        proof {
            assert(s[0] == listings@[i as int]);
            assert(s.skip(1) =~= listings@.skip(i + 1));
        }
        let listing = &listings[i];
        match &listing.entries {
            Some(entries) => {
                match find_in_dir(&listing.dir, entries, program) {
                    Some(path) => {
                        return Ok(path);
                    },
                    None => {},
                }
            },
            None => {},
        }
        i = i + 1;
    }
    proof {
        assert(listings@.skip(i as int) =~= Seq::<DirListing>::empty());
    }
    Err(ResolveError::NotFound(copy_chars(program)))
}

} // verus!
