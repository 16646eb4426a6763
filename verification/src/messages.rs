//! The error lines the shell prints, built exactly as shown to the user.
use vstd::prelude::*;
use crate::resolve::ResolveError;
use crate::text::append_str;
use crate::text::copy_chars;
use crate::text::push_all;

verus! {

/// The shell's own name, as it prefixes its error messages.
pub open spec fn shell_name_spec() -> Seq<char> {
    "pieshell"@
}

/// The shell's own name.
pub fn shell_name() -> (r: Vec<char>)
    ensures
        r@ == shell_name_spec(),
{
    let mut r: Vec<char> = Vec::new();
    append_str(&mut r, "pieshell");
    proof {
        assert(r@ =~= shell_name_spec());
    }
    r
}

/// The error line for an explicit path that names no regular file.
pub open spec fn invalid_path_text(path: Seq<char>) -> Seq<char> {
    shell_name_spec() + ": "@ + path + ": No such file or directory"@
}

/// The error line for a bare program name found in no search-path
/// directory.
pub open spec fn not_found_text(program: Seq<char>) -> Seq<char> {
    program + ": command not found"@
}

/// The error line for a resolved program the operating system could not
/// execute.
pub open spec fn spawn_error_text(program: Seq<char>, detail: Seq<char>) -> Seq<char> {
    shell_name_spec() + ": "@ + program + ": "@ + detail
}

/// Builds the error line naming an explicit path that names no regular
/// file.
pub fn invalid_path_line(path: &Vec<char>) -> (r: Vec<char>)
    ensures
        r@ == invalid_path_text(path@),
{
    let mut r = shell_name();
    append_str(&mut r, ": ");
    push_all(&mut r, path);
    append_str(&mut r, ": No such file or directory");
    r
}

/// Builds the error line naming a program found in no search-path
/// directory.
pub fn not_found_line(program: &Vec<char>) -> (r: Vec<char>)
    ensures
        r@ == not_found_text(program@),
{
    let mut r = copy_chars(program);
    append_str(&mut r, ": command not found");
    r
}

/// Builds the error line for a resolved program that could not be
/// executed, with the operating system's own words as the detail.
pub fn spawn_error_line(program: &Vec<char>, detail: &Vec<char>) -> (r: Vec<char>)
    ensures
        r@ == spawn_error_text(program@, detail@),
{
    let mut r = shell_name();
    append_str(&mut r, ": ");
    push_all(&mut r, program);
    append_str(&mut r, ": ");
    push_all(&mut r, detail);
    r
}

/// The error line for a resolution failure, under the failure's own
/// taxonomy: invalid explicit paths and missing commands each get their
/// format.
pub open spec fn resolve_error_text(e: ResolveError) -> Seq<char> {
    match e {
        ResolveError::InvalidPath(p) => invalid_path_text(p@),
        ResolveError::NotFound(p) => not_found_text(p@),
    }
}

/// Builds the error line reporting a resolution failure.
pub fn resolve_error_line(e: &ResolveError) -> (r: Vec<char>)
    ensures
        r@ == resolve_error_text(*e),
{
    match e {
        ResolveError::InvalidPath(p) => invalid_path_line(p),
        ResolveError::NotFound(p) => not_found_line(p),
    }
}

} // verus!
