//! Splitting a completed input line into a program name and its arguments.
//!
//! The line is trimmed of surrounding blank space and split on single space
//! characters; no quoting, escaping or collapsing of repeated separators is
//! performed, so consecutive spaces produce empty tokens.
use vstd::prelude::*;
use crate::editor::eot_char;

verus! {

/// True for the characters on which input lines are trimmed before
/// splitting.
pub open spec fn is_blank_char(c: char) -> bool {
    c == ' ' || c == '\t' || c == '\r' || c == '\n'
}

/// Decides whether a character counts as trimmable blank space.
pub fn blank_char(c: char) -> (r: bool)
    ensures
        r == is_blank_char(c),
{
    c == ' ' || c == '\t' || c == '\r' || c == '\n'
}

/// The sequence with its leading blank characters removed.
pub open spec fn trim_front(s: Seq<char>) -> Seq<char>
    decreases s.len(),
{
    if s.len() > 0 && is_blank_char(s[0]) {
        trim_front(s.skip(1))
    } else {
        s
    }
}

/// The sequence with its trailing blank characters removed.
pub open spec fn trim_back(s: Seq<char>) -> Seq<char>
    decreases s.len(),
{
    if s.len() > 0 && is_blank_char(s.last()) {
        trim_back(s.drop_last())
    } else {
        s
    }
}

/// The sequence with blank characters removed from both ends.
pub open spec fn trim_blanks(s: Seq<char>) -> Seq<char> {
    trim_back(trim_front(s))
}

/// Removes blank characters from both ends of the line.
pub fn trim_line(line: &Vec<char>) -> (r: Vec<char>)
    ensures
        r@ == trim_blanks(line@),
{
    let n = line.len();
    let mut a: usize = 0;
    proof {
        assert(line@.skip(0) =~= line@);
    }
    while a < n && blank_char(line[a])
        invariant
            0 <= a <= n,
            n == line@.len(),
            trim_front(line@) == trim_front(line@.skip(a as int)),
        decreases n - a,
    {
        proof {
            let s = line@.skip(a as int);
            assert(s[0] == line@[a as int]);
            assert(s.skip(1) =~= line@.skip(a + 1));
        }
        a = a + 1;
    }
    proof {
        if a == n {
            assert(line@.skip(a as int) =~= Seq::<char>::empty());
            assert(trim_front(line@) =~= Seq::<char>::empty());
        } else {
            assert(trim_front(line@) == line@.skip(a as int));
        }
        assert(trim_front(line@) == line@.subrange(a as int, n as int)) by {
            assert(line@.skip(a as int) =~= line@.subrange(a as int, n as int));
        }
    }
    let mut b: usize = n;
    while b > a && blank_char(line[b - 1])
        invariant
            a <= b <= n,
            n == line@.len(),
            trim_front(line@) == line@.subrange(a as int, n as int),
            trim_blanks(line@) == trim_back(line@.subrange(a as int, b as int)),
        decreases b,
    {
        proof {
            let s = line@.subrange(a as int, b as int);
            assert(s.last() == line@[b - 1]);
            assert(s.drop_last() =~= line@.subrange(a as int, b - 1));
        }
        b = b - 1;
    }
    proof {
        let s = line@.subrange(a as int, b as int);
        if b == a {
            assert(s =~= Seq::<char>::empty());
        } else {
            assert(s.last() == line@[b - 1]);
            assert(!is_blank_char(s.last()));
        }
        assert(trim_blanks(line@) == s);
    }
    let mut r: Vec<char> = Vec::new();
    let mut i: usize = a;
    while i < b
        invariant
            a <= i <= b <= n,
            n == line@.len(),
            r@ =~= line@.subrange(a as int, i as int),
        decreases b - i,
    {
        r.push(line[i]);
        i = i + 1;
    }
    proof {
        assert(r@ =~= line@.subrange(a as int, b as int));
    }
    r
}

/// The split of a sequence on a separator character: the tokens between
/// separators, in order, empty tokens included.  Splitting an empty
/// sequence gives one empty token.
pub open spec fn split_on(s: Seq<char>, sep: char) -> Seq<Seq<char>>
    decreases s.len(),
{
    if s.len() == 0 {
        seq![Seq::<char>::empty()]
    } else if s[0] == sep {
        seq![Seq::<char>::empty()] + split_on(s.skip(1), sep)
    } else {
        let rest = split_on(s.skip(1), sep);
        seq![seq![s[0]] + rest[0]] + rest.skip(1)
    }
}

/// A split always yields at least one token.
pub proof fn lemma_split_on_nonempty(s: Seq<char>, sep: char)
    ensures
        split_on(s, sep).len() >= 1,
    decreases s.len(),
{
    if s.len() > 0 && s[0] != sep {
        lemma_split_on_nonempty(s.skip(1), sep);
    }
}

/// The views of a sequence of character vectors.
pub open spec fn views_of(parts: Seq<Vec<char>>) -> Seq<Seq<char>> {
    parts.map_values(|p: Vec<char>| p@)
}

/// The first token of a split with the given text put back in front of it.
spec fn prepend_first(prefix: Seq<char>, parts: Seq<Seq<char>>) -> Seq<Seq<char>> {
    seq![prefix + parts[0]] + parts.skip(1)
}

/// Splits the line on single occurrences of the separator, keeping empty
/// tokens.
pub fn split_chars(line: &Vec<char>, sep: char) -> (r: Vec<Vec<char>>)
    ensures
        views_of(r@) == split_on(line@, sep),
        r@.len() >= 1,
{
    let n = line.len();
    let mut done: Vec<Vec<char>> = Vec::new();
    let mut cur: Vec<char> = Vec::new();
    let mut i: usize = 0;
    proof {
        assert(line@.skip(0) =~= line@);
        lemma_split_on_nonempty(line@, sep);
        let parts = split_on(line@, sep);
        assert(prepend_first(cur@, parts) =~= parts);
        assert(views_of(done@) + prepend_first(cur@, parts) =~= parts);
    }
    while i < n
        invariant
            0 <= i <= n,
            n == line@.len(),
            split_on(line@, sep) == views_of(done@) + prepend_first(
                cur@,
                split_on(line@.skip(i as int), sep),
            ),
        decreases n - i,
    {
        let ghost s = line@.skip(i as int);
        proof {
            assert(s[0] == line@[i as int]);
            assert(s.skip(1) =~= line@.skip(i + 1));
            lemma_split_on_nonempty(s.skip(1), sep);
        }
        let c = line[i];
        if c == sep {
            let ghost done0 = done@;
            let ghost cur0 = cur@;
            let mut finished: Vec<char> = Vec::new();
            core::mem::swap(&mut finished, &mut cur);
            done.push(finished);
            proof {
                let rest = split_on(s.skip(1), sep);
                assert(split_on(s, sep) == seq![Seq::<char>::empty()] + rest);
                assert(prepend_first(cur0, split_on(s, sep)) =~= seq![cur0] + rest);
                assert(prepend_first(cur@, rest) =~= rest);
                assert(views_of(done@) =~= views_of(done0).push(cur0));
                assert(views_of(done0) + (seq![cur0] + rest) =~= views_of(done@) + rest);
            }
        } else {
            let ghost cur0 = cur@;
            cur.push(c);
            proof {
                let rest = split_on(s.skip(1), sep);
                assert(split_on(s, sep) == seq![seq![s[0]] + rest[0]] + rest.skip(1));
                assert((seq![seq![s[0]] + rest[0]] + rest.skip(1)).skip(1) =~= rest.skip(1));
                assert(prepend_first(cur0, split_on(s, sep)) =~~= seq![cur0 + (seq![s[0]]
                    + rest[0])] + rest.skip(1));
                assert(cur@ =~= cur0 + seq![s[0]]);
                assert(cur0 + (seq![s[0]] + rest[0]) =~= cur@ + rest[0]);
                assert(prepend_first(cur0, split_on(s, sep)) =~~= prepend_first(cur@, rest));
            }
        }
        i = i + 1;
    }
    proof {
        assert(line@.skip(i as int) =~= Seq::<char>::empty());
        let parts = split_on(line@.skip(i as int), sep);
        assert(parts =~= seq![Seq::<char>::empty()]);
        assert(prepend_first(cur@, parts) =~= seq![cur@]);
        assert(views_of(done@.push(cur)) =~= views_of(done@) + seq![cur@]);
    }
    done.push(cur);
    proof {
        assert(views_of(done@) =~= split_on(line@, sep));
    }
    done
}

/// Spec-level outcome of parsing one completed input line.
pub enum ParseSpec {
    /// The line held no command: re-prompt without an error.
    NoCommand,
    /// The line began with the end-of-transmission character: end the
    /// session.
    EndSession,
    /// A program name and its arguments, still unresolved.
    Command(Seq<char>, Seq<Seq<char>>),
}

/// The parse of a line: trim it, split it on single spaces, and read the
/// first token as the program name and the rest as its arguments.
pub open spec fn parse_spec(line: Seq<char>) -> ParseSpec {
    let toks = split_on(trim_blanks(line), ' ');
    if toks[0].len() == 0 {
        ParseSpec::NoCommand
    } else if toks[0][0] == eot_char() {
        ParseSpec::EndSession
    } else {
        ParseSpec::Command(toks[0], toks.skip(1))
    }
}

/// Outcome of parsing one completed input line.
#[derive(Debug)]
pub enum ParseOutcome {
    /// The line held no command: re-prompt without an error.
    NoCommand,
    /// The line began with the end-of-transmission character: end the
    /// session.
    EndSession,
    /// A program name and its arguments, still unresolved.
    Command { program: Vec<char>, args: Vec<Vec<char>> },
}

/// The spec-level value of a parse outcome.
pub open spec fn parse_outcome_view(r: ParseOutcome) -> ParseSpec {
    match r {
        ParseOutcome::NoCommand => ParseSpec::NoCommand,
        ParseOutcome::EndSession => ParseSpec::EndSession,
        ParseOutcome::Command { program, args } => ParseSpec::Command(program@, views_of(args@)),
    }
}

/// Parses one completed input line into a program name and argument list,
/// a request to re-prompt, or a request to end the session.
pub fn parse_line(line: &Vec<char>) -> (r: ParseOutcome)
    ensures
        parse_outcome_view(r) == parse_spec(line@),
{
    let trimmed = trim_line(line);
    let mut toks = split_chars(&trimmed, ' ');
    let ghost toks0 = views_of(toks@);
    if toks[0].len() == 0 {
        return ParseOutcome::NoCommand;
    }
    if toks[0][0] == '\u{4}' {
        return ParseOutcome::EndSession;
    }
    let program = toks.remove(0);
    proof {
        assert(views_of(toks@) =~= toks0.skip(1));
    }
    ParseOutcome::Command { program, args: toks }
}

/// An empty or blank-only line parses to "no command" - a re-prompt -
/// never to an error or a command.
pub proof fn lemma_blank_line_no_command(line: Seq<char>)
    requires
        forall|j: int| 0 <= j < line.len() ==> is_blank_char(#[trigger] line[j]),
    ensures
        parse_spec(line) == ParseSpec::NoCommand,
{
    lemma_trim_front_all_blank(line);
    assert(trim_blanks(line) =~= Seq::<char>::empty());
    assert(split_on(trim_blanks(line), ' ') == seq![Seq::<char>::empty()]);
}

/// Trimming a sequence of nothing but blank characters leaves nothing.
proof fn lemma_trim_front_all_blank(s: Seq<char>)
    requires
        forall|j: int| 0 <= j < s.len() ==> is_blank_char(#[trigger] s[j]),
    ensures
        trim_front(s) == Seq::<char>::empty(),
    decreases s.len(),
{
    if s.len() > 0 {
        assert(is_blank_char(s[0]));
        lemma_trim_front_all_blank(s.skip(1));
    } else {
        assert(s =~= Seq::<char>::empty());
    }
}

} // verus!
