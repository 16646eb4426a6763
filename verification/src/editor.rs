//! The line editor: consumes decoded characters one at a time, applies
//! control-character semantics (end of line, interrupt, end of
//! transmission, backspace), and accumulates a completed input line.
use vstd::prelude::*;

verus! {

/// The interrupt character, Ctrl-C.
pub open spec fn interrupt_char() -> char {
    '\u{3}'
}

/// The end-of-transmission character, Ctrl-D.
pub open spec fn eot_char() -> char {
    '\u{4}'
}

/// The backspace character sent by a terminal's delete key.
pub open spec fn backspace_char() -> char {
    '\u{7f}'
}

/// True for the characters that complete a line: newline, and the carriage
/// return sent by serial terminals when enter is pressed.
pub open spec fn is_line_terminator(c: char) -> bool {
    c == '\n' || c == '\r'
}

/// What the editor reports after consuming one character.
#[derive(Clone, Copy, Debug, PartialEq, Eq, Structural)]
pub enum EditStatus {
    /// Keep collecting characters.
    Pending,
    /// The line is complete; its text is the result.
    Done,
    /// End of transmission was requested: the session should end.
    Eot,
}

/// The accumulated line after one character is applied to it.
pub open spec fn edit_step(line: Seq<char>, c: char) -> Seq<char> {
    if c == interrupt_char() {
        Seq::empty()
    } else if c == backspace_char() {
        if line.len() == 0 {
            line
        } else {
            line.drop_last()
        }
    } else if is_line_terminator(c) || c == eot_char() {
        line
    } else {
        line.push(c)
    }
}

/// The status the editor reports for one consumed character.
pub open spec fn step_status(c: char) -> EditStatus {
    if is_line_terminator(c) || c == interrupt_char() {
        EditStatus::Done
    } else if c == eot_char() {
        EditStatus::Eot
    } else {
        EditStatus::Pending
    }
}

/// Collects one input line, character by character.
pub struct LineEditor {
    line: Vec<char>,
}

impl View for LineEditor {
    type V = Seq<char>;

    closed spec fn view(&self) -> Seq<char> {
        self.line@
    }
}

impl LineEditor {
    /// A fresh editor with an empty accumulated line.
    pub fn new() -> (r: LineEditor)
        ensures
            r@ == Seq::<char>::empty(),
    {
        LineEditor { line: Vec::new() }
    }

    /// Applies one decoded character: a terminator completes the line, the
    /// interrupt character discards it and completes it empty, end of
    /// transmission asks to end the session, backspace removes the most
    /// recently accumulated character if there is one, and every other
    /// character is appended.
    pub fn apply(&mut self, c: char) -> (r: EditStatus)
        ensures
            r == step_status(c),
            final(self)@ == edit_step(old(self)@, c),
    {
        if c == '\u{3}' {
            self.line.clear();
            EditStatus::Done
        } else if c == '\u{7f}' {
            let popped = self.line.pop();
            proof {
                if old(self)@.len() > 0 {
                    assert(final(self).line@ =~= old(self)@.drop_last());
                }
            }
            EditStatus::Pending
        } else if c == '\n' || c == '\r' {
            EditStatus::Done
        } else if c == '\u{4}' {
            EditStatus::Eot
        } else {
            self.line.push(c);
            EditStatus::Pending
        }
    }

    /// Hands out the accumulated line, leaving the editor empty for the
    /// next prompt cycle.
    pub fn take_line(&mut self) -> (r: Vec<char>)
        ensures
            r@ == old(self)@,
            final(self)@ == Seq::<char>::empty(),
    {
        let mut taken: Vec<char> = Vec::new();
        core::mem::swap(&mut taken, &mut self.line);
        taken
    }

    /// The number of characters accumulated so far.
    pub fn len(&self) -> (r: usize)
        ensures
            r == self@.len(),
    {
        self.line.len()
    }
}

/// What the characters a serial peer sees echoed back for one typed
/// character: the interrupt character is shown as `^C` and a return, end of
/// transmission as the word `exit` and two returns, and every other
/// character as itself.
pub open spec fn echo_spec(c: char) -> Seq<char> {
    if c == interrupt_char() {
        seq!['^', 'C', '\r']
    } else if c == eot_char() {
        seq!['e', 'x', 'i', 't', '\r', '\r']
    } else {
        seq![c]
    }
}

/// The text echoed back over the serial transport for one typed character.
pub fn echo_text(c: char) -> (r: Vec<char>)
    ensures
        r@ == echo_spec(c),
{
    let mut v: Vec<char> = Vec::new();
    if c == '\u{3}' {
        v.push('^');
        v.push('C');
        v.push('\r');
        proof {
            assert(v@ =~= echo_spec(c));
        }
    } else if c == '\u{4}' {
        v.push('e');
        v.push('x');
        v.push('i');
        v.push('t');
        v.push('\r');
        v.push('\r');
        proof {
            assert(v@ =~= echo_spec(c));
        }
    } else {
        v.push(c);
        proof {
            assert(v@ =~= echo_spec(c));
        }
    }
    v
}

/// Spec-level outcome of running the editor over a sequence of decoded
/// characters.
pub enum CollectSpec {
    /// A line was completed with this text.
    Line(Seq<char>),
    /// End of transmission was requested.
    Eot,
    /// The input ran out while this text was still being collected.
    Pending(Seq<char>),
}

/// Outcome of the editor's run over a character sequence, starting from the
/// given accumulated text.
pub open spec fn collect_spec(line: Seq<char>, input: Seq<char>) -> CollectSpec
    decreases input.len(),
{
    if input.len() == 0 {
        CollectSpec::Pending(line)
    } else {
        let c = input[0];
        if step_status(c) == EditStatus::Done {
            CollectSpec::Line(edit_step(line, c))
        } else if c == eot_char() {
            CollectSpec::Eot
        } else {
            collect_spec(edit_step(line, c), input.skip(1))
        }
    }
}

/// Outcome of running the editor over a sequence of decoded characters.
#[derive(Debug)]
pub enum Collected {
    /// A line was completed with this text.
    Line(Vec<char>),
    /// End of transmission was requested.
    Eot,
    /// The input ran out while this text was still being collected.
    Pending(Vec<char>),
}

/// The spec-level value of a collection outcome.
pub open spec fn collected_view(r: Collected) -> CollectSpec {
    match r {
        Collected::Line(v) => CollectSpec::Line(v@),
        Collected::Eot => CollectSpec::Eot,
        Collected::Pending(v) => CollectSpec::Pending(v@),
    }
}

/// Runs the editor over a sequence of decoded characters, starting from an
/// empty line: the result is the first completed line, an end-of-transmission
/// request, or the partial text if the input ran out first.
pub fn collect_line(input: &Vec<char>) -> (r: Collected)
    ensures
        collected_view(r) == collect_spec(Seq::empty(), input@),
{
    let mut ed = LineEditor::new();
    let mut i: usize = 0;
    let n = input.len();
    proof {
        assert(input@.skip(0) =~= input@);
    }
    while i < n
        invariant
            0 <= i <= n,
            n == input@.len(),
            collect_spec(Seq::empty(), input@) == collect_spec(ed@, input@.skip(i as int)),
        decreases n - i,
    {
        let ghost s = input@.skip(i as int);
        proof {
            assert(s.len() == n - i);
            assert(s[0] == input@[i as int]);
        }
        let c = input[i];
        let st = ed.apply(c);
        i = i + 1;
        proof {
            assert(input@.skip(i as int) =~= s.skip(1));
        }
        match st {
            EditStatus::Done => {
                let mut done = ed;
                return Collected::Line(done.take_line());
            },
            EditStatus::Eot => {
                return Collected::Eot;
            },
            EditStatus::Pending => {},
        }
    }
    proof {
        assert(input@.skip(i as int) =~= Seq::<char>::empty());
    }
    let mut done = ed;
    Collected::Pending(done.take_line())
}

/// True for the characters the editor treats specially rather than
/// appending them to the line.
pub open spec fn is_editing_char(c: char) -> bool {
    is_line_terminator(c) || c == interrupt_char() || c == eot_char() || c == backspace_char()
}

/// A line of plain text is returned exactly as typed: collecting any
/// character sequence free of control characters, followed by a line
/// terminator, completes a line equal to the already-accumulated text plus
/// that sequence, with the terminator stripped.
pub proof fn lemma_plain_text_collects_exactly(acc: Seq<char>, text: Seq<char>, term: char)
    requires
        forall|j: int| 0 <= j < text.len() ==> !is_editing_char(#[trigger] text[j]),
        is_line_terminator(term),
    ensures
        collect_spec(acc, text + seq![term]) == CollectSpec::Line(acc + text),
    decreases text.len(),
{
    let input = text + seq![term];
    if text.len() == 0 {
        assert(input[0] == term);
        assert(edit_step(acc, term) == acc);
        assert(acc + text =~= acc);
    } else {
        let c = input[0];
        assert(c == text[0]);
        assert(!is_editing_char(c));
        assert(step_status(c) == EditStatus::Pending);
        assert(edit_step(acc, c) == acc.push(c));
        assert(input.skip(1) =~= text.skip(1) + seq![term]);
        assert(forall|j: int|
            0 <= j < text.skip(1).len() ==> !is_editing_char(#[trigger] text.skip(1)[j]));
        lemma_plain_text_collects_exactly(acc.push(c), text.skip(1), term);
        assert(acc.push(c) + text.skip(1) =~= acc + text);
    }
}

/// Read from an empty line, a control-free line followed by enter comes
/// back exactly as typed, terminator stripped.
pub proof fn lemma_plain_line(text: Seq<char>, term: char)
    requires
        forall|j: int| 0 <= j < text.len() ==> !is_editing_char(#[trigger] text[j]),
        is_line_terminator(term),
    ensures
        collect_spec(Seq::empty(), text + seq![term]) == CollectSpec::Line(text),
{
    lemma_plain_text_collects_exactly(Seq::empty(), text, term);
    assert(Seq::<char>::empty() + text =~= text);
}

/// Backspace on an empty accumulated line changes nothing.
pub proof fn lemma_backspace_empty_line()
    ensures
        edit_step(Seq::empty(), backspace_char()) == Seq::<char>::empty(),
{
}

/// Backspace removes exactly the most recently appended character: after
/// any appended (non-special) character, a backspace restores the line.
pub proof fn lemma_backspace_undoes_append(line: Seq<char>, c: char)
    requires
        !is_editing_char(c),
    ensures
        edit_step(edit_step(line, c), backspace_char()) == line,
{
    assert(edit_step(line, c) == line.push(c));
    assert(line.push(c).drop_last() =~= line);
}

/// The interrupt character discards everything collected so far, whatever
/// it was: however the line was accumulated, and whatever characters were
/// consumed before the interrupt (as long as none of them completed the
/// line first), the result is an empty completed line.
pub proof fn lemma_interrupt_discards_all(acc: Seq<char>, typed: Seq<char>, rest: Seq<char>)
    requires
        forall|j: int|
            0 <= j < typed.len() ==> step_status(#[trigger] typed[j]) == EditStatus::Pending,
    ensures
        collect_spec(acc, typed + seq![interrupt_char()] + rest) == CollectSpec::Line(
            Seq::empty(),
        ),
    decreases typed.len(),
{
    let input = typed + seq![interrupt_char()] + rest;
    if typed.len() == 0 {
        assert(input[0] == interrupt_char());
        assert(step_status(interrupt_char()) == EditStatus::Done);
        assert(edit_step(acc, interrupt_char()) == Seq::<char>::empty());
    } else {
        let c = input[0];
        assert(c == typed[0]);
        assert(step_status(c) == EditStatus::Pending);
        assert(input.skip(1) =~= typed.skip(1) + seq![interrupt_char()] + rest);
        assert(forall|j: int|
            0 <= j < typed.skip(1).len() ==> step_status(#[trigger] typed.skip(1)[j])
                == EditStatus::Pending);
        lemma_interrupt_discards_all(edit_step(acc, c), typed.skip(1), rest);
    }
}

} // verus!
