//! Display values, the formatter interface and the single-line rule.

use crate::registry::Registry;
use vstd::prelude::*;

verus! {

/// Appending one character to a `String` (`String::push`): afterwards the string
/// holds the characters it held before, followed by `ch`.
pub assume_specification[ String::push ](s: &mut String, ch: char)
    ensures
        final(s)@ == old(s)@.push(ch),
;

/// One widget's display content: a piece of text, and whether the formatter
/// has to escape it for the bar's markup.
#[derive(Debug, PartialEq, Eq)]
pub enum Format {
    /// Text that already is markup and is written as it stands.
    UnescapedStr(String),
    /// Plain text.
    Str(String),
}

impl Format {
    /// The characters of the value, whatever its kind.
    pub open spec fn text(self) -> Seq<char> {
        match self {
            Format::UnescapedStr(s) => s@,
            Format::Str(s) => s@,
        }
    }

    /// Borrows the text of the value.
    pub fn as_str(&self) -> (s: &str)
        ensures
            s@ == self.text(),
    {
        match self {
            Format::UnescapedStr(s) => s.as_str(),
            Format::Str(s) => s.as_str(),
        }
    }
}

impl Clone for Format {
    fn clone(&self) -> (copy: Self)
        ensures
            copy == *self,
    {
        match self {
            Format::UnescapedStr(s) => Format::UnescapedStr(s.clone()),
            Format::Str(s) => Format::Str(s.clone()),
        }
    }
}

/// Turns display values into one line of output, and one line of control
/// input into at most one call of a registered callback.
pub trait Formatter {
    /// Whether `line` is a line this formatter may write for `data`. An
    /// implementation that says nothing admits every line.
    open spec fn renders(&self, data: Seq<Format>, line: Seq<char>) -> bool {
        true
    }

    /// Writes the values, in the order given, as one line.
    fn format_all(&mut self, data: &[Format]) -> (line: String)
        ensures
            old(self).renders(data@, line@),
    ;

    /// Interprets one line of control input (`None` once the input has ended)
    /// and invokes at most one callback of `fns`, by its name. The names
    /// registered stay as they are.
    fn handle_stdin<C: FnMut()>(&self, line: Option<String>, fns: &mut Registry<C>)
        requires
            old(fns).wf(),
        ensures
            final(fns).wf(),
            old(fns).steps_to(final(fns)),
    ;
}

/// `text` without its line breaks.
pub open spec fn flattened(text: Seq<char>) -> Seq<char> {
    text.filter(|c: char| c != '\n')
}

/// What is written for a rendered line: the line without its line breaks,
/// closed by one line terminator.
pub open spec fn physical_line(text: Seq<char>) -> Seq<char> {
    flattened(text).push('\n')
}

/// Removes every line break from `text` and keeps the other characters in
/// their order.
pub fn flatten(text: &str) -> (out: String)
    ensures
        out@ == flattened(text@),
{
    let mut out = String::new();
    for c in it: text.chars()
        invariant
            it.seq() == text@,
            out@ == flattened(text@.take(it.index())),
    {
        proof {
            lemma_flattened_step(text@, it.index());
        }
        if c != '\n' {
            out.push(c);
        }
    }
    assert(text@.take(text@.len() as int) == text@);
    out
}

/// The physical line for a rendered line: see [`physical_line`].
pub fn terminate(text: &str) -> (out: String)
    ensures
        out@ == physical_line(text@),
{
    let mut out = flatten(text);
    out.push('\n');
    out
}

/// Flattening one more character either appends it or, for a line break,
/// changes nothing.
pub proof fn lemma_flattened_step(text: Seq<char>, i: int)
    requires
        0 <= i < text.len(),
    ensures
        flattened(text.take(i + 1)) == if text[i] != '\n' {
            flattened(text.take(i)).push(text[i])
        } else {
            flattened(text.take(i))
        },
{
    reveal(Seq::filter);
    assert(text.take(i + 1).drop_last() == text.take(i));
}

/// A flattened text holds no line break.
pub proof fn lemma_flattened_has_no_break(text: Seq<char>)
    ensures
        !flattened(text).contains('\n'),
{
    if flattened(text).contains('\n') {
        let i = choose|i: int| 0 <= i < flattened(text).len() && flattened(text)[i] == '\n';
        text.lemma_filter_pred(|c: char| c != '\n', i);
    }
}

/// A physical line is one line: its only line break is its last character.
pub proof fn lemma_physical_line_is_one_line(text: Seq<char>)
    ensures
        physical_line(text).len() >= 1,
        physical_line(text).last() == '\n',
        forall|i: int| 0 <= i < physical_line(text).len() - 1 ==> physical_line(text)[i] != '\n',
{
    lemma_flattened_has_no_break(text);
    assert forall|i: int| 0 <= i < physical_line(text).len() - 1 implies physical_line(text)[i]
        != '\n' by {
        assert(physical_line(text)[i] == flattened(text)[i]);
        assert(flattened(text).contains(flattened(text)[i]));
    }
}

/// Text without a line break is written as it is.
pub proof fn lemma_flattened_keeps_plain_text(text: Seq<char>)
    requires
        !text.contains('\n'),
    ensures
        flattened(text) == text,
    decreases text.len(),
{
    reveal(Seq::filter);
    if text.len() > 0 {
        let head = text.drop_last();
        assert forall|i: int| 0 <= i < head.len() implies head[i] != '\n' by {
            assert(text.contains(text[i]));
        }
        assert(!head.contains('\n'));
        lemma_flattened_keeps_plain_text(head);
        assert(text.contains(text.last()));
        assert(head.push(text.last()) == text);
    }
}

} // verus!
