//! The brightness of the screen, as the kernel's backlight interface gives it.

use crate::format::Format;
use crate::widget::base::{Refresh, Snapshot};
use crossbeam_channel::Sender;
use std::sync::Arc;
use vstd::prelude::*;

verus! {

/// What happened to the watched brightness file.
#[derive(Clone, Copy, Debug, PartialEq, Eq, Structural)]
pub enum Change {
    /// Something unknown.
    Any,
    /// The file was opened, read or closed.
    Access,
    /// The file was created.
    Create,
    /// Content, name or attributes of the file changed.
    Modify,
    /// The file was removed.
    Remove,
    /// Something that says nothing about the file.
    Other,
}

/// A value that `updater` computes anew whenever the brightness changes.
pub struct Backlight<F: Fn() -> Format> {
    updater: Arc<F>,
    last_value: Snapshot,
}

impl<F: Fn() -> Format> Backlight<F> {
    /// The updater may be called, and the cell holds its results only.
    #[verifier::type_invariant]
    spec fn inv(&self) -> bool {
        &&& call_requires(*self.updater, ())
        &&& forall|value: Format|
            self.last_value.admits(value) == call_ensures(*self.updater, (), value)
    }

    /// The function that computes the value.
    pub closed spec fn updater(&self) -> F {
        *self.updater
    }

    /// Whether the widget may show `value`: it is a result of the updater.
    pub open spec fn displays(&self, value: Format) -> bool {
        call_ensures(self.updater(), (), value)
    }

    /// A widget for `updater`, which is called once to have a first value.
    pub fn new(updater: F) -> (widget: Box<Backlight<F>>)
        requires
            call_requires(updater, ()),
        ensures
            widget.updater() == updater,
    {
        let value = updater();
        let last_value = Snapshot::restricted(
            value,
            Ghost(|v: Format| call_ensures(updater, (), v)),
        );
        Box::new(Backlight { updater: Arc::new(updater), last_value })
    }

    /// The value computed after the latest change.
    pub fn current_value(&self) -> (value: Format)
        ensures
            self.displays(value),
    {
        proof {
            use_type_invariant(self);
        }
        self.last_value.load()
    }

    /// Another handle to the same widget, for its watcher.
    pub fn share(&self) -> (other: Self)
        ensures
            other == *self,
    {
        proof {
            use_type_invariant(self);
        }
        Backlight { updater: self.updater.clone(), last_value: self.last_value.share() }
    }

    /// What the watcher does with what it received: `event` is the change
    /// reported, or `None` when receiving failed. Only a modification makes
    /// it compute the value anew, replace the value shown and send one token
    /// on `tx`.
    pub fn on_event(&self, event: Option<Change>, tx: &Sender<()>) -> (outcome: Refresh)
        ensures
            outcome == Refresh::Skipped <==> event != Some(Change::Modify),
    {
        proof {
            use_type_invariant(self);
        }
        match event {
            Some(Change::Modify) => {
                let value = (*self.updater)();
                self.last_value.publish(Some(value), tx)
            },
            _ => Refresh::Skipped,
        }
    }
}

} // verus!

verus! {

/// Whether `c` is white space, as `char::is_whitespace` has it.
pub open spec fn is_space(c: char) -> bool {
    let n = c as u32;
    ||| 0x09 <= n <= 0x0d
    ||| n == 0x20
    ||| n == 0x85
    ||| n == 0xa0
    ||| n == 0x1680
    ||| 0x2000 <= n <= 0x200a
    ||| n == 0x2028
    ||| n == 0x2029
    ||| n == 0x202f
    ||| n == 0x205f
    ||| n == 0x3000
}

/// `text` without the white space at its end.
pub open spec fn trimmed(text: Seq<char>) -> Seq<char>
    decreases text.len(),
{
    if text.len() > 0 && is_space(text.last()) {
        trimmed(text.drop_last())
    } else {
        text
    }
}

/// Whether `c` is one of the digits `0` to `9`.
pub open spec fn is_digit(c: char) -> bool {
    '0' <= c <= '9'
}

/// The number that decimal digits write.
pub open spec fn decimal(digits: Seq<char>) -> nat
    decreases digits.len(),
{
    if digits.len() == 0 {
        0
    } else {
        decimal(digits.drop_last()) * 10 + (digits.last() as nat - '0' as nat) as nat
    }
}

/// `body` without a `+` at its start.
pub open spec fn unsigned(body: Seq<char>) -> Seq<char> {
    if body.len() > 0 && body[0] == '+' {
        body.skip(1)
    } else {
        body
    }
}

/// Whether `digits` is one decimal digit or more, and nothing else.
pub open spec fn all_digits(digits: Seq<char>) -> bool {
    digits.len() > 0 && forall|i: int| 0 <= i < digits.len() ==> is_digit(#[trigger] digits[i])
}

/// The level that the text of a backlight file stands for. White space at
/// the end does not count. What is left has to be decimal digits, at least
/// one, after at most one `+`, and the number has to fit 32 bits.
pub open spec fn level_of(text: Seq<char>) -> Option<u32> {
    let digits = unsigned(trimmed(text));
    if all_digits(digits) && decimal(digits) <= u32::MAX {
        Some(decimal(digits) as u32)
    } else {
        None
    }
}

/// Tells white space from other characters.
fn space(c: char) -> (yes: bool)
    ensures
        yes == is_space(c),
{
    let n = c as u32;
    (0x09 <= n && n <= 0x0d) || n == 0x20 || n == 0x85 || n == 0xa0 || n == 0x1680 || (0x2000
        <= n && n <= 0x200a) || n == 0x2028 || n == 0x2029 || n == 0x202f || n == 0x205f || n
        == 0x3000
}

/// The length of `text` without the white space at its end.
fn trimmed_len(text: &str) -> (end: usize)
    ensures
        end <= text@.len() <= usize::MAX,
        text@.take(end as int) == trimmed(text@),
{
    let len = text.unicode_len();
    let mut end: usize = 0;
    let mut i: usize = 0;
    for c in it: text.chars()
        invariant
            it.seq() == text@,
            len == text@.len(),
            i == it.index(),
            end <= i,
            text@.take(end as int) == trimmed(text@.take(i as int)),
    {
        proof {
            let before = text@.take(i as int);
            let after = text@.take(i + 1);
            assert(after.drop_last() == before);
            assert(after.last() == c);
            if !is_space(c) {
                assert(trimmed(after) == after);
            }
        }
        i = i + 1;
        if !space(c) {
            end = i;
        }
    }
    assert(text@.take(text@.len() as int) == text@);
    end
}

/// Reads the level from the text of a backlight file: see [`level_of`].
pub fn parse_level(text: &str) -> (level: Option<u32>)
    ensures
        level == level_of(text@),
{
    let end = trimmed_len(text);
    let ghost body = trimmed(text@);
    let ghost digits = unsigned(body);
    let ghost start = body.len() - digits.len();
    let ghost mut done: int = 0;
    let mut value: u64 = 0;
    let mut any = false;
    let mut i: usize = 0;
    for c in it: text.chars()
        invariant
            it.seq() == text@,
            i == it.index(),
            end <= text@.len() <= usize::MAX,
            body == trimmed(text@),
            body == text@.take(end as int),
            digits == unsigned(body),
            start == body.len() - digits.len(),
            i <= start ==> done == 0,
            start <= i <= end ==> done == i - start,
            end <= i ==> done == digits.len(),
            any == (done > 0),
            value <= u32::MAX,
            value == decimal(digits.take(done)),
            forall|k: int| 0 <= k < done ==> is_digit(#[trigger] digits[k]),
    {
        if i < end {
            assert(body[i as int] == c);
            if i == 0 && c == '+' {
                assert(start == 1);
            } else if '0' <= c && c <= '9' {
                let digit = (c as u32 - '0' as u32) as u64;
                proof {
                    let upto = digits.take(done + 1);
                    assert(digits[done] == c);
                    assert(upto.drop_last() == digits.take(done));
                    assert(decimal(upto) == value * 10 + digit);
                    lemma_decimal_grows(digits, done + 1);
                    done = done + 1;
                }
                if value * 10 + digit > u32::MAX as u64 {
                    return None;
                }
                value = value * 10 + digit;
                any = true;
            } else {
                assert(!is_digit(digits[done]));
                return None;
            }
        }
        i = i + 1;
    }
    assert(digits.take(done) == digits);
    if any {
        Some(value as u32)
    } else {
        None
    }
}

/// More digits never write a smaller number.
pub proof fn lemma_decimal_grows(digits: Seq<char>, n: int)
    requires
        0 <= n <= digits.len(),
    ensures
        decimal(digits.take(n)) <= decimal(digits),
    decreases digits.len() - n,
{
    if n == digits.len() {
        assert(digits.take(n) == digits);
    } else {
        lemma_decimal_grows(digits, n + 1);
        assert(digits.take(n + 1).drop_last() == digits.take(n));
    }
}

} // verus!
