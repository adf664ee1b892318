//! A status line composed of independently updating widgets.
//!
//! A bar holds widgets in the order they were added and callbacks by name.
//! Whenever a widget signals a change the bar writes one line that shows every
//! widget; a line of control input is handed to the formatter, which may call
//! one of the callbacks.

pub mod format;
pub mod registry;
pub mod widget;

use crossbeam_channel::Sender;
use vstd::prelude::*;

pub use crate::format::{flatten, terminate, Format, Formatter};
pub use crate::registry::Registry;
pub use crate::widget::{Backlight, Periodic, Pulse, Refresh, Snapshot, Widget};

use crate::format::physical_line;
use crate::widget::base::fork;

verus! {

/// What the bar waits for.
#[derive(Debug, PartialEq, Eq)]
pub enum Event {
    /// A token from the notifier bus: some widget has a new value.
    Changed,
    /// One line of control input, or `None` when the input has ended.
    Input(Option<String>),
}

/// The event for one read of the control input: the line that was read, or
/// the end of the input when the read failed or gave nothing.
pub fn input_event(read: Option<usize>, line: String) -> (event: Event)
    ensures
        event == Event::Input(
            if read matches Some(n) && n > 0 {
                Some(line)
            } else {
                None
            },
        ),
{
    match read {
        Some(n) if n > 0 => Event::Input(Some(line)),
        _ => Event::Input(None),
    }
}

/// The status bar: a formatter, widgets in display order, and callbacks by
/// name.
pub struct UnixBar<F: Formatter, W: Widget, C: FnMut()> {
    formatter: F,
    widgets: Vec<W>,
    fns: Registry<C>,
}

/// Whether `values` holds one value for each widget, in the widgets' order,
/// each a value that its widget may show.
pub open spec fn shown_by<W: Widget>(widgets: Seq<W>, values: Seq<Format>) -> bool {
    &&& values.len() == widgets.len()
    &&& forall|i: int| 0 <= i < widgets.len() ==> (#[trigger] widgets[i]).displays(values[i])
}

/// Display order is the order of addition: the values shown for a list of
/// widgets and one more widget are values shown for the list, followed by a
/// value of the widget that was added last.
pub proof fn lemma_added_widget_is_shown_last<W: Widget>(
    widgets: Seq<W>,
    widget: W,
    values: Seq<Format>,
)
    requires
        shown_by(widgets.push(widget), values),
    ensures
        values.len() == widgets.len() + 1,
        shown_by(widgets, values.drop_last()),
        widget.displays(values.last()),
{
    let all = widgets.push(widget);
    assert forall|i: int| 0 <= i < widgets.len() implies (#[trigger] widgets[i]).displays(
        values.drop_last()[i],
    ) by {
        assert(all[i].displays(values[i]));
    }
    assert(all[widgets.len() as int].displays(values[widgets.len() as int]));
}

impl<F: Formatter, W: Widget, C: FnMut()> UnixBar<F, W, C> {
    /// The formatter.
    pub closed spec fn formatter(&self) -> F {
        self.formatter
    }

    /// The widgets, in the order they were added.
    pub closed spec fn widgets(&self) -> Seq<W> {
        self.widgets@
    }

    /// The callbacks.
    pub closed spec fn fns(&self) -> Registry<C> {
        self.fns
    }

    /// Whether the bar is well formed: its callbacks are.
    pub open spec fn wf(&self) -> bool {
        self.fns().wf()
    }

    /// Whether `text` is a physical line that this bar may write now: the
    /// formatter's rendering of one current value of each widget, in the
    /// widgets' order, without line breaks and closed by a line terminator.
    pub open spec fn emits(&self, text: Seq<char>) -> bool {
        exists|values: Seq<Format>, line: Seq<char>|
            {
                &&& shown_by(self.widgets(), values)
                &&& #[trigger] self.formatter().renders(values, line)
                &&& text == physical_line(line)
            }
    }

    /// A bar without widgets and without callbacks.
    pub fn new(formatter: F) -> (bar: Self)
        ensures
            bar.formatter() == formatter,
            bar.widgets() == Seq::<W>::empty(),
            bar.wf(),
            bar.fns().entries() == Map::<Seq<char>, C>::empty(),
            bar.fns().invocations() == Map::<Seq<char>, nat>::empty(),
    {
        UnixBar { formatter, widgets: Vec::new(), fns: Registry::new() }
    }

    /// Registers `func` as the callback `name`, in place of any callback that
    /// had the name.
    pub fn register_fn(&mut self, name: &str, func: C) -> (bar: &mut Self)
        requires
            old(self).wf(),
            call_requires(func, ()),
        ensures
            bar.wf(),
            bar.fns().entries() == old(self).fns().entries().insert(name@, func),
            bar.fns().invocations() == old(self).fns().invocations().insert(name@, 0),
            bar.widgets() == old(self).widgets(),
            bar.formatter() == old(self).formatter(),
            *final(self) == *final(bar),
    {
        self.fns.register(name, func);
        self
    }

    /// Adds `widget` as the last widget of the bar.
    pub fn add(&mut self, widget: W) -> (bar: &mut Self)
        ensures
            bar.widgets() == old(self).widgets().push(widget),
            bar.fns() == old(self).fns(),
            bar.formatter() == old(self).formatter(),
            *final(self) == *final(bar),
    {
        self.widgets.push(widget);
        self
    }

    /// One current value of each widget, in the widgets' order.
    pub fn values(&self) -> (values: Vec<Format>)
        ensures
            shown_by(self.widgets(), values@),
    {
        let mut values: Vec<Format> = Vec::new();
        let mut i: usize = 0;
        while i < self.widgets.len()
            invariant
                i <= self.widgets@.len(),
                values@.len() == i,
                forall|k: int| 0 <= k < i ==> (#[trigger] self.widgets@[k]).displays(values@[k]),
            decreases self.widgets@.len() - i,
        {
            let value = self.widgets[i].current_value();
            values.push(value);
            i = i + 1;
        }
        values
    }

    /// The physical line for `values`: the formatter's line without its line
    /// breaks, closed by a line terminator.
    pub fn render(&mut self, values: &Vec<Format>) -> (text: String)
        ensures
            exists|line: Seq<char>|
                old(self).formatter().renders(values@, line) && text@ == #[trigger] physical_line(
                    line,
                ),
            final(self).widgets() == old(self).widgets(),
            final(self).fns() == old(self).fns(),
    {
        let line = self.formatter.format_all(values.as_slice());
        assert(old(self).formatter().renders(values@, line@));
        terminate(line.as_str())
    }

    /// The physical line to write now: it shows every widget, in the order
    /// the widgets were added.
    pub fn show(&mut self) -> (text: String)
        ensures
            old(self).emits(text@),
            final(self).widgets() == old(self).widgets(),
            final(self).fns() == old(self).fns(),
    {
        let values = self.values();
        self.render(&values)
    }

    /// Starts the bar: starts the watcher of every widget, in the widgets'
    /// order and each with a sending half of the bus, then gives the first
    /// line to write. Afterwards every widget signals its changes.
    pub fn start(&mut self, tx: &Sender<()>) -> (text: String)
        ensures
            final(self).widgets().len() == old(self).widgets().len(),
            forall|i: int|
                0 <= i < final(self).widgets().len() ==> (#[trigger] final(self).widgets()[i]).signals(),
            forall|i: int, value: Format|
                0 <= i < old(self).widgets().len() ==> (#[trigger] final(self).widgets()[i].displays(
                    value,
                )) == old(self).widgets()[i].displays(value),
            final(self).fns() == old(self).fns(),
            old(self).emits(text@),
    {
        let mut i: usize = 0;
        while i < self.widgets.len()
            invariant
                i <= self.widgets@.len(),
                self.widgets@.len() == old(self).widgets@.len(),
                self.fns == old(self).fns,
                self.formatter == old(self).formatter,
                forall|k: int| 0 <= k < i ==> (#[trigger] self.widgets@[k]).signals(),
                forall|k: int, value: Format|
                    0 <= k < self.widgets@.len() ==> (#[trigger] self.widgets@[k].displays(value))
                        == old(self).widgets@[k].displays(value),
            decreases self.widgets@.len() - i,
        {
            self.widgets[i].spawn_notifier(fork(tx));
            i = i + 1;
        }
        let ghost started = *self;
        let text = self.show();
        proof {
            let (values, line) = choose|values: Seq<Format>, line: Seq<char>|
                {
                    &&& shown_by(started.widgets(), values)
                    &&& #[trigger] started.formatter().renders(values, line)
                    &&& text@ == physical_line(line)
                };
            assert forall|i: int| 0 <= i < old(self).widgets().len() implies (
            #[trigger] old(self).widgets()[i]).displays(values[i]) by {
                assert(started.widgets()[i].displays(values[i]));
            }
            assert(old(self).formatter().renders(values, line));
        }
        text
    }

    /// One turn of the bar. A token from the bus gives the line to write, which
    /// shows every widget; a line of control input is handed to the formatter
    /// and gives nothing to write.
    pub fn handle(&mut self, event: Event) -> (text: Option<String>)
        requires
            old(self).wf(),
        ensures
            final(self).wf(),
            final(self).widgets() == old(self).widgets(),
            match event {
                Event::Changed => {
                    &&& text matches Some(t) && old(self).emits(t@)
                    &&& final(self).fns() == old(self).fns()
                },
                Event::Input(_) => {
                    &&& text is None
                    &&& final(self).formatter() == old(self).formatter()
                    &&& old(self).fns().steps_to(&final(self).fns())
                },
            },
    {
        match event {
            Event::Changed => Some(self.show()),
            Event::Input(line) => {
                self.formatter.handle_stdin(line, &mut self.fns);
                None
            },
        }
    }
}

} // verus!
