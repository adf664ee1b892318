use std::cell::{Cell, RefCell};
use std::rc::Rc;
use std::time::Duration;

use crossbeam_channel::{unbounded, Sender};
use unixbar::registry::Registry;
use unixbar::widget::base::{Refresh, Snapshot, Widget};
use unixbar::widget::periodic::Periodic;
use unixbar::{input_event, Event, Format, Formatter, UnixBar};

type Bar = UnixBar<Spaced, Box<dyn Widget>, Box<dyn FnMut()>>;

/// Joins the texts of the values with one space. A control line names the
/// callback to run; the end of the input is counted.
struct Spaced {
    ended: Rc<Cell<u32>>,
}

impl Spaced {
    fn new() -> Spaced {
        Spaced { ended: Rc::new(Cell::new(0)) }
    }
}

impl Formatter for Spaced {
    fn format_all(&mut self, data: &[Format]) -> String {
        let texts: Vec<&str> = data.iter().map(|v| v.as_str()).collect();
        texts.join(" ")
    }

    fn handle_stdin<C: FnMut()>(&self, line: Option<String>, fns: &mut Registry<C>) {
        match line {
            Some(line) => {
                fns.invoke(line.trim_end());
            }
            None => self.ended.set(self.ended.get() + 1),
        }
    }
}

fn text(value: &str) -> Format {
    Format::Str(value.to_string())
}

/// A widget over a cell that the test writes to, as a watcher would.
struct Cached {
    name: &'static str,
    cell: Snapshot,
    bus: Option<Sender<()>>,
    started: Rc<RefCell<Vec<&'static str>>>,
}

impl Cached {
    fn new(name: &'static str, first: &str) -> Cached {
        Cached {
            name,
            cell: Snapshot::new(text(first)),
            bus: None,
            started: Rc::new(RefCell::new(Vec::new())),
        }
    }

    fn logging(name: &'static str, first: &str, log: &Rc<RefCell<Vec<&'static str>>>) -> Cached {
        Cached { name, cell: Snapshot::new(text(first)), bus: None, started: log.clone() }
    }
}

impl Widget for Cached {
    fn current_value(&self) -> Format {
        self.cell.load()
    }

    fn spawn_notifier(&mut self, tx: Sender<()>) {
        self.started.borrow_mut().push(self.name);
        self.bus = Some(tx);
    }
}

/// A periodic widget whose interval the test lets pass by hand.
struct Ticking<F: Fn() -> Format> {
    inner: Box<Periodic<F>>,
}

impl<F: Fn() -> Format> Widget for Ticking<F> {
    fn current_value(&self) -> Format {
        self.inner.current_value()
    }

    fn spawn_notifier(&mut self, _tx: Sender<()>) {}
}

fn counter() -> impl Fn() -> Format {
    let count = Cell::new(0u32);
    move || {
        count.set(count.get() + 1);
        Format::Str(count.get().to_string())
    }
}

#[test]
fn every_line_shows_all_widgets() {
    let mut bar: Bar = UnixBar::new(Spaced::new());
    let (a, b, c) = (Cached::new("a", "a0"), Cached::new("b", "b0"), Cached::new("c", "c0"));
    let (wa, wb, wc) = (a.cell.share(), b.cell.share(), c.cell.share());
    bar.add(Box::new(a)).add(Box::new(b)).add(Box::new(c));
    let (tx, _rx) = unbounded();
    assert_eq!(bar.start(&tx), "a0 b0 c0\n");
    assert!(wb.update(Some(text("b1"))));
    assert_eq!(bar.handle(Event::Changed), Some("a0 b1 c0\n".to_string()));
    assert!(wa.update(Some(text("a1"))));
    assert!(wc.update(Some(text("c1"))));
    assert_eq!(bar.handle(Event::Changed), Some("a1 b1 c1\n".to_string()));
}

#[test]
fn first_line_comes_before_any_token() {
    let mut bar: Bar = UnixBar::new(Spaced::new());
    bar.add(Box::new(Cached::new("a", "up"))).add(Box::new(Cached::new("b", "42%")));
    let (tx, rx) = unbounded();
    let first = bar.start(&tx);
    assert_eq!(first, "up 42%\n");
    assert_eq!(first.matches('\n').count(), 1);
    assert!(rx.try_recv().is_err());
}

#[test]
fn bar_without_widgets_writes_an_empty_line() {
    let mut bar: Bar = UnixBar::new(Spaced::new());
    let (tx, _rx) = unbounded();
    assert_eq!(bar.start(&tx), "\n");
    assert_eq!(bar.show(), "\n");
}

#[test]
fn watchers_are_started_once_each_in_order() {
    let log = Rc::new(RefCell::new(Vec::new()));
    let mut bar: Bar = UnixBar::new(Spaced::new());
    bar.add(Box::new(Cached::logging("first", "1", &log)))
        .add(Box::new(Cached::logging("second", "2", &log)))
        .add(Box::new(Cached::logging("third", "3", &log)));
    assert!(log.borrow().is_empty());
    let (tx, _rx) = unbounded();
    bar.start(&tx);
    assert_eq!(*log.borrow(), vec!["first", "second", "third"]);
    bar.handle(Event::Changed);
    bar.handle(Event::Input(None));
    assert_eq!(log.borrow().len(), 3);
}

#[test]
fn started_watchers_reach_the_bus() {
    let mut bar: UnixBar<Spaced, Cached, Box<dyn FnMut()>> = UnixBar::new(Spaced::new());
    let widget = Cached::new("a", "x");
    let cell = widget.cell.share();
    bar.add(widget);
    let (tx, rx) = unbounded();
    bar.start(&tx);
    drop(tx);
    // only the widget's sending half is left: the bus is still open
    assert!(matches!(rx.try_recv(), Err(crossbeam_channel::TryRecvError::Empty)));
    assert!(cell.update(Some(text("y"))));
    assert_eq!(bar.show(), "y\n");
}

#[test]
fn embedded_line_break_is_removed() {
    let mut bar: Bar = UnixBar::new(Spaced::new());
    bar.add(Box::new(Cached::new("a", "foo\nbar")));
    assert_eq!(bar.show(), "foobar\n");
}

#[test]
fn trailing_line_break_of_a_value_is_removed() {
    let mut bar: Bar = UnixBar::new(Spaced::new());
    bar.add(Box::new(Cached::new("a", "12\n"))).add(Box::new(Cached::new("b", "x")));
    assert_eq!(bar.show(), "12 x\n");
}

#[test]
fn order_of_widgets_is_stable() {
    let mut bar: Bar = UnixBar::new(Spaced::new());
    bar.add(Box::new(Cached::new("z", "z")));
    bar.add(Box::new(Cached::new("a", "a")));
    bar.add(Box::new(Cached::new("m", "m")));
    for _ in 0..50 {
        assert_eq!(bar.handle(Event::Changed), Some("z a m\n".to_string()));
    }
}

#[test]
fn counter_lines_never_go_back() {
    let mut bar: Bar = UnixBar::new(Spaced::new());
    let b = Periodic::new(Duration::from_millis(5), counter());
    let watcher = b.share();
    bar.add(Box::new(Cached::new("a", "A"))).add(Box::new(Ticking { inner: b }));
    let (tx, rx) = unbounded();
    let mut lines = vec![bar.start(&tx)];
    for _ in 0..2 {
        assert_eq!(watcher.refresh(&tx), Refresh::Signalled);
    }
    while rx.try_recv().is_ok() {
        lines.push(bar.handle(Event::Changed).unwrap());
    }
    // both tokens were honoured, each with a line of its own
    assert_eq!(lines, vec!["A 1\n", "A 3\n", "A 3\n"]);
    assert_eq!(watcher.refresh(&tx), Refresh::Signalled);
    assert!(rx.try_recv().is_ok());
    assert_eq!(bar.handle(Event::Changed), Some("A 4\n".to_string()));
}

#[test]
fn counter_lines_follow_each_tick() {
    let mut bar: Bar = UnixBar::new(Spaced::new());
    let b = Periodic::new(Duration::from_millis(5), counter());
    let watcher = b.share();
    bar.add(Box::new(Cached::new("a", "A"))).add(Box::new(Ticking { inner: b }));
    let (tx, rx) = unbounded();
    let mut lines = vec![bar.start(&tx)];
    for _ in 0..2 {
        watcher.refresh(&tx);
        assert!(rx.try_recv().is_ok());
        lines.push(bar.handle(Event::Changed).unwrap());
    }
    assert_eq!(lines, vec!["A 1\n", "A 2\n", "A 3\n"]);
}

#[test]
fn mute_flips_twice() {
    let muted = Rc::new(Cell::new(false));
    let seen = muted.clone();
    let mut bar: Bar = UnixBar::new(Spaced::new());
    bar.register_fn("mute", Box::new(move || seen.set(!seen.get())));
    assert_eq!(bar.handle(Event::Input(Some("mute\n".to_string()))), None);
    assert!(muted.get());
    assert_eq!(bar.handle(Event::Input(Some("mute\n".to_string()))), None);
    assert!(!muted.get());
}

#[test]
fn only_the_named_callback_runs() {
    let calls = Rc::new(RefCell::new(Vec::new()));
    let mut bar: Bar = UnixBar::new(Spaced::new());
    for name in ["toggle", "togglee", "toggl", "other"] {
        let log = calls.clone();
        bar.register_fn(name, Box::new(move || log.borrow_mut().push(name)));
    }
    bar.handle(Event::Input(Some("toggle".to_string())));
    assert_eq!(*calls.borrow(), vec!["toggle"]);
    bar.handle(Event::Input(Some("missing".to_string())));
    bar.handle(Event::Input(Some("Toggle".to_string())));
    bar.handle(Event::Input(Some("".to_string())));
    assert_eq!(*calls.borrow(), vec!["toggle"]);
    bar.handle(Event::Input(Some("toggl".to_string())));
    assert_eq!(*calls.borrow(), vec!["toggle", "toggl"]);
}

#[test]
fn control_input_writes_nothing_and_keeps_the_widgets() {
    let mut bar: Bar = UnixBar::new(Spaced::new());
    bar.add(Box::new(Cached::new("a", "A")));
    bar.register_fn("noop", Box::new(|| {}));
    assert_eq!(bar.handle(Event::Input(Some("noop".to_string()))), None);
    assert_eq!(bar.handle(Event::Changed), Some("A\n".to_string()));
}

#[test]
fn end_of_input_is_handed_to_the_formatter() {
    let formatter = Spaced::new();
    let ended = formatter.ended.clone();
    let mut bar: Bar = UnixBar::new(formatter);
    bar.add(Box::new(Cached::new("a", "A")));
    assert_eq!(bar.handle(Event::Input(None)), None);
    assert_eq!(ended.get(), 1);
    // the bar goes on writing lines
    assert_eq!(bar.handle(Event::Changed), Some("A\n".to_string()));
}

#[test]
fn input_event_tells_lines_from_the_end() {
    assert_eq!(input_event(Some(5), "mute\n".to_string()), Event::Input(Some("mute\n".to_string())));
    assert_eq!(input_event(Some(1), "\n".to_string()), Event::Input(Some("\n".to_string())));
    assert_eq!(input_event(Some(0), String::new()), Event::Input(None));
    assert_eq!(input_event(None, "half".to_string()), Event::Input(None));
}

#[test]
fn failing_widget_keeps_its_last_value() {
    let mut bar: Bar = UnixBar::new(Spaced::new());
    let (good, bad) = (Cached::new("good", "g0"), Cached::new("bad", "b0"));
    let (good_cell, bad_cell) = (good.cell.share(), bad.cell.share());
    bar.add(Box::new(bad)).add(Box::new(good));
    let (tx, rx) = unbounded();
    assert_eq!(bar.start(&tx), "b0 g0\n");
    assert_eq!(bad_cell.publish(Some(text("b1")), &tx), Refresh::Signalled);
    assert!(rx.try_recv().is_ok());
    assert_eq!(bar.handle(Event::Changed), Some("b1 g0\n".to_string()));
    for round in 1..4 {
        // from now on every refresh of the one widget fails
        assert_eq!(bad_cell.publish(None, &tx), Refresh::Skipped);
        assert!(rx.try_recv().is_err());
        assert_eq!(good_cell.publish(Some(text(&format!("g{}", round))), &tx), Refresh::Signalled);
        assert!(rx.try_recv().is_ok());
        assert_eq!(bar.handle(Event::Changed), Some(format!("b1 g{}\n", round)));
    }
}

#[test]
fn error_on_second_refresh_does_not_stop_the_bar() {
    let mut bar: Bar = UnixBar::new(Spaced::new());
    let widget = Cached::new("w", "start");
    let cell = widget.cell.share();
    bar.add(Box::new(widget));
    let (tx, rx) = unbounded();
    assert_eq!(bar.start(&tx), "start\n");
    let attempts: Vec<Result<&str, &str>> = vec![Ok("one"), Err("resource busy"), Ok("three")];
    let mut lines = Vec::new();
    for attempt in attempts {
        cell.publish(attempt.ok().map(text), &tx);
        if rx.try_recv().is_ok() {
            lines.push(bar.handle(Event::Changed).unwrap());
        }
        lines.push(bar.show());
    }
    assert_eq!(lines, vec!["one\n", "one\n", "one\n", "three\n", "three\n"]);
}

#[test]
fn values_come_in_the_order_of_addition() {
    let mut bar: Bar = UnixBar::new(Spaced::new());
    assert_eq!(bar.values(), Vec::<Format>::new());
    bar.add(Box::new(Cached::new("a", "1"))).add(Box::new(Cached::new("b", "2")));
    bar.add(Box::new(Cached::new("c", "3")));
    assert_eq!(bar.values(), vec![text("1"), text("2"), text("3")]);
}

#[test]
fn render_flattens_what_the_formatter_wrote() {
    let mut bar: Bar = UnixBar::new(Spaced::new());
    assert_eq!(bar.render(&vec![text("a\n"), text("\nb"), text("c")]), "a b c\n");
    assert_eq!(bar.render(&vec![]), "\n");
    assert_eq!(bar.render(&vec![Format::UnescapedStr("<i>\n</i>".to_string())]), "<i></i>\n");
}

#[test]
fn registration_can_be_chained() {
    let hits = Rc::new(Cell::new(0));
    let (first, second) = (hits.clone(), hits.clone());
    let mut bar: Bar = UnixBar::new(Spaced::new());
    bar.register_fn("one", Box::new(move || first.set(first.get() + 1)))
        .register_fn("ten", Box::new(move || second.set(second.get() + 10)))
        .add(Box::new(Cached::new("a", "A")));
    bar.handle(Event::Input(Some("ten".to_string())));
    bar.handle(Event::Input(Some("one".to_string())));
    bar.handle(Event::Input(Some("ten".to_string())));
    assert_eq!(hits.get(), 21);
    assert_eq!(bar.show(), "A\n");
}
