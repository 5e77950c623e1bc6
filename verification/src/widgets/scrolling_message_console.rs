use vstd::prelude::*;
use std::collections::VecDeque;
use crate::color::Color;
use crate::colors;
use crate::console::{Console, ConsoleView, Frame};
use crate::theme;

verus! {

/// A log of coloured messages that keeps the newest `height` of them, and
/// the console in which it is shown inside a frame of box-drawing
/// characters.
pub struct ScrollingMessageConsole {
    messages: VecDeque<(String, Color)>,
    pub console: Console,
    height: u32,
    stale: bool,
}

/// The log after it was cut down to its newest `height` messages.
pub open spec fn newest(log: Seq<(Seq<char>, Color)>, height: int) -> Seq<(Seq<char>, Color)> {
    if log.len() > height {
        log.skip(log.len() - height)
    } else {
        log
    }
}

/// The log after the messages of `said` were added to it one by one, with
/// room for `rows` messages.
pub open spec fn log_after(
    log: Seq<(Seq<char>, Color)>,
    said: Seq<(Seq<char>, Color)>,
    rows: int,
) -> Seq<(Seq<char>, Color)>
    decreases said.len(),
{
    if said.len() == 0 {
        log
    } else {
        newest(log_after(log, said.drop_last(), rows).push(said.last()), rows)
    }
}

/// The top edge of the frame.
pub open spec fn top_edge(width: int) -> Seq<char> {
    seq!['╗'] + Seq::new((width - 2) as nat, |i: int| '═') + seq!['╗']
}

/// The bottom edge of the frame.
pub open spec fn bottom_edge(width: int) -> Seq<char> {
    seq!['╚'] + Seq::new((width - 2) as nat, |i: int| '═') + seq!['╝']
}

/// The console after the two side bars of the frame were drawn in `row`.
pub open spec fn with_sides(view: ConsoleView, row: int) -> ConsoleView {
    view.put_char('║', 0, row, colors::white(), Some(colors::clear()), 3).put_char(
        '║',
        view.dimensions.0 - 1,
        row,
        colors::white(),
        Some(colors::clear()),
        3,
    )
}

/// The console after one message was drawn in `row`, between the side bars.
pub open spec fn with_message(view: ConsoleView, row: int, message: (Seq<char>, Color)) -> ConsoleView {
    view.put_char('║', 0, row, colors::white(), Some(colors::clear()), 3).put_text(
        message.0,
        1,
        row,
        message.1,
        Some(colors::clear()),
        3,
    ).put_char('║', view.dimensions.0 - 1, row, colors::white(), Some(colors::clear()), 3)
}

/// The console after the messages of `log` were drawn, the oldest in row
/// `first` and each newer one a row below.
pub open spec fn with_log(view: ConsoleView, log: Seq<(Seq<char>, Color)>, first: int) -> ConsoleView
    decreases log.len(),
{
    if log.len() == 0 {
        view
    } else {
        with_message(with_log(view, log.drop_last(), first), first - (log.len() - 1), log.last())
    }
}

/// The console after the side bars were drawn in the rows from 1 to `rows`.
pub open spec fn with_bars(view: ConsoleView, rows: int) -> ConsoleView
    decreases rows,
{
    if rows <= 0 {
        view
    } else {
        with_sides(with_bars(view, rows - 1), rows)
    }
}

/// The console that shows `log` in a frame `height` rows high: the top edge
/// in row `height - 1`, the messages below it from the oldest down, side
/// bars in the rows that are left, and the bottom edge in row 0.
pub open spec fn framed(view: ConsoleView, log: Seq<(Seq<char>, Color)>, height: int) -> ConsoleView {
    let width = view.dimensions.0 as int;
    let top = view.clear().put_text(
        top_edge(width),
        0,
        height - 1,
        colors::white(),
        Some(colors::clear()),
        3,
    );
    let filled = with_log(top, log, height - 2);
    let barred = with_bars(filled, height - 2 - log.len());
    barred.put_text(bottom_edge(width), 0, 0, colors::white(), Some(colors::clear()), 3)
}

/// The longest message of the log, in characters.
pub open spec fn longest(log: Seq<(Seq<char>, Color)>) -> int
    decreases log.len(),
{
    if log.len() == 0 {
        0
    } else if log.last().0.len() > longest(log.drop_last()) {
        log.last().0.len() as int
    } else {
        longest(log.drop_last())
    }
}

impl ScrollingMessageConsole {
    /// The messages, the oldest first.
    pub closed spec fn log(&self) -> Seq<(Seq<char>, Color)> {
        Seq::new(self.messages@.len(), |i: int| (self.messages@[i].0@, self.messages@[i].1))
    }

    /// The console in which the log is shown.
    pub closed spec fn screen(&self) -> Console {
        self.console
    }

    /// Whether a message was added after the console was last redrawn.
    pub closed spec fn is_stale(&self) -> bool {
        self.stale
    }

    /// The number of messages kept, and of rows framed.
    pub closed spec fn rows(&self) -> u32 {
        self.height
    }

    pub open spec fn wf(&self) -> bool {
        &&& self.screen().wf()
        &&& self.log().len() <= self.rows()
        &&& self.rows() <= i32::MAX
    }

    /// This is `before` after it was told `said`, message by message, and
    /// nothing else was done to it.
    pub open spec fn heard(&self, before: &ScrollingMessageConsole, said: Seq<(Seq<char>, Color)>) -> bool {
        &&& self.log() == log_after(before.log(), said, before.rows() as int)
        &&& self.rows() == before.rows()
        &&& self.screen() == before.screen()
        &&& self.is_stale() == (before.is_stale() || said.len() > 0)
    }

    /// What the console holds once the log is drawn, if it is not yet.
    pub open spec fn shown(&self) -> ConsoleView {
        if self.is_stale() {
            framed(self.screen()@, self.log(), self.rows() as int)
        } else {
            self.screen()@
        }
    }

    /// The frame can be drawn: it is at least two cells wide and two rows
    /// high, and every cell it reaches has an index.
    pub open spec fn fits(&self) -> bool {
        let width = self.screen()@.dimensions.0 as int;
        &&& 2 <= width <= i32::MAX
        &&& 2 <= self.rows()
        &&& longest(self.log()) < i32::MAX
        &&& width + (self.rows() - 1) * width <= u32::MAX
        &&& 1 + longest(self.log()) + (self.rows() - 1) * width <= u32::MAX
    }

    /// An empty log that will be shown in `console`.
    pub fn new(console: Console, height: u32) -> (log: ScrollingMessageConsole)
        requires
            console.wf(),
            height <= i32::MAX,
        ensures
            log.wf(),
            log.log() == Seq::<(Seq<char>, Color)>::empty(),
            log.rows() == height,
            log.screen() == console,
            !log.is_stale(),
    {
        let log = ScrollingMessageConsole {
            console,
            messages: VecDeque::new(),
            height,
            stale: false,
        };
        assert(log.log() =~= Seq::<(Seq<char>, Color)>::empty());
        log
    }

    /// Appends a message in the regular text colour.
    pub fn add_message(&mut self, message: &str)
        requires
            old(self).wf(),
        ensures
            final(self).wf(),
            final(self).log() == newest(
                old(self).log().push((message@, theme::regular_alert_text())),
                old(self).rows() as int,
            ),
            final(self).heard(old(self), seq![(message@, theme::regular_alert_text())]),
    {
        self.add_colored_message(message, theme::regular_alert_text());
    }

    /// Appends a message, then drops the oldest messages until no more
    /// than `height` are left. The console is redrawn by the next `render`.
    pub fn add_colored_message(&mut self, message: &str, color: Color)
        requires
            old(self).wf(),
        ensures
            final(self).wf(),
            final(self).log() == newest(
                old(self).log().push((message@, color)),
                old(self).rows() as int,
            ),
            final(self).heard(old(self), seq![(message@, color)]),
    {
        proof {
            let said = seq![(message@, color)];
            assert(said.drop_last() =~= Seq::<(Seq<char>, Color)>::empty());
            assert(log_after(old(self).log(), said.drop_last(), old(self).rows() as int) == old(
                self,
            ).log());
        }
        self.stale = true;
        self.messages.push_back((message.to_owned(), color));
        assert(self.log() =~= old(self).log().push((message@, color)));
        let kept = self.height as usize;
        if self.messages.len() > kept {
            let extra = self.messages.len() - kept;
            let ghost full = self.log();
            for dropped in 0..extra
                invariant
                    extra == full.len() - self.height,
                    self.height == old(self).height,
                    self.console == old(self).console,
                    self.stale,
                    self.log() =~= full.skip(dropped as int),
            {
                let ghost before = self.log();
                self.messages.pop_front();
                assert(self.log() =~= before.skip(1));
            }
        }
    }

    /// Redraws the console from the log: the frame, and inside it the
    /// messages from the oldest down.
    pub fn refresh_buffer(&mut self)
        requires
            old(self).wf(),
            old(self).fits(),
        ensures
            final(self).wf(),
            final(self).log() == old(self).log(),
            final(self).rows() == old(self).rows(),
            !final(self).is_stale(),
            final(self).screen()@ == framed(
                old(self).screen()@,
                old(self).log(),
                old(self).rows() as int,
            ),
    {
        let size = self.console.dimensions();
        let width = size.0;
        let top = edge("╗", "╗", width);
        let bottom = edge("╚", "╝", width);
        let white = colors::white();
        let clear = colors::clear();
        let ghost log = self.log();
        let ghost start = self.console@;
        proof {
            reveal_strlit("╗");
            reveal_strlit("╚");
            reveal_strlit("╝");
            assert(top@ =~= top_edge(width as int));
            assert(bottom@ =~= bottom_edge(width as int));
            lemma_product_grows(self.height - 1, self.height - 1, width as int);
        }
        self.stale = false;
        self.console.clear();
        self.console.put_text(&top, 0, self.height as i32 - 1, white, Some(clear), 3);
        let ghost topped = self.console@;
        let mut current_height: i32 = (self.height - 2) as i32;
        let mut shown: usize = 0;
        while shown < self.messages.len()
            invariant
                self.wf(),
                self.fits(),
                !self.stale,
                self.log() == log,
                self.height == old(self).height,
                self.console@.dimensions == start.dimensions,
                width == start.dimensions.0,
                white == colors::white(),
                clear == colors::clear(),
                shown <= log.len(),
                current_height == self.height - 2 - shown,
                self.console@ == with_log(topped, log.take(shown as int), self.height - 2),
            decreases log.len() - shown,
        {
            proof {
                lemma_longest_bounds(log, shown as int);
                lemma_product_grows(current_height as int, self.height - 1, width as int);
                let prefix = log.take(shown as int + 1);
                assert(prefix.drop_last() =~= log.take(shown as int));
                assert(prefix.last() == log[shown as int]);
            }
            self.console.put_char('║', 0, current_height, white, Some(clear), 3);
            self.console.put_text(
                &self.messages[shown].0,
                1,
                current_height,
                self.messages[shown].1,
                Some(clear),
                3,
            );
            self.console.put_char('║', width as i32 - 1, current_height, white, Some(clear), 3);
            current_height = current_height - 1;
            shown = shown + 1;
        }
        proof {
            assert(log.take(shown as int) =~= log);
        }
        let ghost filled = self.console@;
        let mut n: i32 = 1;
        while n <= current_height
            invariant
                self.wf(),
                !self.stale,
                self.log() == log,
                self.height == old(self).height,
                self.console@.dimensions == start.dimensions,
                width == start.dimensions.0,
                2 <= width <= i32::MAX,
                width + (self.height - 1) * width <= u32::MAX,
                white == colors::white(),
                clear == colors::clear(),
                current_height == self.height - 2 - log.len(),
                1 <= n,
                n <= current_height + 1 || n == 1,
                self.console@ == with_bars(filled, n - 1),
            decreases current_height + 1 - n,
        {
            proof {
                lemma_product_grows(n as int, self.height - 1, width as int);
            }
            self.console.put_char('║', 0, n, white, Some(clear), 3);
            self.console.put_char('║', width as i32 - 1, n, white, Some(clear), 3);
            n = n + 1;
        }
        proof {
            if current_height < 1 {
                assert(self.console@ == with_bars(filled, current_height as int));
            }
        }
        self.console.put_text(&bottom, 0, 0, white, Some(clear), 3);
    }

    /// One frame of the log's console, redrawn first if a message was added
    /// after it was last drawn.
    pub fn render(&mut self) -> (frame: Frame)
        requires
            old(self).wf(),
            old(self).is_stale() ==> old(self).fits(),
            old(self).shown().dirty ==> old(self).shown().can_upload(),
        ensures
            final(self).wf(),
            final(self).log() == old(self).log(),
            final(self).rows() == old(self).rows(),
            !final(self).is_stale(),
            final(self).screen()@ == old(self).shown().rendered(),
            old(self).shown().draws(frame),
    {
        if self.stale {
            self.refresh_buffer();
        }
        self.console.render()
    }
}

impl ScrollingMessageConsole {
    /// The number of messages in the log.
    pub fn len(&self) -> (count: usize)
        ensures
            count == self.log().len(),
    {
        self.messages.len()
    }

    /// The `index`-th message of the log, the oldest being the first, with
    /// its colour.
    pub fn message(&self, index: usize) -> (message: (String, Color))
        requires
            index < self.log().len(),
        ensures
            (message.0@, message.1) == self.log()[index as int],
    {
        (self.messages[index].0.clone(), self.messages[index].1)
    }

    /// Marks the log's console as changed.
    pub fn set_dirty(&mut self)
        requires
            old(self).wf(),
        ensures
            final(self).wf(),
            final(self).log() == old(self).log(),
            final(self).rows() == old(self).rows(),
            final(self).is_stale() == old(self).is_stale(),
            final(self).screen()@ == (ConsoleView { dirty: true, ..old(self).screen()@ }),
    {
        self.console.set_dirty();
    }

    /// Whether the frame can be drawn.
    pub fn can_refresh(&self) -> (ok: bool)
        requires
            self.wf(),
        ensures
            ok == self.fits(),
    {
        let width = self.console.dimensions().0;
        if width < 2 || width > 0x7fff_ffff || self.height < 2 {
            return false;
        }
        let ghost log = self.log();
        let mut longest_message: usize = 0;
        let mut seen: usize = 0;
        assert(log.take(0) =~= Seq::<(Seq<char>, Color)>::empty());
        while seen < self.messages.len()
            invariant
                self.log() == log,
                seen <= log.len(),
                longest_message == longest(log.take(seen as int)),
            decreases log.len() - seen,
        {
            let length = self.messages[seen].0.as_str().unicode_len();
            proof {
                let prefix = log.take(seen as int + 1);
                assert(prefix.drop_last() =~= log.take(seen as int));
                assert(prefix.last() == log[seen as int]);
            }
            if length > longest_message {
                longest_message = length;
            }
            seen = seen + 1;
        }
        assert(log.take(seen as int) =~= log);
        if longest_message >= 0x7fff_ffff {
            return false;
        }
        let rows = self.height as u64;
        let wide = width as u64;
        assert((rows - 1) * wide <= 0x7fff_ffff * 0x7fff_ffff) by (nonlinear_arith)
            requires
                0 <= rows - 1 <= 0x7fff_ffff,
                0 <= wide <= 0x7fff_ffff,
        ;
        let below = (rows - 1) * wide;
        wide + below <= 0xffff_ffff && 1 + longest_message as u64 + below <= 0xffff_ffff
    }

    /// One frame of the log's console, if it can be shown. A log that is to
    /// be redrawn but does not fit its console is left as it is; otherwise
    /// the console is redrawn if a message was added, and rendered if it
    /// can be.
    pub fn checked_render(&mut self) -> (frame: Option<Frame>)
        requires
            old(self).wf(),
        ensures
            final(self).wf(),
            final(self).log() == old(self).log(),
            final(self).rows() == old(self).rows(),
            old(self).renders(final(self), frame),
    {
        if self.stale {
            if !self.can_refresh() {
                return None;
            }
            self.refresh_buffer();
        }
        self.console.checked_render()
    }

    /// `after` and `frame` are what `checked_render` makes of this log.
    pub open spec fn renders(&self, after: &ScrollingMessageConsole, frame: Option<Frame>) -> bool {
        if self.is_stale() && !self.fits() {
            &&& frame is None
            &&& after.is_stale()
            &&& after.screen() == self.screen()
        } else {
            &&& !after.is_stale()
            &&& frame is Some <==> (self.shown().dirty ==> self.shown().can_upload())
            &&& match frame {
                Some(shown) => after.screen()@ == self.shown().rendered() && self.shown().draws(shown),
                None => after.screen()@ == self.shown(),
            }
        }
    }
}

/// `left`, then `width - 2` horizontal bars, then `right`.
fn edge(left: &str, right: &str, width: u32) -> (text: String)
    requires
        width >= 2,
    ensures
        text@ == left@ + Seq::new((width - 2) as nat, |i: int| '═') + right@,
{
    let mut text = String::from_str(left);
    let bars = width - 2;
    proof {
        reveal_strlit("═");
        assert(text@ =~= left@ + Seq::new(0nat, |i: int| '═'));
    }
    for drawn in 0..bars
        invariant
            text@ == left@ + Seq::new(drawn as nat, |i: int| '═'),
    {
        text.append("═");
        proof {
            reveal_strlit("═");
            assert(text@ =~= left@ + Seq::new((drawn + 1) as nat, |i: int| '═'));
        }
    }
    text.append(right);
    text
}

/// Telling a log one sequence of messages and then another is telling it
/// the two in a row.
pub proof fn lemma_log_after_more(
    log: Seq<(Seq<char>, Color)>,
    first: Seq<(Seq<char>, Color)>,
    second: Seq<(Seq<char>, Color)>,
    rows: int,
)
    ensures
        log_after(log_after(log, first, rows), second, rows) == log_after(log, first + second, rows),
    decreases second.len(),
{
    if second.len() == 0 {
        assert(first + second =~= first);
    } else {
        lemma_log_after_more(log, first, second.drop_last(), rows);
        assert((first + second).drop_last() =~= first + second.drop_last());
        assert((first + second).last() == second.last());
    }
}

/// No message is longer than the longest.
proof fn lemma_longest_bounds(log: Seq<(Seq<char>, Color)>, i: int)
    requires
        0 <= i < log.len(),
    ensures
        log[i].0.len() <= longest(log),
    decreases log.len(),
{
    if i < log.len() - 1 {
        lemma_longest_bounds(log.drop_last(), i);
    }
}

/// A product with a non-negative factor grows with its other factor.
proof fn lemma_product_grows(a: int, b: int, width: int)
    requires
        a <= b,
        0 <= width,
    ensures
        a * width <= b * width,
{
    assert(a * width <= b * width) by (nonlinear_arith)
        requires
            a <= b,
            0 <= width,
    ;
}

} // verus!
