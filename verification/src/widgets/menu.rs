use vstd::prelude::*;
use crate::builder::ConsoleBuilder;
use crate::console::{Console, ConsoleView, Frame};
use crate::game::Key;
use crate::theme;

verus! {

/// `String::push` appends one character to the string.
pub assume_specification[ String::push ](text: &mut String, ch: char)
    ensures
        final(text)@ == old(text)@.push(ch),
;

/// A list of options under a header, each with the letter that picks it,
/// and the console in which it is shown.
pub struct Menu {
    pub console: Console,
    options: Vec<String>,
    header: String,
    height: u32,
}

/// The strings as sequences of characters.
pub open spec fn lines_of(strings: Seq<String>) -> Seq<Seq<char>> {
    Seq::new(strings.len(), |i: int| strings[i]@)
}

/// The letter that picks the option at `index`: `a` for the first.
pub open spec fn menu_letter(index: int) -> char {
    (97 + index) as u8 as char
}

/// The line of the option at `index`: its letter in brackets, then the
/// option.
pub open spec fn option_line(index: int, option: Seq<char>) -> Seq<char> {
    seq!['(', menu_letter(index), ')', ' '] + option
}

/// The console after the first `count` options were drawn, the first in
/// row `first` and each next one a row below.
pub open spec fn with_options(view: ConsoleView, options: Seq<Seq<char>>, first: int, count: int) -> ConsoleView
    decreases count,
{
    if count <= 0 {
        view
    } else {
        with_options(view, options, first, count - 1).put_text(
            option_line(count - 1, options[count - 1]),
            0,
            first - (count - 1),
            theme::regular_alert_text(),
            None,
            2,
        )
    }
}

/// The console that shows a menu: on a filled background the header in
/// the top row, and the options in the rows below it.
pub open spec fn menu_drawn(view: ConsoleView, header: Seq<char>, options: Seq<Seq<char>>, height: int) -> ConsoleView {
    let top = view.clear().fill_background(theme::background()).put_text(
        header,
        0,
        height - 1,
        theme::regular_alert_text(),
        None,
        2,
    );
    with_options(top, options, height - 2, options.len() as int)
}

/// The longest of the first `count` lines, in characters.
pub open spec fn widest(options: Seq<Seq<char>>, count: int) -> int
    decreases count,
{
    if count <= 0 {
        0
    } else if options[count - 1].len() > widest(options, count - 1) {
        options[count - 1].len() as int
    } else {
        widest(options, count - 1)
    }
}

/// A menu of `options` under `header` can be drawn `width` columns wide:
/// every option has a letter, and every cell that is written has an index.
pub open spec fn menu_fits(header: Seq<char>, options: Seq<Seq<char>>, width: int) -> bool {
    let rows = options.len() + 2;
    let longest = if header.len() > widest(options, options.len() as int) + 4 {
        header.len() as int
    } else {
        widest(options, options.len() as int) + 4
    };
    &&& options.len() <= 159
    &&& width <= 0x8000_0000
    &&& width * rows <= u32::MAX
    &&& longest + rows * width <= u32::MAX
    &&& longest < i32::MAX
}

/// The lower case of an ASCII capital, and the character itself
/// otherwise.
pub open spec fn lower_case(c: char) -> char {
    if 'A' <= c <= 'Z' {
        (c as u8 + 32) as u8 as char
    } else {
        c
    }
}

impl Menu {
    /// The lines of the options.
    pub closed spec fn options(&self) -> Seq<Seq<char>> {
        lines_of(self.options@)
    }

    /// The header line.
    pub closed spec fn header(&self) -> Seq<char> {
        self.header@
    }

    /// The number of rows: one for each option, one for the header and one
    /// that is left free.
    pub closed spec fn rows(&self) -> u32 {
        self.height
    }

    /// The console in which the menu is shown.
    pub closed spec fn screen(&self) -> Console {
        self.console
    }

    pub open spec fn wf(&self) -> bool {
        &&& self.screen().wf()
        &&& self.rows() == self.options().len() + 2
        &&& self.screen()@.dimensions.1 == self.rows()
    }

    /// The menu can be drawn in its console.
    pub open spec fn fits(&self) -> bool {
        menu_fits(self.header(), self.options(), self.screen()@.dimensions.0 as int)
    }

    /// Whether a menu of `options` under `header` can be drawn `width`
    /// columns wide.
    pub fn can_show(header: &String, options: &Vec<String>, width: u32) -> (ok: bool)
        ensures
            ok == menu_fits(header@, lines_of(options@), width as int),
    {
        let ghost lines = lines_of(options@);
        if options.len() > 159 || width > 0x8000_0000 {
            return false;
        }
        let mut longest: usize = 0;
        let mut seen: usize = 0;
        while seen < options.len()
            invariant
                seen <= options@.len(),
                lines == lines_of(options@),
                longest == widest(lines, seen as int),
            decreases options@.len() - seen,
        {
            let length = options[seen].as_str().unicode_len();
            if length > longest {
                longest = length;
            }
            seen = seen + 1;
        }
        let header_length = header.as_str().unicode_len();
        let rows = options.len() as u64 + 2;
        assert(rows * width <= 161 * 0x8000_0000 && rows * width == width * rows) by (nonlinear_arith)
            requires
                0 <= rows <= 161,
                0 <= width <= 0x8000_0000,
        ;
        let cells = rows * width as u64;
        if longest > 0x7fff_ffff || header_length > 0x7fff_ffff {
            return false;
        }
        let widest_line = if header_length > longest + 4 {
            header_length as u64
        } else {
            longest as u64 + 4
        };
        cells <= 0xffff_ffff && widest_line + cells <= 0xffff_ffff && widest_line < 0x7fff_ffff
    }

    /// A menu of `options` under `header`, drawn into a console of its own
    /// that is `width` columns wide and shares the atlas of
    /// `relative_console`.
    pub fn new(header: String, options: Vec<String>, width: u32, relative_console: &Console) -> (menu:
        Menu)
        requires
            menu_fits(header@, lines_of(options@), width as int),
        ensures
            menu.wf(),
            menu.fits(),
            menu.header() == header@,
            menu.options() == lines_of(options@),
            menu.screen()@ == menu_drawn(
                ConsoleView {
                    dimensions: (width, (options@.len() + 2) as u32),
                    height: 99,
                    default_background: crate::colors::black(),
                    font: relative_console@.font,
                    texture_scale: relative_console@.texture_scale,
                    grid: Map::empty(),
                    dirty: true,
                    uploaded: Map::empty(),
                    drawn: 0,
                },
                header@,
                lines_of(options@),
                options@.len() as int + 2,
            ),
    {
        let height = options.len() as u32 + 2;
        let console = ConsoleBuilder::with_dimensions((width, height)).font_from(
            relative_console,
        ).centered(true).layer(99).build(None);
        let mut menu = Menu { console, options, header, height };
        menu.init_buffer();
        menu
    }

    /// Draws the menu into its console: the header in the top row, and
    /// below it the options, each behind its letter.
    pub fn init_buffer(&mut self)
        requires
            old(self).wf(),
            old(self).fits(),
        ensures
            final(self).wf(),
            final(self).fits(),
            final(self).header() == old(self).header(),
            final(self).options() == old(self).options(),
            final(self).screen()@ == menu_drawn(
                old(self).screen()@,
                old(self).header(),
                old(self).options(),
                old(self).rows() as int,
            ),
    {
        let ghost start = self.console@;
        let ghost options = self.options();
        let width = self.console.dimensions().0;
        proof {
            lemma_rows_fit(self.height as int - 1, self.height as int, width as int);
        }
        self.console.clear();
        self.console.fill_background(theme::background());
        self.console.put_text(
            &self.header,
            0,
            (self.height - 1) as i32,
            theme::regular_alert_text(),
            None,
            2,
        );
        let ghost top = self.console@;
        let mut index: usize = 0;
        while index < self.options.len()
            invariant
                self.wf(),
                self.fits(),
                self.options() == options,
                self.header() == old(self).header(),
                self.height == old(self).height,
                self.console@.dimensions == start.dimensions,
                width == start.dimensions.0,
                index <= options.len(),
                self.console@ == with_options(top, options, self.height - 2, index as int),
            decreases options.len() - index,
        {
            let menu_letter = (97u8 + index as u8) as char;
            let mut option = String::from_str("(");
            option.push(menu_letter);
            option.append(") ");
            option.append(self.options[index].as_str());
            let y = self.height as i32 - 2 - index as i32;
            proof {
                reveal_strlit("(");
                reveal_strlit(") ");
                assert(option@ =~= option_line(index as int, options[index as int]));
                lemma_widest_bounds(options, options.len() as int, index as int);
                lemma_rows_fit(y as int, self.height as int, width as int);
            }
            self.console.put_text(&option, 0, y, theme::regular_alert_text(), None, 2);
            index = index + 1;
        }
    }

    /// One frame of the menu's console.
    pub fn render(&mut self) -> (frame: Frame)
        requires
            old(self).wf(),
            old(self).screen()@.dirty ==> old(self).screen()@.can_upload(),
        ensures
            final(self).wf(),
            final(self).header() == old(self).header(),
            final(self).options() == old(self).options(),
            final(self).screen()@ == old(self).screen()@.rendered(),
            old(self).screen()@.draws(frame),
    {
        self.console.render()
    }

    /// Marks the menu's console as changed.
    pub fn set_dirty(&mut self)
        requires
            old(self).wf(),
        ensures
            final(self).wf(),
            final(self).header() == old(self).header(),
            final(self).options() == old(self).options(),
            final(self).screen()@ == (ConsoleView { dirty: true, ..old(self).screen()@ }),
    {
        self.console.set_dirty();
    }

    /// One frame of the menu's console, if it can be shown.
    pub fn checked_render(&mut self) -> (frame: Option<Frame>)
        requires
            old(self).wf(),
        ensures
            final(self).wf(),
            final(self).header() == old(self).header(),
            final(self).options() == old(self).options(),
            frame is Some <==> (old(self).screen()@.dirty ==> old(self).screen()@.can_upload()),
            match frame {
                Some(shown) => final(self).screen()@ == old(self).screen()@.rendered() && old(
                    self,
                ).screen()@.draws(shown),
                None => final(self).screen()@ == old(self).screen()@,
            },
    {
        self.console.checked_render()
    }

    /// The option that `key` picks: a letter key picks the option at that
    /// letter's place in the alphabet. Other keys, and letters beyond the
    /// last option, pick nothing.
    pub fn process_input(&mut self, key: Key) -> (picked: Option<usize>)
        requires
            key_is_safe(key),
        ensures
            *final(self) == *old(self),
            picked == pick(key, old(self).options().len() as int),
    {
        self.picks(key)
    }

    /// The option that `key` picks.
    pub fn picks(&self, key: Key) -> (picked: Option<usize>)
        requires
            key_is_safe(key),
        ensures
            picked == pick(key, self.options().len() as int),
    {
        match key {
            Key::Character(ch) => {
                if ch as u32 >= 128 {
                    return None;
                }
                let lowered: u8 = if 'A' <= ch && ch <= 'Z' {
                    ch as u8 + 32
                } else {
                    ch as u8
                };
                let index = (lowered - 97) as usize;
                if index < self.options.len() {
                    Some(index)
                } else {
                    None
                }
            },
            Key::Other => None,
        }
    }
}

/// The key can be looked up in a menu: if its name is a single ASCII
/// character, then one that does not come before the letters.
pub open spec fn key_is_safe(key: Key) -> bool {
    key matches Key::Character(c) ==> c < 128 ==> lower_case(c) >= 'a'
}

/// Whether the key can be looked up in a menu.
pub fn is_safe_key(key: Key) -> (ok: bool)
    ensures
        ok == key_is_safe(key),
{
    match key {
        Key::Character(ch) => {
            if ch as u32 >= 128 {
                return true;
            }
            let lowered: u8 = if 'A' <= ch && ch <= 'Z' {
                ch as u8 + 32
            } else {
                ch as u8
            };
            lowered >= 97
        },
        Key::Other => true,
    }
}

/// The option that `key` picks in a menu of `count` options.
pub open spec fn pick(key: Key, count: int) -> Option<usize> {
    match key {
        Key::Character(c) => if c < 128 && lower_case(c) as int - 97 < count {
            Some((lower_case(c) as int - 97) as usize)
        } else {
            None
        },
        Key::Other => None,
    }
}

/// No line is longer than the longest.
proof fn lemma_widest_bounds(options: Seq<Seq<char>>, count: int, i: int)
    requires
        0 <= i < count <= options.len(),
    ensures
        options[i].len() <= widest(options, count),
    decreases count,
{
    if i < count - 1 {
        lemma_widest_bounds(options, count - 1, i);
    }
}

/// A row below the last fits if the last does.
proof fn lemma_rows_fit(row: int, rows: int, width: int)
    requires
        row <= rows,
        0 <= width,
    ensures
        row * width <= rows * width,
{
    assert(row * width <= rows * width) by (nonlinear_arith)
        requires
            row <= rows,
            0 <= width,
    ;
}

} // verus!
