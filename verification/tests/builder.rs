use console_backend::builder::ConsoleBuilder;
use console_backend::colors;
use console_backend::console::{Console, Dirty, Num};
use console_backend::font::{BoundingBox, FontInfo};

fn font_with(c: char) -> FontInfo {
    let mut font = FontInfo::new((32, 16));
    font.insert(c, BoundingBox::new(0, 8, 0, 16));
    font
}

#[test]
fn builder_starts_with_the_stock_settings() {
    let builder = ConsoleBuilder::with_dimensions((100, 50));
    assert_eq!(builder.size(), (100, 50));
    assert_eq!(builder.font_name(), "droid-sans-mono.ttf");
    assert!(!builder.is_centered());
    assert!(builder.needs_font());
    let console = builder.build(Some(font_with('a')));
    assert_eq!(console.dimensions(), (100, 50));
    assert_eq!(console.height(), 1);
    assert!(console.is_dirty());
    assert_eq!(console.glyph_count(), 0);
    assert!(console.font().contains('a'));
    let mut console = console;
    console.put_char('a', 0, 0, colors::white(), None, 1);
    assert_eq!(console.glyph_at(0, 0, 1).unwrap().background, colors::black());
}

#[test]
fn builder_setters_chain() {
    let mut builder = ConsoleBuilder::with_dimensions((15, 8));
    builder.layer(2).background(colors::navy()).centered(true).font("other.ttf").dimensions((16, 9));
    assert_eq!(builder.size(), (16, 9));
    assert!(builder.is_centered());
    assert_eq!(builder.font_name(), "other.ttf");
    let mut console = builder.build(Some(font_with('a')));
    assert_eq!(console.height(), 2);
    assert_eq!(console.dimensions(), (16, 9));
    console.put_char('a', 0, 0, colors::white(), None, 1);
    assert_eq!(console.glyph_at(0, 0, 1).unwrap().background, colors::navy());
}

#[test]
fn builder_shares_the_font_of_another_console() {
    let first = Console::new((10, 10), colors::black(), 1, font_with('q'));
    let second = ConsoleBuilder::with_dimensions((4, 4)).font_from(&first).layer(10).build(None);
    assert!(second.font().contains('q'));
    assert_eq!(second.font().texture_scale(), (32, 16));
    assert_eq!(second.height(), 10);
    let mut builder = ConsoleBuilder::with_dimensions((4, 4));
    builder.font_from(&first);
    assert!(!builder.needs_font());
    let third = builder.build(Some(font_with('z')));
    assert!(third.font().contains('q'));
    assert!(!third.font().contains('z'));
}

#[test]
fn num_and_dirty_are_set() {
    let mut num = Num(0);
    num.set(12);
    assert_eq!(num, Num(12));
    num.set(-3);
    assert_eq!(num.0, -3);
    let mut dirty = Dirty(true);
    dirty.set(false);
    assert_eq!(dirty, Dirty(false));
    dirty.set(true);
    assert!(dirty.0);
}
