use console_backend::color::Color;
use console_backend::colors;
use console_backend::console::Console;
use console_backend::font::{repertoire, BoundingBox, FontInfo};
use console_backend::game::Key;
use console_backend::glyph::Glyph;
use console_backend::theme;
use console_backend::widgets::menu::{is_safe_key, Menu};
use console_backend::widgets::scrolling_message_console::ScrollingMessageConsole;

fn full_font() -> FontInfo {
    let mut font = FontInfo::new((4000, 100));
    let mut x = 0;
    for c in repertoire().chars() {
        font.insert(c, BoundingBox::new(x, x + 30, 0, 100));
        x += 30;
    }
    font.insert(' ', BoundingBox::new(x, x + 1, 0, 1));
    font
}

fn message_console(width: u32, height: u32) -> ScrollingMessageConsole {
    let console = Console::new((width, height), colors::black(), 1, full_font());
    ScrollingMessageConsole::new(console, height)
}

fn row(console: &Console, y: u32, width: u32, layer: u32) -> String {
    (0..width)
        .map(|x| console.glyph_at(x, y, layer).map(|g| g.character).unwrap_or('.'))
        .collect()
}

#[test]
fn log_keeps_the_newest_messages() {
    let mut log = message_console(20, 3);
    assert_eq!(log.len(), 0);
    log.add_message("one");
    log.add_colored_message("two", colors::dark_red());
    log.add_message("three");
    assert_eq!(log.len(), 3);
    log.add_message("four");
    assert_eq!(log.len(), 3);
    assert_eq!(log.message(0), ("two".to_string(), colors::dark_red()));
    assert_eq!(log.message(1), ("three".to_string(), theme::regular_alert_text()));
    assert_eq!(log.message(2), ("four".to_string(), colors::white()));
}

#[test]
fn log_without_rows_keeps_nothing() {
    let mut log = message_console(20, 0);
    log.add_message("one");
    assert_eq!(log.len(), 0);
}

#[test]
fn log_is_drawn_in_a_frame_from_the_top_down() {
    let mut log = message_console(8, 5);
    log.add_message("ab");
    log.add_colored_message("cd", colors::dark_green());
    assert!(log.can_refresh());
    log.refresh_buffer();
    assert_eq!(row(&log.console, 4, 8, 3), "╗══════╗");
    assert_eq!(row(&log.console, 3, 8, 3), "║ab....║");
    assert_eq!(row(&log.console, 2, 8, 3), "║cd....║");
    assert_eq!(row(&log.console, 1, 8, 3), "║......║");
    assert_eq!(row(&log.console, 0, 8, 3), "╚══════╝");
    assert_eq!(
        log.console.glyph_at(1, 2, 3),
        Some(Glyph::new('c', colors::clear(), colors::dark_green()))
    );
    assert_eq!(
        log.console.glyph_at(0, 2, 3),
        Some(Glyph::new('║', colors::clear(), colors::white()))
    );
    assert_eq!(log.console.glyph_count(), 8 + 8 + 2 + 2 + 2 + 4);
}

#[test]
fn log_that_fills_its_rows_overwrites_the_bottom_edge_last() {
    let mut log = message_console(6, 3);
    log.add_message("a");
    log.add_message("b");
    log.add_message("c");
    log.refresh_buffer();
    assert_eq!(row(&log.console, 2, 6, 3), "╗════╗");
    assert_eq!(row(&log.console, 1, 6, 3), "║a...║");
    assert_eq!(row(&log.console, 0, 6, 3), "╚════╝");
}

#[test]
fn log_render_redraws_only_after_a_message() {
    let mut log = message_console(8, 4);
    let first = log.checked_render().unwrap();
    assert_eq!(first.upload.unwrap().vertices.len(), 0);
    assert!(log.render().upload.is_none());
    log.add_message("hi");
    let frame = log.render();
    let batch = frame.upload.unwrap();
    assert_eq!(batch.vertices.len(), 4 * (8 + 8 + 2 + 2 + 2));
    assert_eq!(frame.index_count, 6 * 22);
    let idle = log.checked_render().unwrap();
    assert!(idle.upload.is_none());
    assert_eq!(idle.index_count, 6 * 22);
    log.set_dirty();
    assert!(log.render().upload.is_some());
}

#[test]
fn log_that_does_not_fit_is_not_rendered() {
    let mut narrow = message_console(1, 4);
    narrow.add_message("hi");
    assert!(!narrow.can_refresh());
    assert!(narrow.checked_render().is_none());
    let mut low = message_console(8, 1);
    low.add_message("hi");
    assert!(!low.can_refresh());
    assert!(low.checked_render().is_none());
}

#[test]
fn log_with_an_unknown_character_is_not_rendered() {
    let mut log = message_console(8, 4);
    log.add_message("a_b");
    assert!(log.can_refresh());
    assert!(log.checked_render().is_none());
}

#[test]
fn menu_draws_header_and_lettered_options() {
    let base = Console::new((10, 10), colors::navy(), 1, full_font());
    let options = vec!["potion".to_string(), "scroll".to_string()];
    assert!(Menu::can_show(&"Use".to_string(), &options, 12));
    let menu = Menu::new("Use".to_string(), options, 12, &base);
    assert_eq!(menu.console.dimensions(), (12, 4));
    assert_eq!(menu.console.height(), 99);
    assert_eq!(row(&menu.console, 3, 12, 2), "Use.........");
    assert_eq!(row(&menu.console, 2, 12, 2), "(a) potion..");
    assert_eq!(row(&menu.console, 1, 12, 2), "(b) scroll..");
    assert_eq!(row(&menu.console, 0, 12, 2), "............");
    assert_eq!(row(&menu.console, 0, 12, 1), "            ");
    assert_eq!(
        menu.console.glyph_at(0, 0, 1),
        Some(Glyph::new(' ', theme::background(), theme::background()))
    );
    assert_eq!(
        menu.console.glyph_at(1, 2, 2),
        Some(Glyph::new('a', colors::black(), theme::regular_alert_text()))
    );
    assert_eq!(menu.console.glyph_count(), 48 + 3 + 10 + 10);
}

#[test]
fn menu_shares_the_atlas_of_the_console_it_belongs_to() {
    let base = Console::new((10, 10), colors::navy(), 1, full_font());
    let mut menu = Menu::new("Use".to_string(), vec!["x".to_string()], 6, &base);
    assert_eq!(menu.console.font().bounding_box('a'), base.font().bounding_box('a'));
    let frame = menu.checked_render().unwrap();
    assert_eq!(frame.index_count as usize, 6 * menu.console.glyph_count());
    assert!(menu.render().upload.is_none());
    menu.set_dirty();
    assert!(menu.render().upload.is_some());
}

#[test]
fn menu_keys_pick_options_by_letter() {
    let base = Console::new((10, 10), colors::navy(), 1, full_font());
    let options = vec!["potion".to_string(), "scroll".to_string()];
    let mut menu = Menu::new("Use".to_string(), options, 12, &base);
    assert_eq!(menu.process_input(Key::Character('A')), Some(0));
    assert_eq!(menu.process_input(Key::Character('a')), Some(0));
    assert_eq!(menu.process_input(Key::Character('B')), Some(1));
    assert_eq!(menu.process_input(Key::Character('C')), None);
    assert_eq!(menu.process_input(Key::Character('z')), None);
    assert_eq!(menu.process_input(Key::Character('~')), None);
    assert_eq!(menu.process_input(Key::Character('é')), None);
    assert_eq!(menu.process_input(Key::Other), None);
}

#[test]
fn menu_that_is_too_long_cannot_be_shown() {
    let options: Vec<String> = (0..160).map(|i| format!("{}", i)).collect();
    assert!(!Menu::can_show(&"Use".to_string(), &options, 12));
    let few: Vec<String> = (0..159).map(|i| format!("{}", i)).collect();
    assert!(Menu::can_show(&"Use".to_string(), &few, 12));
    assert!(!Menu::can_show(&"Use".to_string(), &few, u32::MAX));
}

#[test]
fn theme_names_palette_colours() {
    assert_eq!(theme::background(), colors::black());
    assert_eq!(theme::color_dark_wall(), colors::navy());
    assert_eq!(theme::color_light_wall(), Color::from_int(130, 110, 50, 255));
    assert_eq!(theme::color_dark_floor(), colors::dark_indigo());
    assert_eq!(theme::color_light_floor(), Color::from_int(200, 180, 50, 255));
    assert_eq!(theme::red_alert_text(), colors::dark_red());
    assert_eq!(theme::green_alert_text(), colors::dark_green());
    assert_eq!(theme::regular_alert_text(), colors::white());
    assert_eq!(theme::player(), colors::white());
    assert_eq!(theme::blood(), colors::red());
    assert_eq!(theme::troll(), colors::desaturated_green());
    assert_eq!(theme::orc(), colors::light_green());
    assert_eq!(theme::healing_item(), colors::light_slate_blue());
    assert_eq!(theme::scroll_item(), colors::light_yellow());
}

#[test]
fn palette_has_the_stock_colours() {
    assert_eq!(colors::red(), Color::from_int(1, 2, 3, 1122));
    assert_eq!(colors::dark_red(), Color::from_int(130, 20, 20, 255));
    assert_eq!(colors::dark_green(), Color::from_int(20, 120, 20, 255));
    assert_eq!(colors::navy(), Color::from_int(0, 0, 100, 255));
    assert_eq!(colors::dark_indigo(), Color::from_int(50, 50, 150, 255));
    assert_eq!(colors::clear(), Color::from_int(0, 0, 0, 0));
    assert_eq!(colors::black(), Color::from_int(0, 0, 0, 255));
    assert_eq!(colors::white(), Color::from_int(255, 255, 255, 255));
    assert_eq!(colors::desaturated_green(), Color::from_int(25, 125, 35, 255));
    assert_eq!(colors::light_green(), Color::from_int(90, 165, 30, 255));
    assert_eq!(colors::light_slate_blue(), Color::from_int(160, 65, 255, 255));
}

#[test]
fn menu_picks_without_being_changed() {
    let base = Console::new((10, 10), colors::navy(), 1, full_font());
    let menu = Menu::new("Use".to_string(), vec!["potion".to_string()], 12, &base);
    assert_eq!(menu.picks(Key::Character('a')), Some(0));
    assert_eq!(menu.picks(Key::Character('b')), None);
    assert_eq!(menu.picks(Key::Other), None);
    assert!(is_safe_key(Key::Other));
    assert!(is_safe_key(Key::Character('a')));
    assert!(is_safe_key(Key::Character('Z')));
    assert!(is_safe_key(Key::Character('{')));
    assert!(is_safe_key(Key::Character('é')));
    assert!(!is_safe_key(Key::Character('1')));
    assert!(!is_safe_key(Key::Character('@')));
    assert!(!is_safe_key(Key::Character('`')));
    assert!(!is_safe_key(Key::Character('[')));
}
