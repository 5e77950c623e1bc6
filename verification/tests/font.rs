use console_backend::font::{
    build_font, repertoire, s_d, BoundingBox, FontError, FontInfo, PixelBounds, PlacedGlyph, Ratio,
    GLYPH_HEIGHT,
};

fn placed(position_x: i32, min_x: i32, max_x: i32) -> PlacedGlyph {
    PlacedGlyph { position_x, bounds: Some(PixelBounds { min_x, min_y: 10, max_x, max_y: 90 }) }
}

#[test]
fn bounding_box_width_and_height() {
    let rect = BoundingBox::new(3, 10, 2, 7);
    assert_eq!(rect.width(), 7);
    assert_eq!(rect.height(), 5);
    let flat = BoundingBox::new(4, 4, 9, 9);
    assert_eq!(flat.width(), 0);
    assert_eq!(flat.height(), 0);
}

#[test]
fn bounding_box_corners_are_undivided_quotients() {
    let rect = BoundingBox::new(3, 10, 2, 7);
    let ratio = |n: i32, d: i32| Ratio { numerator: n, denominator: d };
    assert_eq!(rect.top_left((100, 50)), (ratio(3, 100), ratio(7, 50)));
    assert_eq!(rect.top_right((100, 50)), (ratio(10, 100), ratio(7, 50)));
    assert_eq!(rect.bottom_left((100, 50)), (ratio(3, 100), ratio(2, 50)));
    assert_eq!(rect.bottom_right((100, 50)), (ratio(10, 100), ratio(2, 50)));
    assert_eq!(s_d(5, 8), ratio(5, 8));
}

#[test]
fn font_info_lookup_and_replacement() {
    let mut font = FontInfo::new((64, 32));
    assert_eq!(font.texture_scale(), (64, 32));
    assert_eq!(font.bounding_box('a'), None);
    assert!(!font.contains('a'));
    font.insert('a', BoundingBox::new(0, 5, 0, 10));
    font.insert('║', BoundingBox::new(5, 9, 0, 10));
    assert_eq!(font.bounding_box('a'), Some(BoundingBox::new(0, 5, 0, 10)));
    assert_eq!(font.bounding_box('║'), Some(BoundingBox::new(5, 9, 0, 10)));
    font.insert('a', BoundingBox::new(1, 2, 3, 4));
    assert_eq!(font.bounding_box('a'), Some(BoundingBox::new(1, 2, 3, 4)));
    let copy = font.clone();
    assert_eq!(copy.bounding_box('a'), Some(BoundingBox::new(1, 2, 3, 4)));
    assert_eq!(copy.texture_scale(), (64, 32));
    assert!(copy.contains('║'));
    assert!(!copy.contains('b'));
}

#[test]
fn build_font_records_every_glyph_and_the_space() {
    let glyphs = vec![placed(0, 2, 50), placed(60, 61, 108), placed(120, 122, 170)];
    let font = build_font("abc", &glyphs, 100, 117).unwrap();
    assert_eq!(font.bounding_box('a'), Some(BoundingBox::new(0, 50, 0, 100)));
    assert_eq!(font.bounding_box('b'), Some(BoundingBox::new(60, 108, 0, 100)));
    assert_eq!(font.bounding_box('c'), Some(BoundingBox::new(120, 170, 0, 100)));
    assert_eq!(font.bounding_box(' '), Some(BoundingBox::new(168, 169, 0, 1)));
    assert_eq!(font.bounding_box('d'), None);
    assert_eq!(font.texture_scale(), (268, 117));
}

#[test]
fn build_font_lets_the_later_glyph_of_a_character_count() {
    let glyphs = vec![placed(0, 0, 10), placed(10, 10, 20), placed(20, 20, 30)];
    let font = build_font("aba", &glyphs, 100, 100).unwrap();
    assert_eq!(font.bounding_box('a'), Some(BoundingBox::new(20, 30, 0, 100)));
    assert_eq!(font.bounding_box('b'), Some(BoundingBox::new(10, 20, 0, 100)));
}

#[test]
fn build_font_may_be_given_more_characters_than_glyphs() {
    let glyphs = vec![placed(0, 0, 10)];
    let font = build_font("ab", &glyphs, 100, 100).unwrap();
    assert!(font.contains('a'));
    assert!(!font.contains('b'));
}

#[test]
fn build_font_fails_without_glyphs() {
    assert_eq!(build_font("abc", &vec![], 100, 100).err(), Some(FontError::NoGlyphs));
}

#[test]
fn build_font_fails_on_the_first_glyph_without_outline() {
    let glyphs = vec![
        placed(0, 0, 10),
        PlacedGlyph { position_x: 10, bounds: None },
        PlacedGlyph { position_x: 20, bounds: None },
    ];
    assert_eq!(
        build_font("abc", &glyphs, 100, 100).err(),
        Some(FontError::MissingOutline { index: 1 })
    );
}

#[test]
fn build_font_fails_on_a_glyph_without_character() {
    let glyphs = vec![placed(0, 0, 10), placed(10, 10, 20)];
    assert_eq!(build_font("a", &glyphs, 100, 100).err(), Some(FontError::Unnamed));
}

#[test]
fn build_font_fails_on_an_atlas_too_large_for_a_texture() {
    let reversed = vec![placed(0, 50, 60), placed(10, 10, 20)];
    assert_eq!(build_font("ab", &reversed, 100, 100).err(), Some(FontError::Oversized));
    let wide = vec![placed(0, 0, i32::MAX - 50)];
    assert_eq!(build_font("a", &wide, 100, 100).err(), Some(FontError::Oversized));
    let high = vec![placed(0, 0, 10)];
    assert_eq!(build_font("a", &high, 100, u32::MAX).err(), Some(FontError::Oversized));
    let fits = vec![placed(0, 0, i32::MAX - 100)];
    assert!(build_font("a", &fits, 100, 100).is_ok());
}

#[test]
fn repertoire_holds_the_frame_and_the_alphabet() {
    let text = repertoire();
    assert_eq!(text.chars().count(), 105);
    assert!(text.starts_with("╚║╗╝═╔"));
    for c in "abcdefghijklmnopqrstuvwxyzABCDEFGHIJKLMNOPQRSTUVWXYZ0123456789:/().,!".chars() {
        assert!(text.contains(c));
    }
    assert!(!text.contains(' '));
    assert_eq!(GLYPH_HEIGHT, 100);
}
