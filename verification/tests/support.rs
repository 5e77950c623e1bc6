use console_backend::game_handler::{frame_pause, FRAME_MILLIS, WINDOW_SIZE};
use console_backend::resources::{contains_nil, whitespace};
use console_backend::shader::{shader_kind, shader_names, ShaderKind};
use console_backend::vertex_format::{vertex_attrib_pointers, Attribute};

#[test]
fn shader_kind_is_told_by_the_extension() {
    assert_eq!(shader_kind("shaders/glyph.vert"), Some(ShaderKind::Vertex));
    assert_eq!(shader_kind("shaders/glyph.frag"), Some(ShaderKind::Fragment));
    assert_eq!(shader_kind(".vert"), Some(ShaderKind::Vertex));
    assert_eq!(shader_kind("shaders/glyph"), None);
    assert_eq!(shader_kind("glyph.vert.txt"), None);
    assert_eq!(shader_kind("vert"), None);
    assert_eq!(shader_kind(""), None);
    assert_eq!(shader_kind("glyph.frag.vert"), Some(ShaderKind::Vertex));
}

#[test]
fn shader_names_append_the_extensions() {
    assert_eq!(
        shader_names("shaders/glyph"),
        ("shaders/glyph.vert".to_string(), "shaders/glyph.frag".to_string())
    );
    assert_eq!(shader_names(""), (".vert".to_string(), ".frag".to_string()));
}

#[test]
fn contains_nil_finds_a_zero_byte() {
    assert!(!contains_nil(&vec![]));
    assert!(!contains_nil(&vec![1, 2, 255]));
    assert!(contains_nil(&vec![0]));
    assert!(contains_nil(&vec![1, 2, 0, 3]));
    assert!(contains_nil(&vec![1, 2, 3, 0]));
}

#[test]
fn whitespace_is_so_many_spaces() {
    assert_eq!(whitespace(0), Vec::<u8>::new());
    assert_eq!(whitespace(3), vec![b' ', b' ', b' ']);
    assert_eq!(whitespace(1000).len(), 1000);
}

#[test]
fn attributes_of_a_packed_vertex_follow_each_other() {
    let attributes = vertex_attrib_pointers(&vec![(0, 12), (1, 8), (2, 16), (3, 16)]);
    assert_eq!(
        attributes,
        vec![
            Attribute { location: 0, stride: 52, offset: 0 },
            Attribute { location: 1, stride: 52, offset: 12 },
            Attribute { location: 2, stride: 52, offset: 20 },
            Attribute { location: 3, stride: 52, offset: 36 },
        ]
    );
    assert_eq!(vertex_attrib_pointers(&vec![]), vec![]);
    assert_eq!(
        vertex_attrib_pointers(&vec![(7, 0), (5, 4)]),
        vec![
            Attribute { location: 7, stride: 4, offset: 0 },
            Attribute { location: 5, stride: 4, offset: 0 },
        ]
    );
}

#[test]
fn frame_pause_is_the_rest_of_eight_milliseconds() {
    assert_eq!(FRAME_MILLIS, 8);
    assert_eq!(frame_pause(0), 8);
    assert_eq!(frame_pause(3), 5);
    assert_eq!(frame_pause(8), 0);
    assert_eq!(frame_pause(9), 0);
    assert_eq!(frame_pause(u128::MAX), 0);
    assert_eq!(WINDOW_SIZE, (800, 600));
}
