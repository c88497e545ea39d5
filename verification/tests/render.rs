use brainfuck_interpeter::Program;

#[test]
fn render_marks_empty_and_control_cells() {
    let mut program = Program::build("+++>++".to_string());
    let mut input: Vec<u8> = Vec::new();
    assert_eq!(program.run(&mut input, 100), Ok(true));
    let (cells, marker) = program.render_memory();
    assert_eq!(cells.len(), 100);
    assert_eq!(cells[0], '?');
    assert_eq!(cells[1], '?');
    assert_eq!(cells[2], '\u{bf}');
    assert_eq!(cells[99], '\u{bf}');
    assert_eq!(marker, vec![' ', '\u{21a5}']);
}

#[test]
fn render_shows_printable_cells_as_characters() {
    let source = "+".repeat(65);
    let mut program = Program::build(source);
    let mut input: Vec<u8> = Vec::new();
    assert_eq!(program.run(&mut input, 100), Ok(true));
    let (cells, marker) = program.render_memory();
    assert_eq!(cells[0], 'A');
    assert_eq!(marker, vec!['\u{21a5}']);
}

#[test]
fn render_marker_tracks_the_pointer() {
    let mut program = Program::build(">>>".to_string());
    let mut input: Vec<u8> = Vec::new();
    assert_eq!(program.run(&mut input, 100), Ok(true));
    let (_, marker) = program.render_memory();
    assert_eq!(marker, vec![' ', ' ', ' ', '\u{21a5}']);
}
