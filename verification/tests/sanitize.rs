use brainfuck_interpeter::check_char;
use brainfuck_interpeter::sanitize;

#[test]
fn check_char_accepts_the_alphabet() {
    for c in ['>', '<', '+', '-', '.', ',', '[', ']'] {
        assert!(check_char(&c));
    }
}

#[test]
fn check_char_rejects_everything_else() {
    for c in ['a', 'Z', '0', ' ', '\n', '{', ';', '\u{e9}'] {
        assert!(!check_char(&c));
    }
}

#[test]
fn sanitize_keeps_instructions_in_order() {
    let r = sanitize("a+b[c-]d.");
    assert_eq!(r, vec!['+', '[', '-', ']', '.']);
}

#[test]
fn sanitize_of_clean_text_is_identity() {
    let r = sanitize("+[->.<],");
    assert_eq!(r, vec!['+', '[', '-', '>', '.', '<', ']', ',']);
}

#[test]
fn sanitize_is_idempotent() {
    let once = sanitize("load + store, [loop - body] output.");
    let again: String = once.iter().collect();
    assert_eq!(sanitize(&again), once);
}

#[test]
fn sanitize_of_empty_text_is_empty() {
    assert_eq!(sanitize(""), Vec::<char>::new());
    assert_eq!(sanitize("no instructions here"), Vec::<char>::new());
}
