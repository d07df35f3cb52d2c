use speakeasy::font::render_lines;
use speakeasy::captions::{caption_columns, chunk_text, pam_bytes, wrap_line};

#[test]
fn chunks_group_words() {
    let text = "one two three four five six seven eight nine ten";
    let chunks = chunk_text(text);
    assert_eq!(chunks.len(), 2);
    assert_eq!(chunks[0], "one two three four five six seven eight");
}

#[test]
fn chunks_keep_every_word_in_order() {
    let text = "  a\tb\nc d e f g h i j k l m n o p q  ";
    let chunks = chunk_text(text);
    assert_eq!(chunks, vec!["a b c d e f g h", "i j k l m n o p", "q"]);
    let rejoined = chunks.join(" ");
    let words: Vec<&str> = text.split_whitespace().collect();
    assert_eq!(rejoined, words.join(" "));
}

#[test]
fn chunks_of_blank_text_are_empty() {
    assert!(chunk_text("").is_empty());
    assert!(chunk_text(" \n\t\u{3000}").is_empty());
}

#[test]
fn wrap_line_breaks_before_the_limit() {
    let lines = wrap_line("one two three four", 9);
    assert_eq!(lines, vec!["one two", "three", "four"]);
    let long = wrap_line("extraordinarily long", 5);
    assert_eq!(long, vec!["extraordinarily", "long"]);
}

#[test]
fn wrap_line_of_blank_text_keeps_the_text() {
    assert_eq!(wrap_line("   ", 8), vec!["   "]);
}

#[test]
fn pam_bytes_has_header_then_pixels() {
    let bytes = pam_bytes(2, 1, &[1, 2, 3, 4, 5, 6, 7, 8]);
    let header = b"P7\nWIDTH 2\nHEIGHT 1\nDEPTH 4\nMAXVAL 255\nTUPLTYPE RGB_ALPHA\nENDHDR\n";
    assert_eq!(&bytes[..header.len()], &header[..]);
    assert_eq!(&bytes[header.len()..], &[1, 2, 3, 4, 5, 6, 7, 8]);
}

#[test]
fn caption_lines_fit_half_the_frame() {
    // 1080 wide, glyphs scaled by 4: 540 / 32 = 16 characters.
    assert_eq!(caption_columns(1080, 4), 16);
    // never fewer than 8.
    assert_eq!(caption_columns(100, 4), 8);
    assert_eq!(caption_columns(0, 1), 8);
}

#[test]
fn captions_render_white_dots_with_a_black_outline() {
    let (w, h, rgba) = render_lines(&vec!["I".to_string()], 1).unwrap();
    assert_eq!((w, h), (10, 12));
    assert_eq!(rgba.len(), 10 * 12 * 4);
    let at = |x: usize, y: usize| &rgba[(y * 10 + x) * 4..(y * 10 + x) * 4 + 4];
    assert_eq!(at(3, 2), &[255, 255, 255, 255]);
    assert_eq!(at(2, 2), &[0, 0, 0, 255]);
    assert_eq!(at(0, 0), &[0, 0, 0, 0]);
    // a scale of 2 doubles every dot.
    let (w2, h2, big) = render_lines(&vec!["I".to_string()], 2).unwrap();
    assert_eq!((w2, h2), (20, 24));
    assert_eq!(&big[(4 * 20 + 6) * 4..(4 * 20 + 6) * 4 + 4], &[255, 255, 255, 255]);
    // no lines: one empty cell, all transparent.
    let (_, _, empty) = render_lines(&Vec::new(), 1).unwrap();
    assert!(empty.iter().all(|b| *b == 0));
}
