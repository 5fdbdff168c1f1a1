use otter_fusion::source_map::SourceMap;

#[test]
fn single_line_loc() {
    let sm = SourceMap::new("test.of", "var x = 5;");
    let loc = sm.loc(1, 5);
    assert_eq!(loc.file, "test.of");
    assert_eq!(loc.line, 1);
    assert_eq!(loc.col, 5);
}

#[test]
fn line_text_single_line() {
    let sm = SourceMap::new("test.of", "var x = 5;");
    assert_eq!(sm.line_text(1), "var x = 5;");
}

#[test]
fn line_text_multi_line() {
    let src = "line one\nline two\nline three";
    let sm = SourceMap::new("test.of", src);
    assert_eq!(sm.line_text(1), "line one");
    assert_eq!(sm.line_text(2), "line two");
    assert_eq!(sm.line_text(3), "line three");
}

#[test]
fn line_text_out_of_range() {
    let sm = SourceMap::new("test.of", "hello");
    assert_eq!(sm.line_text(0), "");
    assert_eq!(sm.line_text(99), "");
}

#[test]
fn line_text_empty_file() {
    let sm = SourceMap::new("empty.of", "");
    assert_eq!(sm.line_text(1), "");
}

#[test]
fn line_text_trailing_newlines() {
    let sm = SourceMap::new("test.of", "hello\nworld\n");
    assert_eq!(sm.line_text(1), "hello");
    assert_eq!(sm.line_text(2), "world");
}

#[test]
fn render_error_single_caret() {
    let sm = SourceMap::new("main.of", "var @x = 5;");
    let output = sm.render_error(1, 5, "unexpected character '@'");
    assert!(output.contains("error: unexpected character '@'"));
    assert!(output.contains("--> main.of:1:5"));
    assert!(output.contains("var @x = 5;"));
    assert!(output.contains("^"));
}

#[test]
fn render_error_multiline_source() {
    let src = "function test() {\n  var x = ;\n}";
    let sm = SourceMap::new("main.of", src);
    let output = sm.render_error(2, 11, "unexpected token ';'");
    assert!(output.contains("--> main.of:2:11"));
    assert!(output.contains("var x = ;"));
}

#[test]
fn render_error_span_underline() {
    let src = "function test(): str {\n  42\n}";
    let sm = SourceMap::new("main.of", src);
    let output = sm.render_error_span(2, 3, 5, "expected str, found i64");
    assert!(output.contains("error: expected str, found i64"));
    assert!(output.contains("^^"));
}

#[test]
fn render_error_exact_layout() {
    let sm = SourceMap::new("main.of", "var @x = 5;");
    let output = sm.render_error(1, 5, "unexpected character '@'");
    assert_eq!(
        output,
        "error: unexpected character '@'\n  --> main.of:1:5\n   |\n 1 | var @x = 5;\n   |     ^\n"
    );
}

#[test]
fn render_error_span_exact_layout() {
    let sm = SourceMap::new("main.of", "a\nb\nc\nd\ne\nf\ng\nh\ni\nj\nfunction test(): str {");
    let output = sm.render_error_span(11, 10, 14, "bad name");
    assert_eq!(
        output,
        "error: bad name\n   --> main.of:11:10\n    |\n11 | function test(): str {\n   |          ^^^^\n"
    );
}

#[test]
fn line_text_strips_carriage_returns() {
    let sm = SourceMap::new("w.of", "one\r\ntwo\r\r\n");
    assert_eq!(sm.line_text(1), "one");
    assert_eq!(sm.line_text(2), "two");
    assert_eq!(sm.line_text(3), "");
}

#[test]
fn line_texts_hold_no_line_break() {
    let sm = SourceMap::new("t.of", "a\r\n\nb\r\r\nc\n");
    for line in 0..6 {
        assert!(!sm.line_text(line).contains('\n'));
    }
    assert_eq!(sm.line_text(1), "a");
    assert_eq!(sm.line_text(2), "");
    assert_eq!(sm.line_text(3), "b");
    assert_eq!(sm.line_text(4), "c");
    assert_eq!(sm.line_text(5), "");
    assert_eq!(sm.line_text(6), "");
}

#[test]
fn lines_are_the_pieces_between_line_breaks() {
    let src = "alpha\nbeta\r\n\ngamma";
    let sm = SourceMap::new("p.of", src);
    let pieces: Vec<&str> = src.split('\n').collect();
    for (k, piece) in pieces.iter().enumerate() {
        assert_eq!(sm.line_text(k + 1), piece.trim_end_matches('\r'));
    }
    assert_eq!(sm.line_text(pieces.len() + 1), "");
    let plain = "one\ntwo\n\nthree\n";
    let sm2 = SourceMap::new("q.of", plain);
    let n = 1 + plain.matches('\n').count();
    let joined: Vec<&str> = (1..=n).map(|k| sm2.line_text(k)).collect();
    assert_eq!(joined.join("\n"), plain);
}

#[test]
fn span_diagnostic_has_five_lines() {
    let sm = SourceMap::new("m.of", "let value = 1;");
    let out = sm.render_error_span(1, 5, 10, "bad");
    let lines: Vec<&str> = out.split_terminator('\n').collect();
    assert_eq!(lines.len(), 5);
    assert_eq!(lines[4], "  |     ^^^^^");
    assert!(lines[3].ends_with("| let value = 1;"));
    let one = sm.render_error_span(1, 3, 2, "bad");
    assert!(one.ends_with("|   ^\n"));
}
