use framework::pointcloud::{parse_vertex_lines, ColorFields, Span, VertexFields};

fn field<'a>(text: &'a str, span: Span) -> &'a str {
    &text[span.start..span.end]
}

fn fields(text: &str) -> Vec<Vec<String>> {
    parse_vertex_lines(text.as_bytes())
        .into_iter()
        .map(|v| {
            let mut out = vec![field(text, v.x), field(text, v.y), field(text, v.z)];
            if let Some(c) = v.color {
                out.extend([field(text, c.r), field(text, c.g), field(text, c.b)]);
            }
            out.into_iter().map(String::from).collect()
        })
        .collect()
}

#[test]
fn position_and_color_lines() {
    let text = "# comment\nv 1 2 3\nv 0.5 -1 2e3 0.1 0.2 0.3\nvn 0 0 1\nf 1 2 3\n";
    assert_eq!(
        fields(text),
        vec![
            vec!["1", "2", "3"],
            vec!["0.5", "-1", "2e3", "0.1", "0.2", "0.3"],
        ]
    );
}

#[test]
fn spans_point_into_the_text() {
    let text = "v 1 22 333";
    let got = parse_vertex_lines(text.as_bytes());
    assert_eq!(
        got,
        vec![VertexFields {
            x: Span { start: 2, end: 3 },
            y: Span { start: 4, end: 6 },
            z: Span { start: 7, end: 10 },
            color: None,
        }]
    );
}

#[test]
fn color_needs_all_three_fields() {
    let text = "v 1 2 3 4 5\nv 1 2 3 4 5 6 7\n";
    let got = parse_vertex_lines(text.as_bytes());
    assert_eq!(got.len(), 2);
    assert_eq!(got[0].color, None);
    assert_eq!(
        got[1].color,
        Some(ColorFields {
            r: Span { start: 20, end: 21 },
            g: Span { start: 22, end: 23 },
            b: Span { start: 24, end: 25 },
        })
    );
}

#[test]
fn short_and_unmarked_lines_are_skipped() {
    let text = "v\nv 1\nv 1 2\nvv 1 2 3\n v 1 2 3\nx 1 2 3\n\n";
    assert!(fields(text).is_empty());
}

#[test]
fn empty_fields_are_kept() {
    let text = "v  1 2\nv 1 2 3 \n";
    assert_eq!(fields(text), vec![vec!["", "1", "2"], vec!["1", "2", "3"]]);
}

#[test]
fn carriage_return_before_line_feed_is_dropped() {
    let text = "v 1 2 3\r\nv 4 5 6\r";
    assert_eq!(fields(text), vec![vec!["1", "2", "3"], vec!["4", "5", "6\r"]]);
}

#[test]
fn last_line_without_line_feed() {
    assert_eq!(fields("v 7 8 9"), vec![vec!["7", "8", "9"]]);
    assert!(fields("").is_empty());
    assert!(fields("\n\n").is_empty());
}

#[test]
fn fields_hold_no_separators() {
    let text = "v a b c d e f\r\nv  x\ty z\nv 1 2 3 \r\r\n";
    for v in parse_vertex_lines(text.as_bytes()) {
        for s in [v.x, v.y, v.z] {
            assert!(s.start <= s.end && s.end <= text.len());
            assert!(!text.as_bytes()[s.start..s.end].iter().any(|b| *b == b' ' || *b == b'\n'));
        }
    }
}
