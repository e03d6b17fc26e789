//! Tests for diagnostic-to-cursor matching.

use lsp_render::overlap::{diagnostics_at_point, diagnostics_on_line, Diagnostic, Position, Range};

fn diag(sl: u32, sc: u32, el: u32, ec: u32, msg: &str) -> Diagnostic {
    Diagnostic {
        range: Range {
            start: Position { line: sl, character: sc },
            end: Position { line: el, character: ec },
        },
        severity: None,
        message: msg.to_string(),
    }
}

fn messages(ds: &[Diagnostic]) -> Vec<String> {
    ds.iter().map(|d| d.message.clone()).collect()
}

#[test]
fn on_line_keeps_exactly_the_touching_ranges_in_order() {
    let ds = vec![
        diag(0, 0, 0, 9, "a"),
        diag(1, 4, 3, 2, "b"),
        diag(2, 0, 2, 1, "c"),
        diag(5, 0, 5, 1, "d"),
    ];
    let r = diagnostics_on_line(&ds, 2);
    assert_eq!(messages(&r), vec!["b".to_string(), "c".to_string()]);
    let r0 = diagnostics_on_line(&ds, 4);
    assert!(r0.is_empty());
    let all = diagnostics_on_line(&ds, 0);
    assert_eq!(messages(&all), vec!["a".to_string()]);
}

#[test]
fn at_point_single_line_range_bounds_are_inclusive() {
    let ds = vec![diag(2, 5, 2, 10, "m")];
    let hit = |l: u32, c: u32| !diagnostics_at_point(&ds, Position { line: l, character: c })
        .is_empty();
    assert!(hit(2, 7));
    assert!(!hit(2, 4));
    assert!(hit(2, 5));
    assert!(hit(2, 10));
    assert!(!hit(2, 11));
    assert!(!hit(3, 0));
    assert!(!hit(1, 7));
}

#[test]
fn at_point_multi_line_range_ignores_far_line_characters() {
    let ds = vec![diag(4, 8, 6, 2, "m")];
    let hit = |l: u32, c: u32| !diagnostics_at_point(&ds, Position { line: l, character: c })
        .is_empty();
    // interior line: always matches
    assert!(hit(5, 0));
    // first line: before the start character
    assert!(!hit(4, 3));
    assert!(hit(4, 8));
    // first line: no upper character bound
    assert!(hit(4, 1000));
    // last line: after the end character
    assert!(!hit(6, 3));
    assert!(hit(6, 2));
    assert!(hit(6, 0));
    // outside the line span
    assert!(!hit(3, 9));
    assert!(!hit(7, 0));
}

#[test]
fn at_point_keeps_storage_order() {
    let ds = vec![
        diag(1, 0, 1, 9, "x"),
        diag(0, 0, 9, 9, "y"),
        diag(1, 5, 1, 6, "z"),
    ];
    let r = diagnostics_at_point(&ds, Position { line: 1, character: 5 });
    assert_eq!(messages(&r), vec!["x".to_string(), "y".to_string(), "z".to_string()]);
}
