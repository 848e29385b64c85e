use vcat::config::Config;
use vcat::text::{expand_tabs, line_is_blank, number_prefix};
use vcat::transform::{transform_source, LineTransformer};

fn lines(v: &[&str]) -> Vec<String> {
    v.iter().map(|s| s.to_string()).collect()
}

fn plain() -> Config {
    Config::plain()
}

#[test]
fn identity_no_flags() {
    let input = lines(&["hello", "world", "", "  end"]);
    let out = transform_source(&input, &plain());
    assert_eq!(out, input);
}

#[test]
fn empty_input_any_flags() {
    let input: Vec<String> = Vec::new();
    let mut cfg = plain();
    assert_eq!(transform_source(&input, &cfg).len(), 0);
    cfg.number = true;
    cfg.show_ends = true;
    cfg.show_tabs = true;
    cfg.squeeze_blank = true;
    cfg.max_lines = Some(3);
    assert_eq!(transform_source(&input, &cfg).len(), 0);
}

#[test]
fn number_all_lines() {
    let input = lines(&["a", "b"]);
    let mut cfg = plain();
    cfg.number = true;
    let out = transform_source(&input, &cfg);
    assert_eq!(out, lines(&["     1\ta", "     2\tb"]));
}

#[test]
fn number_includes_blank_lines() {
    let input = lines(&["a", "", "c"]);
    let mut cfg = plain();
    cfg.number = true;
    let out = transform_source(&input, &cfg);
    assert_eq!(out, lines(&["     1\ta", "     2\t", "     3\tc"]));
}

#[test]
fn number_nonblank_skips_blanks() {
    let input = lines(&["a", "", "b", "   "]);
    let mut cfg = plain();
    cfg.number_nonblank = true;
    let out = transform_source(&input, &cfg);
    assert_eq!(out, lines(&["     1\ta", "", "     3\tb", "   "]));
}

#[test]
fn number_nonblank_uses_input_position() {
    // after two skipped blanks the next number is the input position, not a
    // compacted count
    let input = lines(&["", "", "x"]);
    let mut cfg = plain();
    cfg.number_nonblank = true;
    let out = transform_source(&input, &cfg);
    assert_eq!(out, lines(&["", "", "     3\tx"]));
}

#[test]
fn number_nonblank_blank_test_on_original_content() {
    // the blank test looks at the original line, not at the line with the
    // `$` marker already appended
    let input = lines(&["", "a"]);
    let mut cfg = plain();
    cfg.number_nonblank = true;
    cfg.show_ends = true;
    let out = transform_source(&input, &cfg);
    assert_eq!(out, lines(&["$", "     2\ta$"]));
}

#[test]
fn show_ends_appends_marker() {
    let input = lines(&["a", ""]);
    let mut cfg = plain();
    cfg.show_ends = true;
    let out = transform_source(&input, &cfg);
    assert_eq!(out, lines(&["a$", "$"]));
}

#[test]
fn show_tabs_replaces_every_tab() {
    let input = lines(&["\ta\tb", "no tabs"]);
    let mut cfg = plain();
    cfg.show_tabs = true;
    let out = transform_source(&input, &cfg);
    assert_eq!(out, lines(&["^Ia^Ib", "no tabs"]));
}

#[test]
fn squeeze_blank_collapses_runs() {
    let input = lines(&["a", "", "", "", "b", "", "c"]);
    let mut cfg = plain();
    cfg.squeeze_blank = true;
    let out = transform_source(&input, &cfg);
    assert_eq!(out, lines(&["a", "", "b", "", "c"]));
}

#[test]
fn squeeze_keeps_isolated_blank() {
    let input = lines(&["a", "", "b"]);
    let mut cfg = plain();
    cfg.squeeze_blank = true;
    let out = transform_source(&input, &cfg);
    assert_eq!(out, input);
}

#[test]
fn squeeze_treats_whitespace_lines_as_blank() {
    let input = lines(&["a", "  ", "\t", ""]);
    let mut cfg = plain();
    cfg.squeeze_blank = true;
    let out = transform_source(&input, &cfg);
    assert_eq!(out, lines(&["a", "  "]));
}

#[test]
fn max_lines_limits_output() {
    let input = lines(&["a", "b", "c"]);
    let mut cfg = plain();
    cfg.max_lines = Some(2);
    let out = transform_source(&input, &cfg);
    assert_eq!(out, lines(&["a", "b"]));
}

#[test]
fn max_lines_larger_than_input() {
    let input = lines(&["a", "b", "c"]);
    let mut cfg = plain();
    cfg.max_lines = Some(5);
    let out = transform_source(&input, &cfg);
    assert_eq!(out, input);
}

#[test]
fn max_lines_counts_emitted_not_consumed() {
    // the two squeezed blanks do not count against the limit
    let input = lines(&["a", "", "", "b"]);
    let mut cfg = plain();
    cfg.squeeze_blank = true;
    cfg.max_lines = Some(2);
    let out = transform_source(&input, &cfg);
    assert_eq!(out, lines(&["a", ""]));
}

#[test]
fn combined_flags_compose_in_order() {
    // tab substitution, then the `$` marker, then the number prefix
    let input = lines(&["\ta"]);
    let mut cfg = plain();
    cfg.number = true;
    cfg.show_ends = true;
    cfg.show_tabs = true;
    let out = transform_source(&input, &cfg);
    assert_eq!(out, lines(&["     1\t^Ia$"]));
}

#[test]
fn scenario_squeeze_tabs_ends() {
    let input = lines(&["a", "\tb", "", "", "c"]);
    let mut cfg = plain();
    cfg.squeeze_blank = true;
    cfg.show_tabs = true;
    cfg.show_ends = true;
    let out = transform_source(&input, &cfg);
    assert_eq!(out, lines(&["a$", "^Ib$", "$", "c$"]));
}

#[test]
fn numbering_restarts_for_each_source() {
    // each source is transformed independently: the second starts at 1
    let first = lines(&["one", "two"]);
    let second = lines(&["alpha", "beta"]);
    let mut cfg = plain();
    cfg.number = true;
    let out1 = transform_source(&first, &cfg);
    let out2 = transform_source(&second, &cfg);
    assert_eq!(out1, lines(&["     1\tone", "     2\ttwo"]));
    assert_eq!(out2, lines(&["     1\talpha", "     2\tbeta"]));
}

#[test]
fn number_prefix_pads_to_width_six() {
    assert_eq!(number_prefix(1), "     1\t");
    assert_eq!(number_prefix(42), "    42\t");
    assert_eq!(number_prefix(123456), "123456\t");
}

#[test]
fn number_prefix_wide_numbers_unpadded() {
    assert_eq!(number_prefix(1234567), "1234567\t");
}

#[test]
fn expand_tabs_exact() {
    assert_eq!(expand_tabs("\t"), "^I");
    assert_eq!(expand_tabs("a\tb"), "a^Ib");
    assert_eq!(expand_tabs(""), "");
}

#[test]
fn blank_test_accepts_unicode_whitespace() {
    assert!(line_is_blank(""));
    assert!(line_is_blank(" \t "));
    assert!(line_is_blank("\u{a0}\u{2003}"));
    assert!(!line_is_blank(" x "));
}

#[test]
fn transformer_stops_at_limit() {
    let mut cfg = plain();
    cfg.max_lines = Some(1);
    let mut t = LineTransformer::new(cfg);
    assert!(!t.done());
    let out = t.step("a");
    assert_eq!(out, Some("a".to_string()));
    assert!(t.done());
}

#[test]
fn transformer_squeezes_mid_stream() {
    let mut cfg = plain();
    cfg.squeeze_blank = true;
    let mut t = LineTransformer::new(cfg);
    assert_eq!(t.step("x"), Some("x".to_string()));
    assert_eq!(t.step(""), Some("".to_string()));
    assert_eq!(t.step("  "), None);
    assert_eq!(t.step("y"), Some("y".to_string()));
}
