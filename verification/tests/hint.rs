use herdr_modes::hint::{clip, columns, fit};

#[test]
fn columns_counts_display_cells_not_bytes() {
    let legend = "hjkl focus \u{b7} x close";
    assert_eq!(columns(legend), 20);
    assert!(legend.len() > 20);
    assert_eq!(columns("\u{2026}"), 1);
}

#[test]
fn text_that_fits_is_untouched() {
    assert_eq!(clip("abc", 3), "abc");
    assert_eq!(clip("abc", 10), "abc");
    assert_eq!(clip("", 0), "");
}

#[test]
fn long_text_ends_in_one_ellipsis_within_width() {
    let clipped = clip("hjkl focus \u{b7} x close", 12);
    assert_eq!(clipped, "hjkl focus \u{2026}");
    assert_eq!(columns(&clipped), 12);
}

#[test]
fn cut_lands_on_a_char_boundary_around_the_separator() {
    // Cutting at column 12 splits the two-byte dot if bytes were used.
    assert_eq!(clip("hjkl focus \u{b7} x", 13), "hjkl focus \u{b7}\u{2026}");
}

#[test]
fn zero_width_yields_nothing_and_one_yields_the_ellipsis() {
    assert_eq!(clip("abc", 0), "");
    assert_eq!(clip("abc", 1), "\u{2026}");
}

#[test]
fn unknown_width_passes_text_through() {
    let long = "x".repeat(500);
    assert_eq!(fit(long.clone(), None), long);
    assert_eq!(fit(long.clone(), Some(4)), "xxx\u{2026}");
}

#[test]
fn rows_give_the_legend_what_the_label_leaves() {
    let bar = herdr_modes::hint::rows("PANE", Some("hjkl focus"), "cycle", Some(12));
    let (label, hint) = bar.title.expect("legend shown");
    assert_eq!(label, " PANE ");
    assert_eq!(hint, " hjkl\u{2026}");
    assert_eq!(bar.feedback, "  cycle");
}

#[test]
fn rows_without_a_legend_show_only_the_feedback() {
    let bar = herdr_modes::hint::rows("PANE", None, "a long feedback line", Some(8));
    assert!(bar.title.is_none());
    assert_eq!(bar.feedback, "  a lon\u{2026}");
    let wide = herdr_modes::hint::rows("TAB", Some("x close"), "", None);
    assert_eq!(wide.title.unwrap(), (" TAB ".to_string(), " x close".to_string()));
}

#[test]
fn a_label_wider_than_the_bar_leaves_the_legend_nothing() {
    let bar = herdr_modes::hint::rows("A VERY LONG LABEL", Some("hjkl"), "", Some(5));
    assert_eq!(bar.title.unwrap(), (" A V\u{2026}".to_string(), String::new()));
}

#[test]
fn the_prompt_row_shows_what_was_typed() {
    assert_eq!(herdr_modes::hint::prompt_row("rename tab: ", "web", None), "  rename tab: web");
    assert_eq!(herdr_modes::hint::prompt_row("rename tab: ", "web", Some(6)), "  ren\u{2026}");
}
