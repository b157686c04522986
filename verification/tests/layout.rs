use line_clamp::{InputResultForEllipsis, Layout, LayoutError, LineClamp, LineClampProps};

fn props(texts: &[&str], content_width: i32, content_height: i32) -> LineClampProps {
    LineClampProps {
        texts: texts.iter().map(|t| t.to_string()).collect(),
        content_width,
        content_height,
    }
}

fn span(text: &str) -> String {
    format!("<span style='display:inline-block;'>{}</span>", text)
}

/// Every character is as wide as the font size.
fn by_length(text: &str, font_size: i32) -> Option<i32> {
    Some(text.chars().count() as i32 * font_size)
}

/// Carries a layout to its end and counts the rounds of measuring.
fn carry(lc: &LineClamp, measure: &dyn Fn(&str, i32) -> Option<i32>) -> (Layout, usize) {
    assert!(lc.validate().is_none());
    let mut layout = lc.start();
    let mut rounds = 0;
    loop {
        match lc.wanted(&layout) {
            None => return (layout, rounds),
            Some((texts, font_size)) => {
                let measured: Option<Vec<i32>> =
                    texts.iter().map(|t| measure(t, font_size)).collect();
                layout = lc.advance(layout, measured);
                rounds += 1;
                assert!(rounds < 1000);
            }
        }
    }
}

fn done(layout: Layout) -> InputResultForEllipsis {
    match layout {
        Layout::Done { result } => result,
        other => panic!("the layout is not done: {:?}", other),
    }
}

#[test]
fn five_tokens_fit_on_one_line() {
    let lc = LineClamp::new(props(&["word"; 5], 400, 100));
    let (layout, rounds) = carry(&lc, &by_length);
    let result = done(layout);
    assert_eq!(result.html, vec![span("word word word word word")]);
    assert_eq!(result.font_size, 14);
    assert_eq!(rounds, 1);
}

#[test]
fn height_clips_to_one_line_with_ellipsis() {
    let free = LineClamp::new(props(&["word"; 5], 290, 100));
    let free_result = done(carry(&free, &by_length).0);
    // Each token is 56 wide at 14 and 70 with its space: four fill a line.
    assert_eq!(free_result.html, vec![span("word word word word"), span("word")]);
    assert_eq!(free_result.font_size, 14);

    let lc = LineClamp::new(props(&["word"; 5], 290, 20));
    let (layout, rounds) = carry(&lc, &by_length);
    let result = done(layout);
    // The ellipsis is 42 wide: beside it the line has room for three tokens.
    assert_eq!(result.html, vec![span("word word word...")]);
    assert_eq!(result.font_size, 14);
    assert_eq!(rounds, 2);
}

#[test]
fn unusable_box_gives_the_fallback() {
    for (width, height) in [(1, 100), (100, 1), (1, 1), (5, 100), (100, 5), (0, 0), (-3, 40)] {
        let lc = LineClamp::new(props(&["some", "tokens", "here"], width, height));
        let (layout, rounds) = carry(&lc, &by_length);
        let result = done(layout);
        assert_eq!(result.html, vec![span("...")]);
        assert_eq!(result.font_size, 10);
        assert_eq!(rounds, 0);
    }
    let empty = LineClamp::new(props(&[], 1, 1));
    assert_eq!(done(carry(&empty, &by_length).0).html, vec![span("...")]);
}

#[test]
fn token_too_wide_at_every_size() {
    let mut lc = LineClamp::new(props(&["abcdefghij"], 50, 100));
    lc.step = 1;
    let (layout, rounds) = carry(&lc, &by_length);
    let result = done(layout);
    assert_eq!(result.html, vec![span("...")]);
    assert_eq!(result.font_size, 10);
    assert_eq!(rounds, 5);
}

#[test]
fn box_just_above_the_smallest_usable_is_laid_out() {
    let lc = LineClamp::new(props(&["a"], 100, 6));
    let result = done(carry(&lc, &by_length).0);
    // 6 / 14 lines: no line fits, so the fallback is shown.
    assert_eq!(result.html, vec![span("...")]);
    assert_eq!(result.font_size, 10);

    let mut lc = LineClamp::new(props(&["a"], 6, 100));
    lc.step = 1;
    // "a" is 14 wide at 14: too wide at every size down to 10.
    let (layout, rounds) = carry(&lc, &by_length);
    assert_eq!(done(layout).html, vec![span("...")]);
    assert_eq!(rounds, 5);
}

#[test]
fn no_room_for_a_line_gives_the_fallback() {
    let lc = LineClamp::new(props(&["word"; 5], 400, 10));
    let (layout, rounds) = carry(&lc, &by_length);
    let result = done(layout);
    assert_eq!(result.html, vec![span("...")]);
    assert_eq!(result.font_size, 10);
    assert_eq!(rounds, 1);
}

#[test]
fn empty_request_gives_the_fallback() {
    let lc = LineClamp::new(props(&[], 100, 100));
    let (layout, rounds) = carry(&lc, &by_length);
    let result = done(layout);
    assert_eq!(result.html, vec![span("...")]);
    assert_eq!(result.font_size, 10);
    assert_eq!(rounds, 1);
}

#[test]
fn search_goes_down_by_the_step() {
    for (step, font_size, rounds) in [(1, 12, 3), (2, 12, 2), (3, 11, 2), (4, 10, 2)] {
        let mut lc = LineClamp::new(props(&["abcdefgh"], 100, 100));
        lc.step = step;
        let (layout, counted) = carry(&lc, &by_length);
        let result = done(layout);
        assert_eq!(result.html, vec![span("abcdefgh")]);
        assert_eq!(result.font_size, font_size);
        assert_eq!(counted, rounds);
    }
}

#[test]
fn search_gives_up_where_the_next_size_is_too_small() {
    let mut lc = LineClamp::new(props(&["abcdefgh"], 100, 100));
    lc.step = 5;
    let (layout, rounds) = carry(&lc, &by_length);
    let result = done(layout);
    assert_eq!(result.html, vec![span("...")]);
    assert_eq!(result.font_size, 10);
    assert_eq!(rounds, 1);
}

#[test]
fn search_without_step_gives_up_after_one_trial() {
    let lc = LineClamp::new(props(&["ab", "abcdefghij", "cd"], 100, 100));
    assert_eq!(lc.step, 0);
    let (layout, rounds) = carry(&lc, &by_length);
    let result = done(layout);
    // "ab" is 28 + 14 wide at 14 and stays; the ellipsis is 30 wide at 10.
    assert_eq!(result.html, vec![span("ab...")]);
    assert_eq!(result.font_size, 10);
    assert_eq!(rounds, 2);
}

#[test]
fn wanted_texts_of_a_trial_and_of_the_ellipsis() {
    let lc = LineClamp::new(props(&["ab", "abcdefghij"], 100, 100));
    let layout = lc.start();
    let (texts, font_size) = lc.wanted(&layout).unwrap();
    assert_eq!(texts, vec!["ab", "abcdefghij", "5 pace", "5pace"]);
    assert_eq!(font_size, 14);

    let layout = lc.advance(layout, Some(vec![28, 140, 84, 70]));
    match &layout {
        Layout::Ellipsis { words_info } => {
            assert_eq!(words_info.text, vec!["ab"]);
            assert_eq!(words_info.widths, vec![42]);
            assert_eq!(words_info.font_size, 10);
            assert!(words_info.ellipsis);
        }
        other => panic!("the ellipsis is not wanted: {:?}", other),
    }
    let (texts, font_size) = lc.wanted(&layout).unwrap();
    assert_eq!(texts, vec!["..."]);
    assert_eq!(font_size, 10);

    let layout = lc.advance(layout, Some(vec![59]));
    assert!(lc.wanted(&layout).is_none());
    // 42 + 59 is above 100: the token makes room for the ellipsis.
    assert_eq!(done(layout).html, vec![span("...")]);
}

#[test]
fn measuring_that_fails_fails_the_layout() {
    let lc = LineClamp::new(props(&["word"; 5], 290, 20));
    let (layout, rounds) = carry(&lc, &|_, _| None);
    assert!(matches!(layout, Layout::Failed { error: LayoutError::MeasurementFailed }));
    assert_eq!(rounds, 1);

    let only_tokens = |text: &str, font_size: i32| {
        if text == "..." {
            None
        } else {
            by_length(text, font_size)
        }
    };
    let (layout, rounds) = carry(&lc, &only_tokens);
    assert!(matches!(layout, Layout::Failed { error: LayoutError::MeasurementFailed }));
    assert_eq!(rounds, 2);
}

#[test]
fn widths_of_the_wrong_number_fail_the_layout() {
    let lc = LineClamp::new(props(&["word"; 5], 290, 20));
    for measured in [vec![], vec![1], vec![1; 5], vec![1; 6], vec![1; 8]] {
        let layout = lc.advance(lc.start(), Some(measured));
        assert!(matches!(layout, Layout::Failed { error: LayoutError::MeasurementCount }));
    }
    let layout = lc.advance(lc.start(), Some(vec![56, 56, 56, 56, 56, 84, 70]));
    assert!(matches!(layout, Layout::Ellipsis { .. }));
    for measured in [vec![], vec![1, 2]] {
        let failed = lc.advance(layout.clone(), Some(measured));
        assert!(matches!(failed, Layout::Failed { error: LayoutError::MeasurementCount }));
    }
}

#[test]
fn a_layout_at_its_end_stays_as_it_is() {
    let lc = LineClamp::new(props(&["word"; 5], 400, 100));
    let (layout, _) = carry(&lc, &by_length);
    let again = lc.advance(layout.clone(), Some(vec![1, 2, 3]));
    assert_eq!(done(again).html, done(layout).html);

    let failed = lc.advance(lc.start(), None);
    let again = lc.advance(failed, Some(vec![56, 56, 56, 56, 56, 84, 70]));
    assert!(matches!(again, Layout::Failed { error: LayoutError::MeasurementFailed }));
    let again = lc.advance(again, None);
    assert!(matches!(again, Layout::Failed { error: LayoutError::MeasurementFailed }));
}

#[test]
fn layout_error_messages() {
    assert_eq!(LayoutError::MeasurementFailed.message(), "the text could not be measured");
    assert_eq!(
        LayoutError::MeasurementCount.message(),
        "the widths do not match the texts to measure"
    );
}

#[test]
fn line_count_stays_within_the_box() {
    let texts: Vec<String> = (0..10).map(|i| format!("t{}", i)).collect();
    let names: Vec<&str> = texts.iter().map(|t| t.as_str()).collect();
    for height in 6..120 {
        let lc = LineClamp::new(props(&names, 120, height));
        let result = done(carry(&lc, &by_length).0);
        let max_lines = (height / 14) as usize;
        assert!(result.html.len() >= 1);
        if max_lines >= 1 {
            assert!(result.html.len() <= max_lines);
            assert_eq!(result.html.len(), max_lines.min(5));
        } else {
            assert_eq!(result.html, vec![span("...")]);
        }
    }
}

#[test]
fn font_size_stays_within_the_range() {
    for width in 6..200 {
        for step in 0..6 {
            let mut lc = LineClamp::new(props(&["abc", "abcdefgh", "ab"], width, 60));
            lc.step = step;
            let result = done(carry(&lc, &by_length).0);
            assert!(10 <= result.font_size && result.font_size <= 14);
        }
    }
}

#[test]
fn rounds_of_measuring_are_bounded_by_the_font_sizes() {
    for step in 1..8 {
        for width in [10, 50, 90, 100, 104, 112, 200] {
            let lc = LineClamp::with_config(
                props(&["abcdefgh", "ab"], width, 15),
                step,
                8,
                20,
                14,
                5,
                "...".to_string(),
            )
            .unwrap();
            let (_, rounds) = carry(&lc, &by_length);
            assert!(rounds as i32 <= (20 - 8) / step + 2);
        }
    }
}

#[test]
fn same_request_same_measures_same_layout() {
    let texts: Vec<String> = (0..10).map(|i| format!("t{}", i)).collect();
    let names: Vec<&str> = texts.iter().map(|t| t.as_str()).collect();
    for width in [30, 60, 120, 200, 1000] {
        for height in [6, 14, 30, 45, 100] {
            let mut lc = LineClamp::new(props(&names, width, height));
            lc.step = 1;
            let (first, first_rounds) = carry(&lc, &by_length);
            let (second, second_rounds) = carry(&lc, &by_length);
            let first = done(first);
            let second = done(second);
            assert_eq!(first.html, second.html);
            assert_eq!(first.font_size, second.font_size);
            assert_eq!(first_rounds, second_rounds);
        }
    }
}

#[test]
fn tokens_keep_their_order_across_lines() {
    let texts: Vec<String> = (0..10).map(|i| format!("t{}", i)).collect();
    let names: Vec<&str> = texts.iter().map(|t| t.as_str()).collect();
    let lc = LineClamp::new(props(&names, 120, 45));
    let result = done(carry(&lc, &by_length).0);
    assert_eq!(result.html, vec![span("t0 t1"), span("t2 t3"), span("t4...")]);

    for width in [30, 57, 60, 112, 120, 170, 1000] {
        for height in [14, 30, 45, 100] {
            let lc = LineClamp::new(props(&names, width, height));
            let result = done(carry(&lc, &by_length).0);
            let mut shown: Vec<String> = Vec::new();
            let count = result.html.len();
            for (k, line) in result.html.iter().enumerate() {
                let inner = line
                    .strip_prefix("<span style='display:inline-block;'>")
                    .unwrap()
                    .strip_suffix("</span>")
                    .unwrap();
                let inner = match inner.strip_suffix("...") {
                    Some(rest) => {
                        assert_eq!(k, count - 1);
                        rest
                    }
                    None => inner,
                };
                shown.extend(inner.split_whitespace().map(|t| t.to_string()));
            }
            assert!(shown.len() <= texts.len());
            assert_eq!(shown[..], texts[..shown.len()]);
        }
    }
}

#[test]
fn every_state_of_a_layout_is_well_formed() {
    let mut lc = LineClamp::new(props(&["ab", "abcdefgh", "cd"], 100, 20));
    lc.step = 1;
    let mut layout = lc.start();
    assert!(lc.well_formed(&layout));
    while let Some((texts, font_size)) = lc.wanted(&layout) {
        let measured: Option<Vec<i32>> = texts.iter().map(|t| by_length(t, font_size)).collect();
        layout = lc.advance(layout, measured);
        assert!(lc.well_formed(&layout));
    }
    assert!(matches!(layout, Layout::Done { .. }));
}

#[test]
fn a_state_of_another_request_is_told_apart() {
    let lc = LineClamp::new(props(&["ab", "cd"], 100, 20));
    assert!(lc.well_formed(&Layout::Trial { font_size: 10, incomplete_width: vec![] }));
    assert!(lc.well_formed(&Layout::Trial { font_size: 14, incomplete_width: vec![1] }));
    assert!(!lc.well_formed(&Layout::Trial { font_size: 9, incomplete_width: vec![] }));
    assert!(!lc.well_formed(&Layout::Trial { font_size: 15, incomplete_width: vec![] }));
    assert!(lc.well_formed(&Layout::Failed { error: LayoutError::MeasurementCount }));

    let settled = |text: &[&str], widths: &[i64], font_size: i32| Layout::Ellipsis {
        words_info: line_clamp::IWordInfo {
            text: text.iter().map(|t| t.to_string()).collect(),
            widths: widths.to_vec(),
            font_size,
            ellipsis: true,
        },
    };
    assert!(lc.well_formed(&settled(&["ab"], &[5], 12)));
    assert!(lc.well_formed(&settled(&[], &[], 12)));
    assert!(lc.well_formed(&settled(&["ab", "cd"], &[5, 5], 12)));
    assert!(!lc.well_formed(&settled(&["ab"], &[5, 5], 12)));
    assert!(!lc.well_formed(&settled(&["cd"], &[5], 12)));
    assert!(!lc.well_formed(&settled(&["ab", "cd", "ef"], &[5, 5, 5], 12)));
    assert!(!lc.well_formed(&settled(&["ab"], &[5], 15)));

    let result = |lines: usize, font_size: i32| Layout::Done {
        result: InputResultForEllipsis { html: vec![String::new(); lines], font_size },
    };
    assert!(lc.well_formed(&result(1, 10)));
    assert!(!lc.well_formed(&result(0, 10)));
    assert!(!lc.well_formed(&result(2, 10)));
    assert!(!lc.well_formed(&result(1, 9)));
    let none = LineClamp::new(props(&["ab", "cd"], 100, 10));
    assert!(none.well_formed(&result(1, 10)));
    assert!(none.well_formed(&result(3, 10)));
}

#[test]
fn wide_tokens_go_two_to_a_line() {
    let lc = LineClamp::new(props(&["我有一个梦想"; 5], 200, 100));
    let (layout, rounds) = carry(&lc, &by_length);
    let result = done(layout);
    // Each token is 84 wide at 14 and 98 with its space.
    assert_eq!(result.html, vec![
        span("我有一个梦想 我有一个梦想"),
        span("我有一个梦想 我有一个梦想"),
        span("我有一个梦想")
    ]);
    assert_eq!(result.font_size, 14);
    assert_eq!(rounds, 1);

    let clipped = LineClamp::new(props(&["我有一个梦想"; 5], 200, 30));
    let (layout, rounds) = carry(&clipped, &by_length);
    let result = done(layout);
    assert_eq!(result.html, vec![span("我有一个梦想 我有一个梦想"), span("我有一个梦想...")]);
    assert_eq!(rounds, 2);
}

#[test]
fn space_is_measured_by_the_two_reference_texts() {
    // Only the space has a width: every other character measures nothing.
    let spaces = |text: &str, font_size: i32| {
        Some(text.chars().filter(|c| *c == ' ').count() as i32 * font_size)
    };
    let lc = LineClamp::new(props(&["ab", "cd", "ef"], 100, 100));
    let layout = lc.start();
    let (texts, font_size) = lc.wanted(&layout).unwrap();
    let measured: Vec<i32> = texts.iter().map(|t| spaces(t, font_size).unwrap()).collect();
    assert_eq!(measured, vec![0, 0, 0, 14, 0]);
    match lc.get_word_widths(font_size, vec![], &measured) {
        line_clamp::WordFit::Settled(found) => assert_eq!(found.widths, vec![14, 14, 0]),
        other => panic!("the trial did not settle: {:?}", other),
    }

    // Only the digit has a width: it is in both reference texts and cancels.
    let digits = |text: &str, font_size: i32| {
        Some(text.chars().filter(|c| c.is_ascii_digit()).count() as i32 * font_size)
    };
    let measured: Vec<i32> = texts.iter().map(|t| digits(t, font_size).unwrap()).collect();
    assert_eq!(measured, vec![0, 0, 0, 14, 14]);
    match lc.get_word_widths(font_size, vec![], &measured) {
        line_clamp::WordFit::Settled(found) => assert_eq!(found.widths, vec![0, 0, 0]),
        other => panic!("the trial did not settle: {:?}", other),
    }
}
