use line_clamp::{ConfigError, LineClamp, LineClampProps};

fn request() -> LineClampProps {
    LineClampProps {
        texts: vec!["one".to_string(), "two".to_string()],
        content_width: 200,
        content_height: 100,
    }
}

#[test]
fn default_configuration() {
    let lc = LineClamp::new(request());
    assert_eq!(lc.step, 0);
    assert_eq!(lc.min_font_size, 10);
    assert_eq!(lc.max_font_size, 14);
    assert_eq!(lc.line_height, 14);
    assert_eq!(lc.min_width_height, 5);
    assert_eq!(lc.ellipsis, "...");
    assert_eq!(lc.line_clamp_props.texts, vec!["one", "two"]);
    assert_eq!(lc.line_clamp_props.content_width, 200);
    assert_eq!(lc.line_clamp_props.content_height, 100);
    assert_eq!(lc.validate(), None);
    assert!(!lc.is_degenerate());
}

#[test]
fn configuration_of_the_caller() {
    let lc = LineClamp::with_config(request(), 2, 8, 8, 1, -4, "~".to_string()).unwrap();
    assert_eq!(lc.step, 2);
    assert_eq!(lc.min_font_size, 8);
    assert_eq!(lc.max_font_size, 8);
    assert_eq!(lc.line_height, 1);
    assert_eq!(lc.min_width_height, -4);
    assert_eq!(lc.ellipsis, "~");
    assert_eq!(lc.line_clamp_props.texts, vec!["one", "two"]);
    assert_eq!(lc.validate(), None);
}

#[test]
fn font_sizes_out_of_order_are_refused() {
    let r = LineClamp::with_config(request(), 1, 15, 14, 14, 5, "...".to_string());
    assert_eq!(r.err(), Some(ConfigError::FontSizeRange));
    let r = LineClamp::with_config(request(), -1, 15, 14, 0, 5, "...".to_string());
    assert_eq!(r.err(), Some(ConfigError::FontSizeRange));
}

#[test]
fn line_height_not_positive_is_refused() {
    let r = LineClamp::with_config(request(), 1, 10, 14, 0, 5, "...".to_string());
    assert_eq!(r.err(), Some(ConfigError::LineHeight));
    let r = LineClamp::with_config(request(), -1, 10, 14, -14, 5, "...".to_string());
    assert_eq!(r.err(), Some(ConfigError::LineHeight));
}

#[test]
fn negative_step_is_refused() {
    let r = LineClamp::with_config(request(), -1, 10, 14, 14, 5, "...".to_string());
    assert_eq!(r.err(), Some(ConfigError::Step));
    let r = LineClamp::with_config(request(), 0, 10, 14, 14, 5, "...".to_string());
    assert!(r.is_ok());
}

#[test]
fn validate_names_the_first_broken_rule() {
    let mut lc = LineClamp::new(request());
    lc.step = -2;
    assert_eq!(lc.validate(), Some(ConfigError::Step));
    lc.line_height = 0;
    assert_eq!(lc.validate(), Some(ConfigError::LineHeight));
    lc.min_font_size = 20;
    assert_eq!(lc.validate(), Some(ConfigError::FontSizeRange));
}

#[test]
fn config_error_messages() {
    assert_eq!(
        ConfigError::FontSizeRange.message(),
        "the smallest font size is above the largest"
    );
    assert_eq!(ConfigError::LineHeight.message(), "the line height is not positive");
    assert_eq!(ConfigError::Step.message(), "the step is negative");
}

#[test]
fn unusable_box_is_told_by_either_side() {
    let mut lc = LineClamp::new(request());
    lc.line_clamp_props.content_width = 5;
    assert!(lc.is_degenerate());
    lc.line_clamp_props.content_width = 6;
    assert!(!lc.is_degenerate());
    lc.line_clamp_props.content_height = 5;
    assert!(lc.is_degenerate());
    lc.min_width_height = 4;
    assert!(!lc.is_degenerate());
}

#[test]
fn fallback_is_the_ellipsis_alone() {
    let mut lc = LineClamp::new(request());
    let r = lc.ellipsis_result().unwrap();
    assert_eq!(r.html, vec!["<span style='display:inline-block;'>...</span>"]);
    assert_eq!(r.font_size, 10);
    lc.ellipsis = " (more) ".to_string();
    lc.min_font_size = 7;
    let r = lc.ellipsis_result().unwrap();
    assert_eq!(r.html, vec!["<span style='display:inline-block;'>(more)</span>"]);
    assert_eq!(r.font_size, 7);
}

#[test]
fn space_width_is_the_difference() {
    let lc = LineClamp::new(request());
    assert_eq!(lc.calc_space_width(60, 40), 20);
    assert_eq!(lc.calc_space_width(40, 40), 0);
    assert_eq!(lc.calc_space_width(10, 30), -20);
    assert_eq!(lc.calc_space_width(i32::MAX, i32::MIN), 4294967295);
    assert_eq!(lc.calc_space_width(i32::MIN, i32::MAX), -4294967295);
}
