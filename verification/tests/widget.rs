use three_rs::widget::{ramp_char, RenderMode, BRIGHTEST_LEVEL};

#[test]
fn the_ramp_runs_from_dark_to_bright() {
    let ramp: String = (0..=BRIGHTEST_LEVEL).map(ramp_char).collect();
    assert_eq!(ramp, " .:-=+*#%@");
}

#[test]
fn levels_past_the_brightest_are_the_brightest() {
    assert_eq!(ramp_char(10), '@');
    assert_eq!(ramp_char(usize::MAX), '@');
}

#[test]
fn render_modes_differ() {
    assert_ne!(RenderMode::Ascii, RenderMode::BackgroundColors);
    assert_eq!(RenderMode::Ascii, RenderMode::Ascii);
}
