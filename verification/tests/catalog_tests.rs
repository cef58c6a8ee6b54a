use screen_resolution::catalog::{DisplayReport, ModeChange, ScreenResolution};
use screen_resolution::errors::{convert_result, CGError, ModeError};
use screen_resolution::mode::{Mode, ModeRecord, RefreshRate};
use screen_resolution::order::{insert_sorted, mode_precedes, sort_modes};

fn record(handle: usize, width: u64, height: u64, hertz: u64, io_flags: u32) -> ModeRecord {
    ModeRecord {
        handle,
        width,
        height,
        pixel_width: width,
        pixel_height: height,
        refresh_rate: RefreshRate { millihertz: hertz * 1000 },
        io_flags,
        bit_depth: 32,
    }
}

fn report(id: u32, current: ModeRecord, modes: Vec<ModeRecord>) -> DisplayReport {
    DisplayReport { id, current: Some(current), modes: Some(modes) }
}

fn three_displays() -> Vec<DisplayReport> {
    vec![
        report(
            100,
            record(1, 2560, 1440, 60, 3),
            vec![
                record(0, 1920, 1080, 60, 3),
                record(1, 2560, 1440, 60, 3),
                record(2, 1280, 720, 60, 1),
                record(3, 640, 480, 60, 0),
                record(4, 1920, 1200, 60, 2),
            ],
        ),
        report(
            200,
            record(0, 1024, 768, 75, 3),
            vec![record(0, 1024, 768, 75, 3), record(1, 3840, 2160, 30, 7)],
        ),
        report(
            300,
            record(1, 800, 600, 0, 3),
            vec![record(0, 800, 480, 0, 3), record(1, 800, 600, 0, 3)],
        ),
    ]
}

fn state() -> ScreenResolution {
    ScreenResolution::new(Ok(three_displays())).unwrap()
}

fn sizes(modes: &[Mode]) -> Vec<(u8, u64, u64)> {
    modes.iter().map(|m| (m.display, m.width, m.height)).collect()
}

fn change(r: Result<ModeChange, ModeError>) -> (u32, Option<usize>, u64, u64) {
    let c = r.unwrap();
    (c.display_id, c.mode.native_handle, c.mode.width, c.mode.height)
}

#[test]
fn catalog_is_sorted_by_display_then_widest_then_tallest() {
    let state = state();
    assert_eq!(
        sizes(state.modes()),
        vec![
            (0, 2560, 1440),
            (0, 1920, 1200),
            (0, 1920, 1080),
            (0, 1280, 720),
            (1, 3840, 2160),
            (1, 1024, 768),
            (2, 800, 600),
            (2, 800, 480),
        ]
    );
}

#[test]
fn every_earlier_entry_may_stand_before_every_later_one() {
    let state = state();
    let modes = state.modes();
    for i in 0..modes.len() {
        for j in i + 1..modes.len() {
            let (a, b) = (&modes[i], &modes[j]);
            assert!(
                a.display < b.display
                    || (a.display == b.display && a.width > b.width)
                    || (a.display == b.display && a.width == b.width && a.height >= b.height)
            );
            assert!(mode_precedes(a, b));
        }
    }
}

#[test]
fn modes_neither_valid_nor_safe_are_left_out() {
    let state = state();
    assert_eq!(state.modes().len(), 8);
    assert!(state.modes().iter().all(|m| m.io_flags & 3 != 0));
    assert!(!state.modes().iter().any(|m| m.width == 640));
}

#[test]
fn catalog_entries_keep_their_handles() {
    let state = state();
    let handles: Vec<Option<usize>> = state.modes().iter().map(|m| m.native_handle).collect();
    assert_eq!(
        handles,
        vec![Some(1), Some(4), Some(0), Some(2), Some(1), Some(0), Some(1), Some(0)]
    );
}

#[test]
fn displays_and_current_modes_are_kept_by_index() {
    let state = state();
    assert_eq!(state.displays(), &vec![100, 200, 300]);
    assert_eq!(sizes(state.currents()), vec![(0, 2560, 1440), (1, 1024, 768), (2, 800, 600)]);
}

#[test]
fn no_displays_give_an_empty_catalog() {
    let state = ScreenResolution::new(Ok(vec![])).unwrap();
    assert!(state.modes().is_empty());
    assert!(state.displays().is_empty());
    assert_eq!(state.list_modes(false), "");
    assert_eq!(state.print_current_mode(true), "");
}

#[test]
fn failed_enumeration_is_reported_with_its_code() {
    let r = ScreenResolution::new(Err(1001));
    assert_eq!(r.unwrap_err(), ModeError::ActiveDisplays(CGError { error: 1001 }));
}

#[test]
fn missing_current_mode_is_reported_for_the_first_such_display() {
    let mut reports = three_displays();
    reports[1].current = None;
    reports[2].current = None;
    reports[2].modes = None;
    assert_eq!(ScreenResolution::new(Ok(reports)).unwrap_err(), ModeError::NoCurrentMode(1));
}

#[test]
fn missing_modes_are_reported_for_the_first_such_display() {
    let mut reports = three_displays();
    reports[0].modes = None;
    reports[1].current = None;
    assert_eq!(ScreenResolution::new(Ok(reports)).unwrap_err(), ModeError::NoDisplayModes(0));
}

#[test]
fn missing_current_mode_comes_before_missing_modes() {
    let mut reports = three_displays();
    reports[2].modes = None;
    reports[2].current = None;
    assert_eq!(ScreenResolution::new(Ok(reports)).unwrap_err(), ModeError::NoCurrentMode(2));
}

#[test]
fn more_displays_than_an_index_can_number() {
    let many = |n: u32| -> Vec<DisplayReport> {
        (0..n).map(|id| report(id, record(0, 800, 600, 60, 3), vec![record(0, 800, 600, 60, 3)])).collect()
    };
    assert_eq!(ScreenResolution::new(Ok(many(257))).unwrap_err(), ModeError::TooManyDisplays);
    let full = ScreenResolution::new(Ok(many(256))).unwrap();
    assert_eq!(full.modes().len(), 256);
    assert_eq!(full.modes()[255].display, 255);
}

#[test]
fn set_on_a_display_that_is_not_there() {
    let two: Vec<DisplayReport> = three_displays().into_iter().take(2).collect();
    let state = ScreenResolution::new(Ok(two)).unwrap();
    assert_eq!(
        state.set_current_mode("1920x1080x32@60", 2).unwrap_err(),
        ModeError::UnknownDisplay(2)
    );
}

#[test]
fn set_to_the_current_mode_changes_nothing() {
    let state = state();
    assert_eq!(state.set_current_mode("2560x1440x32@60", 0).unwrap_err(), ModeError::AlreadyCurrent);
    assert_eq!(state.set_current_mode("800x600x32@0", 2).unwrap_err(), ModeError::AlreadyCurrent);
}

#[test]
fn set_to_a_mode_of_the_catalog() {
    let state = state();
    assert_eq!(change(state.set_current_mode("1920x1080x32@60", 0)), (100, Some(0), 1920, 1080));
    assert_eq!(change(state.set_current_mode("3840x2160x32@30", 1)), (200, Some(1), 3840, 2160));
    assert_eq!(change(state.set_current_mode("800x480x32@0", 2)), (300, Some(0), 800, 480));
}

#[test]
fn set_to_a_mode_that_the_catalog_lacks() {
    let state = state();
    assert_eq!(state.set_current_mode("1920x1080x32@61", 0).unwrap_err(), ModeError::NoMatchingMode);
    assert_eq!(state.set_current_mode("1920x1080x16@60", 0).unwrap_err(), ModeError::NoMatchingMode);
    assert_eq!(state.set_current_mode("640x480x32@60", 0).unwrap_err(), ModeError::NoMatchingMode);
    assert_eq!(state.set_current_mode("3840x2160x32@30", 0).unwrap_err(), ModeError::NoMatchingMode);
}

#[test]
fn set_with_text_that_is_no_specifier() {
    let state = state();
    assert_eq!(
        state.set_current_mode("bogus", 0).unwrap_err(),
        ModeError::InvalidModeSpecifier("bogus".to_string())
    );
    assert_eq!(
        state.set_current_mode("bogus", 9).unwrap_err(),
        ModeError::InvalidModeSpecifier("bogus".to_string())
    );
}

#[test]
fn the_first_of_several_same_entries_is_applied() {
    let mut scaled = record(0, 1920, 1080, 60, 3);
    scaled.pixel_width = 3840;
    scaled.pixel_height = 2160;
    let reports = vec![report(
        7,
        record(9, 1280, 720, 60, 3),
        vec![scaled, record(1, 1920, 1080, 60, 3), record(2, 1280, 720, 60, 3)],
    )];
    let state = ScreenResolution::new(Ok(reports)).unwrap();
    let c = state.set_current_mode("1920x1080x32@60", 0).unwrap();
    assert_eq!(c.display_id, 7);
    assert_eq!(c.mode.native_handle, Some(0));
    assert_eq!(c.mode.pixel_width, 3840);
}

#[test]
fn resolve_takes_the_mode_itself() {
    let state = state();
    let wanted = ScreenResolution::parse_wanted_mode("1280x720x32@60", 0).unwrap();
    assert_eq!(change(state.resolve(&wanted)), (100, Some(2), 1280, 720));
    let elsewhere = Mode { display: 1, ..wanted };
    assert_eq!(state.resolve(&elsewhere).unwrap_err(), ModeError::NoMatchingMode);
    let nowhere = Mode { display: 3, ..wanted };
    assert_eq!(state.resolve(&nowhere).unwrap_err(), ModeError::UnknownDisplay(3));
    let current = Mode { display: 1, width: 1024, height: 768, ..state.currents()[1] };
    assert_eq!(state.resolve(&current).unwrap_err(), ModeError::AlreadyCurrent);
}

#[test]
fn already_current_compares_with_the_display_asked_for() {
    let state = state();
    let on_zero = ScreenResolution::parse_wanted_mode("2560x1440x32@60", 0).unwrap();
    assert!(state.is_already_current(&on_zero, 0));
    assert!(!state.is_already_current(&on_zero, 1));
    assert!(!state.is_already_current(&on_zero, 200));
    let other = ScreenResolution::parse_wanted_mode("1920x1080x32@60", 0).unwrap();
    assert!(!state.is_already_current(&other, 0));
}

#[test]
fn listing_has_a_line_for_each_mode() {
    let state = state();
    let text = state.list_modes(false);
    let lines: Vec<&str> = text.lines().collect();
    assert_eq!(lines.len(), 8);
    assert!(text.ends_with('\n'));
    assert_eq!(
        lines[0],
        "Display 0: 2560x1440x32@60 - pixel 2560x1440x32@60 -        - 16:9  "
    );
    assert_eq!(
        lines[7],
        "Display 2: 800x480x32@0    - pixel 800x480x32@0    -        - 4:3   "
    );
    for (line, mode) in lines.iter().zip(state.modes().iter()) {
        assert_eq!(*line, mode.print_mode(false));
    }
}

#[test]
fn long_listing() {
    let state = state();
    let text = state.list_modes(true);
    let first = text.lines().next().unwrap();
    assert_eq!(
        first,
        "Display 0: 2560x1440, refresh rate: 60, bitDepth: 32, flags: 0x0000003, , 16:9"
    );
}

#[test]
fn current_modes_are_listed_one_for_each_display() {
    let state = state();
    assert_eq!(
        state.print_current_mode(false),
        "Display 0: 2560x1440x32@60 - pixel 2560x1440x32@60 -        - 16:9  \n\
         Display 1: 1024x768x32@75  - pixel 1024x768x32@75  -        - 4:3   \n\
         Display 2: 800x600x32@0    - pixel 800x600x32@0    -        - 4:3   \n"
    );
}

#[test]
fn selections_are_the_lines_of_the_listing() {
    let state = state();
    let labels = state.selections(false);
    assert_eq!(labels.len(), 8);
    assert_eq!(labels.join("\n") + "\n", state.list_modes(false));
    let long = state.selections(true);
    assert_eq!(long.join("\n") + "\n", state.list_modes(true));
}

#[test]
fn a_choice_given_up_changes_nothing() {
    let state = state();
    assert!(state.set_from_list_modes(None, 0).unwrap().is_none());
    assert!(state.set_from_list_modes(None, 9).unwrap().is_none());
}

#[test]
fn a_choice_is_set_by_its_compact_form() {
    let state = state();
    let c = state.set_from_list_modes(Some(2), 0).unwrap().unwrap();
    assert_eq!((c.display_id, c.mode.native_handle, c.mode.width), (100, Some(0), 1920));
    assert_eq!(state.set_from_list_modes(Some(0), 0).unwrap_err(), ModeError::AlreadyCurrent);
    assert_eq!(state.set_from_list_modes(Some(4), 0).unwrap_err(), ModeError::NoMatchingMode);
    assert_eq!(state.set_from_list_modes(Some(4), 5).unwrap_err(), ModeError::UnknownDisplay(5));
}

#[test]
fn sorting_keeps_every_mode() {
    let modes: Vec<Mode> = vec![
        Mode::from(1, record(0, 800, 600, 60, 3)),
        Mode::from(0, record(1, 800, 600, 60, 3)),
        Mode::from(0, record(2, 1024, 768, 60, 3)),
        Mode::from(0, record(3, 1024, 800, 60, 3)),
        Mode::from(1, record(4, 800, 600, 60, 3)),
    ];
    let sorted = sort_modes(&modes);
    let handles: Vec<Option<usize>> = sorted.iter().map(|m| m.native_handle).collect();
    assert_eq!(handles, vec![Some(3), Some(2), Some(1), Some(0), Some(4)]);
}

#[test]
fn inserting_into_a_sorted_catalog() {
    let mut sorted: Vec<Mode> = Vec::new();
    insert_sorted(&mut sorted, Mode::from(0, record(0, 800, 600, 60, 3)));
    insert_sorted(&mut sorted, Mode::from(0, record(1, 1024, 768, 60, 3)));
    insert_sorted(&mut sorted, Mode::from(0, record(2, 800, 640, 60, 3)));
    assert_eq!(sizes(&sorted), vec![(0, 1024, 768), (0, 800, 640), (0, 800, 600)]);
}

#[test]
fn platform_results_are_converted() {
    assert_eq!(convert_result::<u8>(Ok(5)), Ok(5));
    assert_eq!(convert_result::<u8>(Err(-3)), Err(CGError { error: -3 }));
    assert_eq!(CGError::from(1004), CGError { error: 1004 });
}

#[test]
fn modes_that_tie_keep_the_order_they_came_in() {
    let reports = vec![report(
        1,
        record(0, 1920, 1080, 60, 3),
        vec![
            record(0, 1920, 1080, 60, 3),
            record(1, 1920, 1080, 50, 3),
            record(2, 2560, 1440, 60, 3),
            record(3, 1920, 1080, 30, 3),
            record(4, 2560, 1440, 30, 3),
        ],
    )];
    let state = ScreenResolution::new(Ok(reports)).unwrap();
    let handles: Vec<Option<usize>> = state.modes().iter().map(|m| m.native_handle).collect();
    assert_eq!(handles, vec![Some(2), Some(4), Some(0), Some(1), Some(3)]);
}

#[test]
fn error_messages() {
    assert_eq!(ModeError::NoCurrentMode(3).message(), "No current mode for display: 3");
    assert_eq!(ModeError::UnknownDisplay(255).message(), "Unable to set mode for display: 255");
    assert_eq!(
        ModeError::InvalidModeSpecifier("bogus".to_string()).message(),
        "Not a valid mode: bogus"
    );
    assert_eq!(ModeError::AlreadyCurrent.message(), "Wanted Mode is already current");
    assert_eq!(ModeError::NoDisplayModes(0).message(), "No display modes for display");
    assert_eq!(
        ModeError::ActiveDisplays(CGError { error: 1 }).message(),
        "Unable to list active displays"
    );
    assert_eq!(ModeError::PatternRejected.message(), "Could not compile regex");
    assert_eq!(ModeError::ActiveDisplays(CGError { error: 1 }).cause(), Some(CGError { error: 1 }));
    assert_eq!(ModeError::AlreadyCurrent.cause(), None);
}

#[test]
fn set_with_text_around_the_specifier() {
    let state = state();
    for text in ["1920x1080x32@60Hz", "set 1920x1080x32@60", "1920x1080x32@60.0"] {
        assert_eq!(
            state.set_current_mode(text, 0).unwrap_err(),
            ModeError::InvalidModeSpecifier(text.to_string())
        );
    }
}

#[test]
fn a_choice_with_a_fraction_of_a_hertz_does_not_read_back() {
    let mut fine = record(1, 1920, 1080, 0, 3);
    fine.refresh_rate = RefreshRate { millihertz: 59_940 };
    let reports = vec![report(1, record(0, 1280, 720, 60, 3), vec![record(0, 1280, 720, 60, 3), fine])];
    let state = ScreenResolution::new(Ok(reports)).unwrap();
    assert_eq!(state.modes()[0].for_select(), "1920x1080x32@59.94");
    assert_eq!(
        state.set_from_list_modes(Some(0), 0).unwrap_err(),
        ModeError::InvalidModeSpecifier("1920x1080x32@59.94".to_string())
    );
}
