use color_logger::color::Color;
use color_logger::logger::CEILING;
use color_logger::{AlreadyRegisteredError, ColorLogger, InitStep, Level};

const LEVELS: [Level; 5] = [
    Level::Error,
    Level::Warn,
    Level::Info,
    Level::Debug,
    Level::Trace,
];

#[test]
fn change_color() {
    let color = Color::rgb([255, 0, 255]);
    let mut logger = ColorLogger::new();
    logger.change_color(Level::Info, color);

    let info_color = logger.find_color(Level::Info);
    assert_eq!(color, info_color);

    logger.change_color(Level::Info, Color::Default);
}

#[test]
fn change_level() {
    let mut logger = ColorLogger::new();
    logger.set_level(Level::Debug);

    assert_eq!(Level::Debug, logger.get_level());
}

#[test]
fn new_logger_has_the_default_colors() {
    let logger = ColorLogger::new();
    assert_eq!(logger.find_color(Level::Error), Color::rgb([255, 0, 0]));
    assert_eq!(logger.find_color(Level::Error), Color::red());
    assert_eq!(logger.find_color(Level::Warn), Color::rgb([255, 255, 0]));
    assert_eq!(logger.find_color(Level::Info), Color::Default);
    assert_eq!(logger.find_color(Level::Debug), Color::Default);
    assert_eq!(logger.find_color(Level::Trace), Color::Default);
}

#[test]
fn new_logger_has_threshold_info_and_is_unregistered() {
    let logger = ColorLogger::new();
    assert_eq!(logger.get_level(), Level::Info);
    assert_eq!(logger.begin_initialize(), InitStep::Register);
}

#[test]
fn change_color_sets_one_level_and_leaves_the_others() {
    for changed in LEVELS {
        let mut logger = ColorLogger::new();
        let before: Vec<Color> = LEVELS.iter().map(|l| logger.find_color(*l)).collect();
        let color = Color::rgb([1, 2, 3]);
        logger.change_color(changed, color);
        for (i, level) in LEVELS.iter().enumerate() {
            if *level == changed {
                assert_eq!(logger.find_color(*level), color);
            } else {
                assert_eq!(logger.find_color(*level), before[i]);
            }
        }
        assert_eq!(logger.get_level(), Level::Info);
    }
}

#[test]
fn change_color_overwrites_an_earlier_change() {
    let mut logger = ColorLogger::new();
    logger.change_color(Level::Warn, Color::blue());
    logger.change_color(Level::Warn, Color::green());
    assert_eq!(logger.find_color(Level::Warn), Color::green());
    logger.change_color(Level::Warn, Color::Default);
    assert_eq!(logger.find_color(Level::Warn), Color::Default);
    assert_eq!(logger.find_color(Level::Error), Color::red());
}

#[test]
fn set_level_then_get_level_for_every_level() {
    for level in LEVELS {
        let mut logger = ColorLogger::new();
        logger.set_level(level);
        assert_eq!(logger.get_level(), level);
    }
}

#[test]
fn set_level_leaves_the_colors() {
    let mut logger = ColorLogger::new();
    logger.change_color(Level::Debug, Color::white());
    logger.set_level(Level::Trace);
    assert_eq!(logger.find_color(Level::Debug), Color::white());
    assert_eq!(logger.find_color(Level::Error), Color::red());
    assert_eq!(logger.find_color(Level::Trace), Color::Default);
}

#[test]
fn ceiling_is_info() {
    assert_eq!(CEILING, Level::Info);
}

#[test]
fn enabled_admits_up_to_info() {
    let logger = ColorLogger::new();
    assert!(logger.enabled(Level::Error));
    assert!(logger.enabled(Level::Warn));
    assert!(logger.enabled(Level::Info));
    assert!(!logger.enabled(Level::Debug));
    assert!(!logger.enabled(Level::Trace));
}

#[test]
fn the_ceiling_decides_admission_and_the_threshold_does_not() {
    let mut logger = ColorLogger::new();
    logger.set_level(Level::Trace);
    assert!(!logger.enabled(Level::Trace));
    assert!(!logger.enabled(Level::Debug));
    assert_eq!(logger.log(Level::Trace, "quiet"), None);

    logger.set_level(Level::Error);
    assert!(logger.enabled(Level::Info));
    assert!(logger.enabled(Level::Warn));
    assert_eq!(
        logger.log(Level::Info, "loud"),
        Some(String::from("\x1b[0mloud\x1b[0m"))
    );
}

#[test]
fn log_renders_an_info_record_in_the_color_set_for_info() {
    let mut logger = ColorLogger::new();
    logger.change_color(Level::Info, Color::rgb([255, 0, 255]));
    let line = logger.log(Level::Info, "hi");
    assert_eq!(line, Some(String::from("\x1b[38;2;255;0;255mhi\x1b[0m")));
    let written = format!("{}\n", line.unwrap());
    assert_eq!(written, "\x1b[38;2;255;0;255mhi\x1b[0m\n");
}

#[test]
fn log_drops_a_trace_record() {
    let mut logger = ColorLogger::new();
    assert_eq!(logger.log(Level::Trace, "hi"), None);
    logger.change_color(Level::Trace, Color::red());
    assert_eq!(logger.log(Level::Trace, "hi"), None);
    assert_eq!(logger.log(Level::Debug, "hi"), None);
}

#[test]
fn log_uses_the_default_colors() {
    let logger = ColorLogger::new();
    assert_eq!(
        logger.log(Level::Error, "boom"),
        Some(String::from("\x1b[38;2;255;0;0mboom\x1b[0m"))
    );
    assert_eq!(
        logger.log(Level::Warn, "careful"),
        Some(String::from("\x1b[38;2;255;255;0mcareful\x1b[0m"))
    );
    assert_eq!(
        logger.log(Level::Info, "fyi"),
        Some(String::from("\x1b[0mfyi\x1b[0m"))
    );
}

#[test]
fn log_keeps_the_message_as_it_is() {
    let logger = ColorLogger::new();
    assert_eq!(
        logger.log(Level::Info, ""),
        Some(String::from("\x1b[0m\x1b[0m"))
    );
    assert_eq!(
        logger.log(Level::Error, "caf\u{e9} \u{1F980} {} \x1b[0m"),
        Some(String::from(
            "\x1b[38;2;255;0;0mcaf\u{e9} \u{1F980} {} \x1b[0m\x1b[0m"
        ))
    );
    assert_eq!(
        logger.log(Level::Warn, "two\nlines"),
        Some(String::from("\x1b[38;2;255;255;0mtwo\nlines\x1b[0m"))
    );
}

#[test]
fn log_follows_a_later_change_of_color() {
    let mut logger = ColorLogger::new();
    assert_eq!(
        logger.log(Level::Error, "x"),
        Some(String::from("\x1b[38;2;255;0;0mx\x1b[0m"))
    );
    logger.change_color(Level::Error, Color::rgb([9, 80, 100]));
    assert_eq!(
        logger.log(Level::Error, "x"),
        Some(String::from("\x1b[38;2;9;80;100mx\x1b[0m"))
    );
}

#[test]
fn flush_changes_nothing() {
    let mut logger = ColorLogger::new();
    logger.change_color(Level::Info, Color::blue());
    logger.set_level(Level::Warn);
    logger.flush();
    assert_eq!(logger.find_color(Level::Info), Color::blue());
    assert_eq!(logger.get_level(), Level::Warn);
}

#[test]
fn updates_to_distinct_levels_all_apply_in_any_order() {
    let updates = [
        (Level::Error, Color::rgb([1, 1, 1])),
        (Level::Info, Color::rgb([2, 2, 2])),
        (Level::Trace, Color::rgb([3, 3, 3])),
    ];
    let orders: [[usize; 3]; 6] = [
        [0, 1, 2],
        [0, 2, 1],
        [1, 0, 2],
        [1, 2, 0],
        [2, 0, 1],
        [2, 1, 0],
    ];
    for order in orders {
        let mut logger = ColorLogger::new();
        for i in order {
            logger.change_color(updates[i].0, updates[i].1);
        }
        assert_eq!(logger.find_color(Level::Error), Color::rgb([1, 1, 1]));
        assert_eq!(logger.find_color(Level::Info), Color::rgb([2, 2, 2]));
        assert_eq!(logger.find_color(Level::Trace), Color::rgb([3, 3, 3]));
        assert_eq!(logger.find_color(Level::Warn), Color::rgb([255, 255, 0]));
        assert_eq!(logger.find_color(Level::Debug), Color::Default);
    }
}

#[test]
fn the_error_says_what_happened() {
    assert_eq!(
        AlreadyRegisteredError.message(),
        "a logger was already registered with the logging facade"
    );
}
