use katana::colorful::{Color, Colored, Colorful, Style};
use katana::logger::{LogLevel, Logger};

/// With colors off, the text passes through bare.
#[test]
fn test_to_text_plain() {
    let c = Colorful::new("hello").foreground(Color::Red).style(Style::Bold);
    assert_eq!(c.to_text(false), "hello");
}

/// With colors on, the chosen escapes wrap the text and a reset follows.
#[test]
fn test_to_text_colored() {
    let c = Colorful::new("hello").foreground(Color::Red);
    assert_eq!(c.to_text(true), "\x1b[31mhello\x1b[0m");
    let c = Colorful::new("x").background(Color::Blue).style(Style::Bold);
    assert_eq!(c.to_text(true), "\x1b[1m\x1b[44mx\x1b[0m");
    assert_eq!(Colorful::new("bare").to_text(true), "bare\x1b[0m");
}

/// The ANSI code tables.
#[test]
fn test_ansi_codes() {
    assert_eq!(Colorful::get_ansi_color(Color::Red, false), "\x1b[31m");
    assert_eq!(Colorful::get_ansi_color(Color::Red, true), "\x1b[41m");
    assert_eq!(Colorful::get_ansi_color(Color::BrightCyan, false), "\x1b[96m");
    assert_eq!(Colorful::get_ansi_color(Color::Default, true), "\x1b[0m");
    assert_eq!(Colorful::get_ansi_style(Style::Bold), "\x1b[1m");
    assert_eq!(Colorful::get_ansi_style(Style::Reverse), "\x1b[7m");
}

/// The shorthand trait builds the same values as the explicit calls.
#[test]
fn test_colored_shorthands() {
    assert_eq!(
        "warn".yellow().style(Style::Bold).to_text(true),
        "\x1b[1m\x1b[33mwarn\x1b[0m"
    );
    assert_eq!(
        "note".cyan().style(Style::Dim).to_text(true),
        "\x1b[2m\x1b[36mnote\x1b[0m"
    );
    assert_eq!("ok".green().to_text(true), "\x1b[32mok\x1b[0m");
    assert_eq!("b".blue_background().to_text(true), "\x1b[44mb\x1b[0m");
    assert_eq!("u".underline().to_text(true), "\x1b[4mu\x1b[0m");
}

/// The colored level names used by the terminal log functions.
#[test]
fn test_colorful_log_level() {
    assert_eq!(Logger::colorful_log_level(LogLevel::INFO), "\x1b[32mINFO\x1b[0m");
    assert_eq!(Logger::colorful_log_level(LogLevel::DEBUG), "\x1b[2m\x1b[36mDEBUG\x1b[0m");
    assert_eq!(Logger::colorful_log_level(LogLevel::WARN), "\x1b[1m\x1b[33mWARN\x1b[0m");
    assert_eq!(Logger::colorful_log_level(LogLevel::ERROR), "\x1b[1m\x1b[31mERROR\x1b[0m");
}

/// Levels order by gravity; names round-trip.
#[test]
fn test_log_levels() {
    assert!(LogLevel::ERROR.should_log(&LogLevel::DEBUG));
    assert!(LogLevel::INFO.should_log(&LogLevel::INFO));
    assert!(!LogLevel::DEBUG.should_log(&LogLevel::INFO));
    assert_eq!(LogLevel::from_str("WARN"), Some(LogLevel::WARN));
    assert_eq!(LogLevel::from_str("warn"), None);
    assert_eq!(LogLevel::WARN.as_str(), "WARN");
}
