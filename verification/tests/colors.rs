use rum::colors::{colorize, Color, MaybeColorize};

#[test]
fn text_for_no_terminal_is_left_as_it_is() {
    assert_eq!(colorize("hello", Color::Green, false), "hello");
    assert_eq!(colorize("hello", Color::Red, false), "hello");
    assert_eq!(colorize("hello", Color::Purple, false), "hello");
    assert_eq!("hello".green(false), "hello");
    assert_eq!("hello".red(false), "hello");
    assert_eq!("hello".purple(false), "hello");
    assert_eq!("hello".to_string().green(false), "hello");
}

#[test]
fn text_for_a_terminal_still_holds_the_text() {
    // Whether colors are written is for the environment to say.
    assert!(colorize("hello", Color::Green, true).contains("hello"));
    assert!("hello".red(true).contains("hello"));
    assert!("hello".to_string().purple(true).contains("hello"));
}
