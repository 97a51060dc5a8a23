use cli_utils::colors::{blue, bold, green, red, reset, Color, ColorString};

#[test]
fn red_wraps_in_code_31() {
    assert_eq!(red("Red"), "\x1b[31mRed\x1b[0m");
    assert_eq!(red("Red"), format!("{}{}{}", "\x1B[31m", "Red", "\x1B[0m"));
}

#[test]
fn green_wraps_in_code_32() {
    assert_eq!(green("Green"), "\x1b[32mGreen\x1b[0m");
}

#[test]
fn blue_wraps_in_code_34() {
    assert_eq!(blue("Blue"), "\x1b[34mBlue\x1b[0m");
}

#[test]
fn bold_wraps_in_code_1() {
    assert_eq!(bold("Bold"), "\x1b[1mBold\x1b[0m");
}

#[test]
fn reset_has_the_reset_code_on_both_sides() {
    assert_eq!(reset("plain"), "\x1b[0mplain\x1b[0m");
}

#[test]
fn exact_bytes_of_each_decoration() {
    assert_eq!(red("a").as_bytes(), &[0x1b, b'[', b'3', b'1', b'm', b'a', 0x1b, b'[', b'0', b'm']);
    assert_eq!(green("a").as_bytes(), &[0x1b, b'[', b'3', b'2', b'm', b'a', 0x1b, b'[', b'0', b'm']);
    assert_eq!(blue("a").as_bytes(), &[0x1b, b'[', b'3', b'4', b'm', b'a', 0x1b, b'[', b'0', b'm']);
    assert_eq!(bold("a").as_bytes(), &[0x1b, b'[', b'1', b'm', b'a', 0x1b, b'[', b'0', b'm']);
    assert_eq!(reset("a").as_bytes(), &[0x1b, b'[', b'0', b'm', b'a', 0x1b, b'[', b'0', b'm']);
}

#[test]
fn empty_text_is_decorated_too() {
    assert_eq!(red(""), "\x1b[31m\x1b[0m");
    assert_eq!(green(""), "\x1b[32m\x1b[0m");
    assert_eq!(blue(""), "\x1b[34m\x1b[0m");
    assert_eq!(bold(""), "\x1b[1m\x1b[0m");
    assert_eq!(reset(""), "\x1b[0m\x1b[0m");
}

#[test]
fn text_is_kept_as_it_is() {
    assert_eq!(red("  two  words \n"), "\x1b[31m  two  words \n\x1b[0m");
    assert_eq!(blue("\u{8d8a}\u{1f600}\u{e9}"), "\x1b[34m\u{8d8a}\u{1f600}\u{e9}\x1b[0m");
    assert_eq!(bold("\u{0}\u{7}\t"), "\x1b[1m\u{0}\u{7}\t\x1b[0m");
    assert_eq!(green("\x1b[0m"), "\x1b[32m\x1b[0m\x1b[0m");
}

#[test]
fn red_of_red_is_nested() {
    let twice = red(&red("T"));
    assert_eq!(twice, "\x1b[31m\x1b[31mT\x1b[0m\x1b[0m");
    assert_ne!(twice, red("T"));
}

#[test]
fn decorations_nest_in_the_order_applied() {
    assert_eq!(bold(&red("x")), "\x1b[1m\x1b[31mx\x1b[0m\x1b[0m");
    assert_eq!(red(&bold("x")), "\x1b[31m\x1b[1mx\x1b[0m\x1b[0m");
    assert_eq!(reset(&reset("x")), "\x1b[0m\x1b[0mx\x1b[0m\x1b[0m");
}

#[test]
fn decoration_adds_its_two_sequences() {
    assert_eq!(red("four").len(), 4 + 5 + 4);
    assert_eq!(bold("four").len(), 4 + 4 + 4);
    assert_eq!(&blue("inside")[5..11], "inside");
}

#[test]
fn calls_do_not_touch_each_other() {
    let first = "first";
    let second = "second";
    let a = red(first);
    let b = green(second);
    let c = red(second);
    let d = red(first);
    assert_eq!(a, "\x1b[31mfirst\x1b[0m");
    assert_eq!(b, "\x1b[32msecond\x1b[0m");
    assert_eq!(c, "\x1b[31msecond\x1b[0m");
    assert_eq!(a, d);
    assert_ne!(a, c);
    assert_eq!(first, "first");
    assert_eq!(second, "second");
}

#[test]
fn new_color_string_has_no_decoration() {
    let s = ColorString::new(Color::Green, String::from("leaf"));
    assert_eq!(s.color, Color::Green);
    assert_eq!(s.string, "leaf");
    assert_eq!(s.colorized, "");
}

#[test]
fn paint_uses_the_color_of_the_string() {
    let mut s = ColorString {
        color: Color::Red,
        string: String::from("Red"),
        colorized: String::new(),
    };
    s.paint();
    assert_eq!(s.colorized, "\x1b[31mRed\x1b[0m");
    assert_eq!(s.string, "Red");
    assert_eq!(s.color, Color::Red);

    s.color = Color::Green;
    s.paint();
    assert_eq!(s.colorized, "\x1b[32mRed\x1b[0m");

    s.color = Color::Blue;
    s.paint();
    assert_eq!(s.colorized, "\x1b[34mRed\x1b[0m");

    s.color = Color::Bold;
    s.paint();
    assert_eq!(s.colorized, "\x1b[1mRed\x1b[0m");

    s.color = Color::Reset;
    s.paint();
    assert_eq!(s.colorized, "\x1b[0mRed\x1b[0m");
}

#[test]
fn paint_replaces_the_old_decoration() {
    let mut s = ColorString {
        color: Color::Blue,
        string: String::from("new"),
        colorized: String::from("stale"),
    };
    s.paint();
    assert_eq!(s.colorized, "\x1b[34mnew\x1b[0m");
    s.paint();
    assert_eq!(s.colorized, "\x1b[34mnew\x1b[0m");
}

#[test]
fn decoration_follows_the_text_only_when_painted() {
    let mut s = ColorString::new(Color::Bold, String::from("before"));
    s.paint();
    s.string = String::from("after");
    assert_eq!(s.colorized, "\x1b[1mbefore\x1b[0m");
    s.paint();
    assert_eq!(s.colorized, "\x1b[1mafter\x1b[0m");
}

#[test]
fn color_string_reset_ignores_the_color() {
    let mut s = ColorString::new(Color::Red, String::from("text"));
    s.paint();
    s.reset();
    assert_eq!(s.colorized, "\x1b[0mtext\x1b[0m");
    assert_eq!(s.color, Color::Red);
    assert_eq!(s.string, "text");

    let mut t = ColorString::new(Color::Bold, String::new());
    t.reset();
    assert_eq!(t.colorized, "\x1b[0m\x1b[0m");
}
