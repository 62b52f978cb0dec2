use dictatord::config::Config;
use dictatord::output::{prepare_text, typing_delay_micros};

#[test]
fn capitalizes_and_adds_space() {
    let c = Config::default();
    assert_eq!(prepare_text("hello world", &c.output), "Hello world ");
    assert_eq!(prepare_text("Hello ", &c.output), "Hello ");
    assert_eq!(prepare_text("élan", &c.output), "élan ");
    assert_eq!(prepare_text("1 two", &c.output), "1 two ");
    assert_eq!(prepare_text("", &c.output), "");
}

#[test]
fn options_off() {
    let mut c = Config::default();
    c.output.capitalize = false;
    c.output.add_trailing_space = false;
    assert_eq!(prepare_text("hello", &c.output), "hello");
    c.output.capitalize = true;
    assert_eq!(prepare_text("z", &c.output), "Z");
}

#[test]
fn delays() {
    assert_eq!(typing_delay_micros(5), 5000);
    assert_eq!(typing_delay_micros(0), 0);
    assert_eq!(typing_delay_micros(4_294_968), 704);
}
