use rusty_uxn::emulators::devices::console::Console;
use rusty_uxn::emulators::uxn::device::Device;
use rusty_uxn::emulators::uxn::UxnImpl;
use rusty_uxn::ops::OpObjectFactory;

fn ram() -> UxnImpl<OpObjectFactory> {
    UxnImpl::new(&[], OpObjectFactory {}).unwrap()
}

#[test]
fn console_test_set_get_vector() {
    let mut console = Console::new(Vec::new(), Vec::new());

    let initial_vector = console.read_vector();
    assert_eq!(initial_vector, 0);

    console.write(0x0, 0xab, &mut ram());
    console.write(0x1, 0xcd, &mut ram());

    let vector = console.read_vector();
    assert_eq!(vector, 0xabcd);

    assert_eq!(console.read(0x0), 0xab);
    assert_eq!(console.read(0x1), 0xcd);
}

#[test]
fn console_test_read() {
    let mut console = Console::new(Vec::new(), Vec::new());

    // initial read should return 0x00
    assert_eq!(console.read(0x2), 0x00);

    // provide some inputted text
    console.provide_input(0x8a);

    // read should return what was inputted
    assert_eq!(console.read(0x2), 0x8a);

    // and again
    assert_eq!(console.read(0x2), 0x8a);

    // provide some different inputted text
    console.provide_input(0x7b);
    assert_eq!(console.read(0x2), 0x7b);
}

#[test]
fn test_write_stdout_stderr() {
    let mut console = Console::new(Vec::new(), Vec::new());
    let mut machine = ram();

    console.write(0x8, 0x01, &mut machine);
    console.write(0x8, 0x02, &mut machine);
    console.write(0x9, 0x04, &mut machine);
    console.write(0x8, 0x03, &mut machine);
    console.write(0x9, 0x05, &mut machine);
    console.write(0x9, 0x06, &mut machine);

    assert_eq!(console.take_stdout(), vec![0x01, 0x02, 0x03]);
    assert_eq!(console.take_stderr(), vec![0x04, 0x05, 0x06]);
}

#[test]
fn console_write_latin1_as_utf8() {
    let mut console = Console::new(Vec::new(), Vec::new());
    console.write(0x8, 0xe9, &mut ram());
    assert_eq!(String::from_utf8(console.take_stdout()).unwrap(), "\u{e9}");
}
