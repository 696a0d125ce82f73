use revline::io::{read, IoBounds, IoMode};

#[test]
fn new_keeps_both_streams() {
    let bounds = IoBounds::new(String::from("out"), String::from("in"));
    assert_eq!(bounds.stdout, "out");
    assert_eq!(bounds.stdin, "in");
}

#[test]
fn write_appends() {
    let mut sink = String::new();
    revline::io::write(&mut sink, "abc");
    assert_eq!(sink, "abc");
    revline::io::write(&mut sink, "");
    assert_eq!(sink, "abc");
    revline::io::write(&mut sink, "dé\n");
    assert_eq!(sink, "abcdé\n");
}

#[test]
fn read_drains_the_source() {
    let mut source = String::from("abc\ndef\n");
    let mut buf = String::new();
    read(&mut source, &mut buf);
    assert_eq!(buf, "abc\ndef\n");
    assert_eq!(source, "");
    read(&mut source, &mut buf);
    assert_eq!(buf, "abc\ndef\n");
}

#[test]
fn read_goes_after_what_the_buffer_holds() {
    let mut source = String::from("tail");
    let mut buf = String::from("head ");
    read(&mut source, &mut buf);
    assert_eq!(buf, "head tail");
}

#[test]
fn pipe_appends_one_terminator() {
    let mut bounds = IoBounds::new(String::new(), String::from("abc\ndef\n"));
    IoMode::feed(IoMode::UnixPipe, &mut bounds);
    assert_eq!(bounds.stdout, "cba\nfed\n");
    assert_eq!(bounds.stdin, "");
}

#[test]
fn pipe_with_empty_input_writes_a_terminator() {
    let mut bounds = IoBounds::new(String::new(), String::new());
    IoMode::feed(IoMode::UnixPipe, &mut bounds);
    assert_eq!(bounds.stdout, "\n");
}

#[test]
fn pipe_drops_unterminated_last_line() {
    let mut bounds = IoBounds::new(String::new(), String::from("abc\ndef"));
    IoMode::feed(IoMode::UnixPipe, &mut bounds);
    assert_eq!(bounds.stdout, "cba\n");
}

#[test]
fn file_appends_no_terminator() {
    let mut bounds = IoBounds::new(String::new(), String::from("unread"));
    IoMode::feed(IoMode::FileStream(String::from("abc\ndef\n")), &mut bounds);
    assert_eq!(bounds.stdout, "cba\nfed");
    assert_eq!(bounds.stdin, "unread");
}

#[test]
fn file_without_final_terminator() {
    let mut bounds = IoBounds::new(String::new(), String::new());
    IoMode::feed(IoMode::FileStream(String::from("abc\ndef")), &mut bounds);
    assert_eq!(bounds.stdout, "cba");
}

#[test]
fn passes_share_one_output() {
    let mut bounds = IoBounds::new(String::from(">"), String::from("in\n"));
    IoMode::feed(IoMode::FileStream(String::from("ab\n")), &mut bounds);
    IoMode::feed(IoMode::FileStream(String::from("cd\nef\n")), &mut bounds);
    IoMode::feed(IoMode::UnixPipe, &mut bounds);
    assert_eq!(bounds.stdout, ">badc\nfeni\n");
    assert_eq!(bounds.stdin, "");
}
