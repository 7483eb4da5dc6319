use raw::buffer::text::{Text, TextBufferContainer};
use raw::buffer::Buffered;

// The host reads files from disk; these tests hand the container the
// same names with their text already read.
const BANNER: &str = " ____ \n|  _ \\ \n| | \\ \\\n";
const ROW_RS: &str = "pub struct Row {\n    source: String,\n}\n";

#[test]
fn buffer_test_test_empty_default() {
    let container = TextBufferContainer::default();
    assert_eq!(container.is_empty(), true)
}

#[test]
fn buffer_test_test_empty_add() {
    let mut container = TextBufferContainer::default();
    let test_1 = Text::from_text("qwe", "");

    container.add(test_1);

    assert_eq!(container.is_empty(), true)
}

#[test]
fn buffer_test_test_empty_add_text() {
    let mut container = TextBufferContainer::default();
    let test_1 = Text::from_text("./src/banner", BANNER);
    container.add(test_1);

    assert_eq!(container.is_empty(), false)
}

#[test]
fn buffer_test_test_remove_and_add_and_size() {
    let mut container = TextBufferContainer::default();
    container.add(Text::from_text("./src/banner", BANNER));
    container.add(Text::from_text("./src/row.rs", ROW_RS));

    assert_eq!(container.size(), 2);

    assert_eq!(container.current().unwrap().name(), "./src/banner");
    container.remove_current();

    assert_eq!(container.current().unwrap().name(), "./src/row.rs");
    container.remove_current();

    assert_eq!(container.is_empty(), true);
    assert_eq!(container.size(), 0);
}

#[test]
fn buffer_test_test_move() {
    let mut container = TextBufferContainer::default();
    container.add(Text::from_text("./src/banner", BANNER));
    container.add(Text::from_text("./src/row.rs", ROW_RS));

    container.prev();

    assert_eq!(container.current().unwrap().name(), "./src/row.rs");
    assert_eq!(container.name(), "./src/row.rs");
    container.next();
    assert_eq!(container.current().unwrap().name(), "./src/banner");
    assert_eq!(container.name(), "./src/banner");
    container.next();
    assert_eq!(container.current().unwrap().name(), "./src/row.rs");
    assert_eq!(container.name(), "./src/row.rs");

    container.reset();
    assert_eq!(container.current().unwrap().name(), "./src/banner");

    container.next();
    assert_eq!(container.current().unwrap().name(), "./src/row.rs");
    container.prev();
    assert_eq!(container.current().unwrap().name(), "./src/banner");
}

#[test]
fn buffer_test_load_and_rows() {
    let mut container = TextBufferContainer::default();
    let texts = vec![
        Text::from_text("a.rs", "fn main() {}\n"),
        Text::from_text("b.txt", "hello\nworld"),
    ];
    container.load(texts);
    assert_eq!(container.size(), 2);
    assert_eq!(container.is_empty(), false);
    let b = container.get(1).unwrap();
    assert_eq!(b.len(), 2);
    assert_eq!(b.row(0).unwrap().len(), 5);
    assert!(b.row(2).is_none());
    assert_eq!(b.filetype().name(), "normal");
    assert_eq!(container.get(0).unwrap().filetype().name(), "Rust");
}

#[test]
fn text_buffer_basics() {
    let buffer = raw::buffer::text::TextBuffer::from_text("./src/banner", BANNER);
    assert_eq!(buffer.name(), "./src/banner");
    assert_eq!(buffer.is_empty(), false);
    assert_eq!(buffer.len(), 3);
    assert_eq!(buffer.row(0).unwrap().to_string(), " ____ ");
    assert!(buffer.row(3).is_none());

    let nothing = raw::buffer::text::TextBuffer::from_text("qwe", "");
    assert_eq!(nothing.is_empty(), true);
}
