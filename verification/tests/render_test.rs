use raw::document::Document;
use raw::render::switcher::DocumentSwitcher;

const BANNER: &str = " ____ \n|  _ \\ \n| | \\ \\\n";
const SRC_LISTING: &str = "mod row;\nmod document;\n";

#[test]
fn render_test_test_empty_default() {
    let container = DocumentSwitcher::default();
    assert_eq!(container.is_empty(), true)
}

#[test]
fn render_test_test_empty_add() {
    let mut container = DocumentSwitcher::default();

    container.add(Document::default());

    assert_eq!(container.is_empty(), true)
}

#[test]
fn render_test_test_empty_add_text() {
    let mut container = DocumentSwitcher::default();
    let test_1 = Document::open_text("./src/banner", BANNER);
    container.add(test_1);

    assert_eq!(container.is_empty(), false)
}

#[test]
fn render_test_test_remove_and_add_and_size() {
    let mut container = DocumentSwitcher::default();
    container.add(Document::open_text("./src/banner", BANNER));
    container.add(Document::open_text("./src/", SRC_LISTING));

    assert_eq!(container.size(), 2);

    assert_eq!(container.current().unwrap().name(), "./src/banner");
    container.remove_current();

    assert_eq!(container.current().unwrap().name(), "./src/");
    container.remove_current();

    assert_eq!(container.is_empty(), true);
    assert_eq!(container.size(), 0);
}

#[test]
fn render_test_test_move() {
    let mut container = DocumentSwitcher::default();
    container.add(Document::open_text("./src/banner", BANNER));
    container.add(Document::open_text("./src/", SRC_LISTING));

    container.prev();

    assert_eq!(container.current().unwrap().name(), "./src/");
    assert_eq!(container.name(), "./src/");
    container.next();
    assert_eq!(container.current().unwrap().name(), "./src/banner");
    assert_eq!(container.name(), "./src/banner");
    container.next();
    assert_eq!(container.current().unwrap().name(), "./src/");
    assert_eq!(container.name(), "./src/");

    container.reset();
    assert_eq!(container.current().unwrap().name(), "./src/banner");

    container.next();
    assert_eq!(container.current().unwrap().name(), "./src/");
    container.prev();
    assert_eq!(container.current().unwrap().name(), "./src/banner");
}

#[test]
fn render_test_switcher_widgets() {
    let mut container = DocumentSwitcher::default();
    container.add(Document::open_text("main.rs", "fn main() {}\n"));
    container.refresh_status();
    assert_eq!(container.status_line().filename(), "main.rs");
    assert_eq!(container.status_line().filetype(), "Rust");

    // Status line + row indicator, plus the message bar while its
    // message is still fresh.
    assert_eq!(container.get_bottom_height(0), 3);
    assert_eq!(container.get_bottom_height(10_000), 2);
    container.set_message(raw::render::message::MessageBar::new(String::new(), 5000));
    assert_eq!(container.get_bottom_height(0), 2);

    assert_eq!(container.current_doc_height(), 1);
    let (w, h) = container.current_doc_size(0);
    assert_eq!((w, h), (12, 1));
    assert_eq!(container.get_row_width_split_by_word_boundary(0), 12);
    let line = container.current_doc_row_to_line(0);
    assert_eq!(line.total_width(), 12);
}
