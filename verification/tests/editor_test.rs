use raw::args::Args;
use raw::buffer::text::Text;
use raw::buffer::Buffered;
use raw::editor::{
    Message, PromptKey, PromptOutcome, PromptSession, SearchDirection, SearchKey, SearchSession,
};
use raw::position::Position;
use raw::render::message::MessageBar;

#[test]
fn message_texts() {
    assert_eq!(Message::default().text(), "");
    assert_eq!(Message::from(String::from("raw")).text(), "raw");
    assert_eq!(Message::info(String::from("saved")).text(), "INFO saved");
    assert_eq!(Message::info_raw("saved").text(), "INFO saved");
    assert_eq!(Message::warn(String::from("unsaved changes")).text(), "WARNING unsaved changes");
    assert_eq!(Message::prompt(String::from("Save as: ")).text(), "PROMPT Save as: ");
    assert_eq!(
        Message::error(String::from("open failed"), String::from("not found")).text(),
        "ERROR open failed. Cause is not found"
    );
    assert_eq!(
        Message::error_raw("write failed", String::from("disk full")).text(),
        "ERROR write failed. Cause is disk full"
    );
}

#[test]
fn search_session_state_machine() {
    let mut session = SearchSession::new(Position { x: 3, y: 7 });
    assert_eq!(session.direction, SearchDirection::Forward);

    assert!(session.on_key(SearchKey::Next));
    assert_eq!(session.direction, SearchDirection::Forward);

    assert!(!session.on_key(SearchKey::Prev));
    assert_eq!(session.direction, SearchDirection::Backward);

    assert!(!session.on_key(SearchKey::Refine));
    assert_eq!(session.direction, SearchDirection::Forward);

    assert_eq!(session.cancelled(), Position { x: 3, y: 7 });
}

#[test]
fn prompt_session_state_machine() {
    let mut prompt = PromptSession::new();
    assert!(prompt.is_empty());
    assert_eq!(prompt.on_key(PromptKey::Char('h')), PromptOutcome::Pending);
    assert_eq!(prompt.on_key(PromptKey::Char('i')), PromptOutcome::Pending);
    // Control characters are not typed into the input.
    assert_eq!(prompt.on_key(PromptKey::Char('\u{7}')), PromptOutcome::Pending);
    assert_eq!(prompt.text(), "hi");

    assert_eq!(prompt.on_key(PromptKey::Backspace), PromptOutcome::Pending);
    assert_eq!(prompt.text(), "h");
    assert_eq!(prompt.on_key(PromptKey::Other), PromptOutcome::Pending);
    assert_eq!(prompt.on_key(PromptKey::Enter), PromptOutcome::Submitted);
    assert_eq!(prompt.text(), "h");

    assert_eq!(prompt.on_key(PromptKey::Cancel), PromptOutcome::Cancelled);
    assert!(prompt.is_empty());
    // Backspace on an empty prompt stays empty.
    assert_eq!(prompt.on_key(PromptKey::Backspace), PromptOutcome::Pending);
    assert!(prompt.is_empty());
}

#[test]
fn message_bar_visibility() {
    let bar = MessageBar::new(String::from("hello"), 3000);
    assert!(bar.should_render(0));
    assert!(bar.should_render(2999));
    assert!(!bar.should_render(3000));
    assert_eq!(bar.content(), "hello");

    let silent = MessageBar::new(String::new(), 3000);
    assert!(!silent.should_render(0));
}

#[test]
fn status_lines() {
    let mut line = raw::render::status_line::StatusLine::default();
    assert_eq!(line.filename(), "");
    line.refresh(String::from("a.rs"), String::from("Rust"));
    assert_eq!(line.filename(), "a.rs");
    assert_eq!(line.filetype(), "Rust");

    let mut buffered_line = raw::buffer::statusline::StatusLine::default();
    let text = Text::from_text("b.rs", "fn f() {}\n");
    buffered_line.refresh(Some(&text));
    assert_eq!(buffered_line.filename(), "b.rs");
    assert_eq!(buffered_line.filetype(), "Rust");
    buffered_line.refresh(None);
    assert_eq!(buffered_line.filename(), "b.rs");
    assert_eq!(text.name(), "b.rs");
}

#[test]
fn args_hold_filenames() {
    let args = Args::new(vec![String::from("a.rs"), String::from("b.txt")]);
    assert_eq!(args.filenames.len(), 2);
    assert_eq!(args.filenames[0], "a.rs");
    let none = Args::default();
    assert!(none.filenames.is_empty());
}

#[test]
fn position_arithmetic() {
    let mut p = Position { x: 0, y: 0 };
    p.set(4, 2);
    p.add_x(3);
    p.add_y(1);
    assert_eq!(p, Position { x: 7, y: 3 });
    p.sub_x(9);
    p.sub_y(1);
    assert_eq!(p, Position { x: 0, y: 2 });
    p.add_x(usize::MAX);
    assert_eq!(p.x, usize::MAX);
}
