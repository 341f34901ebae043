use lychee::{handle_key_event, Key, Message, NamedKey};

fn press(text: &str) -> Option<Message> {
    handle_key_event(&Key::Character(text.to_string()), false, false, true)
}

fn press_named(key: NamedKey) -> Option<Message> {
    handle_key_event(&Key::Named(key), false, false, true)
}

#[test]
fn navigation_keys() {
    assert_eq!(press_named(NamedKey::ArrowRight), Some(Message::Next));
    assert_eq!(press("l"), Some(Message::Next));
    assert_eq!(press("n"), Some(Message::Next));
    assert_eq!(press_named(NamedKey::ArrowLeft), Some(Message::Prev));
    assert_eq!(press("h"), Some(Message::Prev));
    assert_eq!(press("p"), Some(Message::Prev));
    assert_eq!(press("g"), Some(Message::GoToFirst));
    assert_eq!(press("G"), Some(Message::GoToLast));
}

#[test]
fn zoom_keys() {
    assert_eq!(press_named(NamedKey::ArrowUp), Some(Message::ZoomIn));
    assert_eq!(press("i"), Some(Message::ZoomIn));
    assert_eq!(press("+"), Some(Message::ZoomIn));
    assert_eq!(press("="), Some(Message::ZoomIn));
    assert_eq!(press_named(NamedKey::ArrowDown), Some(Message::ZoomOut));
    assert_eq!(press("o"), Some(Message::ZoomOut));
    assert_eq!(press("-"), Some(Message::ZoomOut));
    assert_eq!(press("0"), Some(Message::FitWindow));
    assert_eq!(press("1"), Some(Message::ActualSize));
    assert_eq!(press("r"), Some(Message::ResetView));
}

#[test]
fn slideshow_and_window_keys() {
    assert_eq!(press(" "), Some(Message::ToggleSlideshow));
    assert_eq!(press_named(NamedKey::Space), Some(Message::ToggleSlideshow));
    assert_eq!(press("t"), Some(Message::AdjustSlideshowDelay(1)));
    assert_eq!(press("T"), Some(Message::AdjustSlideshowDelay(-1)));
    assert_eq!(press("f"), Some(Message::ToggleFullscreen));
    assert_eq!(press_named(NamedKey::F11), Some(Message::ToggleFullscreen));
    assert_eq!(press("q"), Some(Message::Close));
    assert_eq!(press_named(NamedKey::Escape), Some(Message::Close));
}

#[test]
fn unbound_keys_do_nothing() {
    assert_eq!(press("x"), None);
    assert_eq!(press("qq"), None);
    assert_eq!(press(""), None);
    assert_eq!(press_named(NamedKey::Other), None);
    assert_eq!(handle_key_event(&Key::Unidentified, false, false, true), None);
}

#[test]
fn modifiers_silence_keys() {
    assert_eq!(handle_key_event(&Key::Character("q".to_string()), true, false, false), None);
    assert_eq!(handle_key_event(&Key::Character("R".to_string()), false, true, false), None);
    assert_eq!(handle_key_event(&Key::Named(NamedKey::ArrowRight), false, true, false), None);
    assert_eq!(handle_key_event(&Key::Named(NamedKey::Space), true, false, false), None);
}

#[test]
fn shift_bindings() {
    let shifted = |key: Key| handle_key_event(&key, false, true, true);
    assert_eq!(shifted(Key::Character("R".to_string())), Some(Message::RotateCCW));
    assert_eq!(shifted(Key::Character("F".to_string())), Some(Message::FlipVertical));
    assert_eq!(shifted(Key::Character("0".to_string())), Some(Message::ResetTransform));
    assert_eq!(shifted(Key::Named(NamedKey::ArrowRight)), Some(Message::Pan(50, 0)));
    assert_eq!(shifted(Key::Named(NamedKey::ArrowLeft)), Some(Message::Pan(-50, 0)));
    assert_eq!(shifted(Key::Named(NamedKey::ArrowUp)), Some(Message::Pan(0, -50)));
    assert_eq!(shifted(Key::Named(NamedKey::ArrowDown)), Some(Message::Pan(0, 50)));
    // without a shift binding the plain binding applies
    assert_eq!(shifted(Key::Character("G".to_string())), Some(Message::GoToLast));
    assert_eq!(shifted(Key::Character("T".to_string())), Some(Message::AdjustSlideshowDelay(-1)));
    assert_eq!(shifted(Key::Character("+".to_string())), Some(Message::ZoomIn));
    assert_eq!(shifted(Key::Named(NamedKey::Space)), Some(Message::ToggleSlideshow));
    assert_eq!(shifted(Key::Named(NamedKey::Escape)), Some(Message::Close));
}
