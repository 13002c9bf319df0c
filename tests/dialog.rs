use kragle::dialog::{Dialog, Status};

#[test]
fn test_status_to_string() {
    assert_eq!(Status::Unknown.to_string(), "[?]");
    assert_eq!(Status::Passed.to_string(), "[OK]");
    assert_eq!(Status::Failed.to_string(), "[FAILED]");
}

#[test]
fn test_status_colorized() {
    assert_eq!(Status::Unknown.colorized(), "[?]".to_string());
    assert_eq!(
        Status::Passed.colorized(),
        console::Style::new().green().apply_to("[OK]").to_string()
    );
    assert_eq!(
        Status::Failed.colorized(),
        console::Style::new().red().apply_to("[FAILED]").to_string()
    );
}

#[test]
fn test_first_n_chars() {
    assert_eq!(Dialog::first_n_chars("Hello, world!", 5), "Hello");
    assert_eq!(Dialog::first_n_chars("Rust", 10), "Rust");
}

#[test]
fn test_get_width() {
    let dialog = Dialog {
        msg: String::new(),
        frames: 0,
    };
    let suffix = "[OK]";
    assert_eq!(dialog.get_width(suffix), 80 - suffix.len());
}

#[test]
fn test_set_msg() {
    let mut dialog = Dialog {
        msg: String::from("Original"),
        frames: 0,
    };
    dialog.set_msg(String::from("Updated"));
    assert_eq!(dialog.msg, "Updated");
}

#[test]
fn first_n_chars_counts_characters_not_bytes() {
    assert_eq!(Dialog::first_n_chars("héllo", 2), "hé");
    assert_eq!(Dialog::first_n_chars("", 3), "");
    assert_eq!(Dialog::first_n_chars("abc", 0), "");
}

#[test]
fn warning_label() {
    assert_eq!(Status::Warning.to_string(), "[WAR]");
    let c = Status::Warning.colorized();
    assert!(c == "[WAR]" || c == "\x1b[33m[WAR]\x1b[0m");
}

#[test]
fn width_is_capped_and_saturates() {
    assert_eq!(Dialog::width_for(None, 4), 76);
    assert_eq!(Dialog::width_for(Some(120), 8), 72);
    assert_eq!(Dialog::width_for(Some(40), 8), 32);
    assert_eq!(Dialog::width_for(Some(3), 8), 0);
}

#[test]
fn new_dialog_and_spinner_frames() {
    let mut d = Dialog::new(String::from("Test message"));
    assert_eq!(d.msg, "Test message");
    assert_eq!(d.frames, 0);
    for _ in 0..9 {
        d.advance_frame();
    }
    assert_eq!(d.frames, 9);
    d.advance_frame();
    assert_eq!(d.frames, 0);
}
