use todo_tray::autostart::generate_plist_content;

#[test]
fn test_generate_plist_content() {
    let path = std::path::PathBuf::from("/Applications/todo-tray.app/Contents/MacOS/todo-tray");
    let content = generate_plist_content(&path.display().to_string());

    assert!(content.contains("<?xml version=\"1.0\""));
    assert!(content.contains("<string>com.todo-tray.app</string>"));
    assert!(content.contains("/Applications/todo-tray.app/Contents/MacOS/todo-tray"));
    assert!(content.contains("<key>RunAtLoad</key>"));
    assert!(content.contains("<true/>"));
}
