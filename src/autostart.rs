//! The login item that starts the app: the launch agent's property list.
use vstd::prelude::*;

verus! {

/// The text of the launch agent's property list up to the program's path.
pub open spec fn plist_head() -> Seq<char> {
    "<?xml version=\"1.0\" encoding=\"UTF-8\"?>\n<!DOCTYPE plist PUBLIC \"-//Apple//DTD PLIST 1.0//EN\" \"http://www.apple.com/DTDs/PropertyList-1.0.dtd\">\n<plist version=\"1.0\">\n<dict>\n    <key>Label</key>\n    <string>com.todo-tray.app</string>\n    <key>ProgramArguments</key>\n    <array>\n        <string>"@
}

/// The text of the launch agent's property list after the program's path.
pub open spec fn plist_tail() -> Seq<char> {
    "</string>\n    </array>\n    <key>RunAtLoad</key>\n    <true/>\n</dict>\n</plist>\n"@
}

/// The launch agent's property list: run the program at `executable` at login.
pub fn generate_plist_content(executable: &str) -> (r: String)
    ensures
        r@ == plist_head() + executable@ + plist_tail(),
{
    let mut r = "<?xml version=\"1.0\" encoding=\"UTF-8\"?>\n<!DOCTYPE plist PUBLIC \"-//Apple//DTD PLIST 1.0//EN\" \"http://www.apple.com/DTDs/PropertyList-1.0.dtd\">\n<plist version=\"1.0\">\n<dict>\n    <key>Label</key>\n    <string>com.todo-tray.app</string>\n    <key>ProgramArguments</key>\n    <array>\n        <string>".to_string();
    r.append(executable);
    r.append("</string>\n    </array>\n    <key>RunAtLoad</key>\n    <true/>\n</dict>\n</plist>\n");
    r
}

} // verus!
