//! The launch agent that starts the tray with the login session on macOS.

use vstd::prelude::*;

verus! {

/// The property list up to the label.
pub open spec fn plist_head() -> Seq<char> {
    "<?xml version=\\\"1.0\\\" encoding=\\\"UTF-8\\\"?>\n<!DOCTYPE plist PUBLIC \\\"-//Apple//DTD PLIST 1.0//EN\\\" \\\"http://www.apple.com/DTDs/PropertyList-1.0.dtd\\\">\n<plist version=\\\"1.0\\\">\n<dict>\n  <key>Label</key><string>"@
}

/// The property list between the label and the program.
pub open spec fn plist_middle() -> Seq<char> {
    "</string>\n  <key>ProgramArguments</key>\n  <array>\n    <string>"@
}

/// The property list after the program.
pub open spec fn plist_tail() -> Seq<char> {
    "</string>\n  </array>\n  <key>RunAtLoad</key><true/>\n  <key>ProcessType</key><string>Interactive</string>\n  <key>StandardOutPath</key><string>/tmp/monitortray.out</string>\n  <key>StandardErrorPath</key><string>/tmp/monitortray.err</string>\n</dict>\n</plist>\n"@
}

/// The property list of the launch agent `label` that runs the program
/// `exe` at login, with its output in `/tmp`. Label and program stand in it
/// as they are given.
pub open spec fn plist_text(exe: Seq<char>, label: Seq<char>) -> Seq<char> {
    plist_head() + label + plist_middle() + exe + plist_tail()
}

/// Writes the property list of the launch agent.
pub fn launch_agent_plist(exe: &str, label: &str) -> (r: String)
    ensures
        r@ == plist_text(exe@, label@),
{
    let mut r = String::from_str(
        "<?xml version=\\\"1.0\\\" encoding=\\\"UTF-8\\\"?>\n<!DOCTYPE plist PUBLIC \\\"-//Apple//DTD PLIST 1.0//EN\\\" \\\"http://www.apple.com/DTDs/PropertyList-1.0.dtd\\\">\n<plist version=\\\"1.0\\\">\n<dict>\n  <key>Label</key><string>",
    );
    r.append(label);
    r.append("</string>\n  <key>ProgramArguments</key>\n  <array>\n    <string>");
    r.append(exe);
    r.append(
        "</string>\n  </array>\n  <key>RunAtLoad</key><true/>\n  <key>ProcessType</key><string>Interactive</string>\n  <key>StandardOutPath</key><string>/tmp/monitortray.out</string>\n  <key>StandardErrorPath</key><string>/tmp/monitortray.err</string>\n</dict>\n</plist>\n",
    );
    r
}

} // verus!
