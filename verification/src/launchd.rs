//! The launchd user agent that runs the daemon at login: where its plist
//! lives, and what the plist says.

use vstd::prelude::*;

use crate::paths::{join_path, joined};

verus! {

/// The label of the real, user-facing install.
pub const LABEL: &'static str = "com.agentmon.agentd";

/// Where the plist for `label` lives under home directory `home`:
/// `~/Library/LaunchAgents/<label>.plist`.
pub fn plist_path(home: &str, label: &str) -> (r: String)
    ensures
        r@ == joined(joined(joined(home@, "Library"@), "LaunchAgents"@), label@ + ".plist"@),
{
    let library = join_path(home, "Library");
    let agents = join_path(library.as_str(), "LaunchAgents");
    let mut file = label.to_owned();
    file.append(".plist");
    join_path(agents.as_str(), file.as_str())
}

/// Where the daemon's logs go under home directory `home`:
/// `~/Library/Logs/agentmon`.
pub fn log_dir(home: &str) -> (r: String)
    ensures
        r@ == joined(joined(joined(home@, "Library"@), "Logs"@), "agentmon"@),
{
    let library = join_path(home, "Library");
    let logs = join_path(library.as_str(), "Logs");
    join_path(logs.as_str(), "agentmon")
}

/// The launchd plist text for `label`, running `binary_path --foreground`
/// at load, kept alive with a 5-second throttle, logging into `log_dir`.
pub open spec fn plist_text(label: Seq<char>, binary_path: Seq<char>, log_dir: Seq<char>) -> Seq<
    char,
> {
    "<?xml version=\"1.0\" encoding=\"UTF-8\"?>\n<!DOCTYPE plist PUBLIC \"-//Apple//DTD PLIST 1.0//EN\" \"http://www.apple.com/DTDs/PropertyList-1.0.dtd\">\n<plist version=\"1.0\">\n<dict>\n    <key>Label</key>\n    <string>"@
        + label
        + "</string>\n    <key>ProgramArguments</key>\n    <array>\n        <string>"@
        + binary_path
        + "</string>\n        <string>--foreground</string>\n    </array>\n    <key>RunAtLoad</key>\n    <true/>\n    <key>KeepAlive</key>\n    <true/>\n    <key>ThrottleInterval</key>\n    <integer>5</integer>\n    <key>StandardOutPath</key>\n    <string>"@
        + log_dir
        + "/agentd.out.log</string>\n    <key>StandardErrorPath</key>\n    <string>"@
        + log_dir
        + "/agentd.err.log</string>\n</dict>\n</plist>\n"@
}

/// Renders the launchd user-agent plist that runs `binary_path --foreground`
/// at login and restarts it if it exits, throttled so a crash loop cannot
/// spin.
pub fn render_plist(label: &str, binary_path: &str, log_dir: &str) -> (r: String)
    ensures
        r@ == plist_text(label@, binary_path@, log_dir@),
{
    let mut r = "<?xml version=\"1.0\" encoding=\"UTF-8\"?>\n<!DOCTYPE plist PUBLIC \"-//Apple//DTD PLIST 1.0//EN\" \"http://www.apple.com/DTDs/PropertyList-1.0.dtd\">\n<plist version=\"1.0\">\n<dict>\n    <key>Label</key>\n    <string>".to_owned();
    r.append(label);
    r.append("</string>\n    <key>ProgramArguments</key>\n    <array>\n        <string>");
    r.append(binary_path);
    r.append("</string>\n        <string>--foreground</string>\n    </array>\n    <key>RunAtLoad</key>\n    <true/>\n    <key>KeepAlive</key>\n    <true/>\n    <key>ThrottleInterval</key>\n    <integer>5</integer>\n    <key>StandardOutPath</key>\n    <string>");
    r.append(log_dir);
    r.append("/agentd.out.log</string>\n    <key>StandardErrorPath</key>\n    <string>");
    r.append(log_dir);
    r.append("/agentd.err.log</string>\n</dict>\n</plist>\n");
    r
}

} // verus!
