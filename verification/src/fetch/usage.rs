//! The help text of the scraper.

use vstd::prelude::*;
use vstd::string::*;
use crate::fetch::constants::DEFAULT_CONFIG_FILE;
use crate::usage::{version_notice, version_text};

verus! {

/// The options, up to the default of the configuration file.
pub const OPTIONS_HEAD: &'static str =
    " [-c <cfg>|--config=<cfg>] [-h|--help] [-q|--quiet] [-C|--check] [-D|--debug] [-V|--version]\n\n    -c <cfg>        Read configuration from file <cfg>\n    --config=<cfg>  Default: ";

/// The options, from the default of the configuration file on.
pub const OPTIONS_TAIL: &'static str =
    "\n\n    -h              Shows this text\n    --help\n\n    -q              Quiet operation.\n    --quiet         Only warning and critical messages will be logged\n\n    -C              Check configuration file and exit\n    --check\n\n    -D              Enable debug log\n    --debug\n\n    -V              Show version information\n    --version\n\n";

/// The help text for the program called `program`: the version notice, then
/// the options with the default configuration file, then a line feed.
pub fn usage_text(program: &str) -> (text: String)
    ensures
        text@ == version_notice() + "Usage: "@ + program@ + OPTIONS_HEAD@
            + DEFAULT_CONFIG_FILE@ + OPTIONS_TAIL@ + "\n"@,
{
    let mut text = version_text();
    text.append("Usage: ");
    text.append(program);
    text.append(OPTIONS_HEAD);
    text.append(DEFAULT_CONFIG_FILE);
    text.append(OPTIONS_TAIL);
    text.append("\n");
    text
}

} // verus!
