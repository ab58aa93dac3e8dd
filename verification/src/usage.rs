//! What the programs say of themselves.

use vstd::prelude::*;
use vstd::string::*;
use crate::constants::{PACKAGE_NAME, VERSION};

verus! {

/// The text that follows name and version in the version notice.
pub const NOTICE: &'static str =
    "\nCopyright (C) 2022-2023 by Andreas Maus <maus@ypbind.de>\nThis program comes with ABSOLUTELY NO WARRANTY.\n\n";

/// The text that follows the second mention of the name in the version notice.
pub const LICENSE: &'static str =
    " is distributed under the Terms of the GNU General\nPublic License Version 3. (http://www.gnu.org/copyleft/gpl.html)\n\n";

/// The characters of the version notice.
pub open spec fn version_notice() -> Seq<char> {
    PACKAGE_NAME@ + " version "@ + VERSION@ + NOTICE@ + PACKAGE_NAME@ + LICENSE@
}

/// The version notice: name, version, copyright and licence.
pub fn version_text() -> (text: String)
    ensures
        text@ == version_notice(),
{
    let mut text = String::from_str(PACKAGE_NAME);
    text.append(" version ");
    text.append(VERSION);
    text.append(NOTICE);
    text.append(PACKAGE_NAME);
    text.append(LICENSE);
    text
}

} // verus!
