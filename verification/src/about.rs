//! The About window: its title, its version line and the pages its links open.
use vstd::prelude::*;
use crate::wide::string_push;

verus! {

pub const ABOUT_TITLE: &'static str = "About CompactRS";
pub const GITHUB_URL: &'static str = "https://github.com/IRedDragonICY/compactrs";
pub const LICENSE_URL: &'static str = "https://github.com/IRedDragonICY/compactrs/blob/main/LICENSE";

/// Command ids of the two link buttons.
pub const IDC_LINK_GITHUB: u16 = 1001;
pub const IDC_LINK_LICENSE: u16 = 1002;

/// The page a click on link `index` of the link text opens: the project for
/// the first, the license for the second, nothing for others.
pub fn link_url(index: i32) -> (r: Option<&'static str>)
    ensures
        index == 0 ==> r == Some(GITHUB_URL),
        index == 1 ==> r == Some(LICENSE_URL),
        index != 0 && index != 1 ==> r is None,
{
    if index == 0 {
        Some(GITHUB_URL)
    } else if index == 1 {
        Some(LICENSE_URL)
    } else {
        None
    }
}

/// The page a link button opens, by its command id.
pub fn command_url(id: u16) -> (r: Option<&'static str>)
    ensures
        id == IDC_LINK_GITHUB ==> r == Some(GITHUB_URL),
        id == IDC_LINK_LICENSE ==> r == Some(LICENSE_URL),
        id != IDC_LINK_GITHUB && id != IDC_LINK_LICENSE ==> r is None,
{
    if id == IDC_LINK_GITHUB {
        Some(GITHUB_URL)
    } else if id == IDC_LINK_LICENSE {
        Some(LICENSE_URL)
    } else {
        None
    }
}

/// "Version " followed by the version.
pub fn version_text(version: &str) -> (r: String)
    ensures
        r@ == "Version "@ + version@,
{
    let mut out = String::new();
    let ghost start = out@;
    for c in it: "Version ".chars()
        invariant
            it.seq() == "Version "@,
            out@ == "Version "@.take(it.index() as int),
    {
        proof {
            assert("Version "@.take(it.index() + 1) =~= "Version "@.take(it.index() as int).push(c));
        }
        string_push(&mut out, c);
    }
    proof {
        assert("Version "@.take("Version "@.len() as int) =~= "Version "@);
    }
    for c in it: version.chars()
        invariant
            it.seq() == version@,
            out@ == "Version "@ + version@.take(it.index() as int),
    {
        proof {
            assert(version@.take(it.index() + 1) =~= version@.take(it.index() as int).push(c));
            assert("Version "@ + version@.take(it.index() + 1) =~= ("Version "@ + version@.take(it.index() as int)).push(c));
        }
        string_push(&mut out, c);
    }
    proof {
        assert(version@.take(version@.len() as int) =~= version@);
    }
    out
}

} // verus!
