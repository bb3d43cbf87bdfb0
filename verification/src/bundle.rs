//! The notification helper bundle used for desktop notifications.
//!
//! The bundle only exists on macOS; elsewhere installing it fails with a
//! message saying so. Its location is computed here; looking at the disk is
//! the caller's part.
use vstd::prelude::*;

use crate::helpers;
use crate::text;

verus! {

pub open spec fn macos_only() -> Seq<char> {
    "notification bundle is macOS-only"@
}

/// `<data_local_dir>/email-cli`, where the bundle is installed.
pub fn install_dir(data_local_dir: Option<&str>) -> (res: Option<String>)
    ensures
        match data_local_dir {
            Some(d) => res matches Some(p) && p@ == helpers::path_join(d@, "email-cli"@),
            None => res is None,
        },
{
    match data_local_dir {
        Some(d) => Some(helpers::join_path(d, "email-cli")),
        None => None,
    }
}

/// `<install_dir>/EmailCLI.app`.
pub fn bundle_dir(data_local_dir: Option<&str>) -> (res: Option<String>)
    ensures
        match data_local_dir {
            Some(d) => res matches Some(p) && p@ == helpers::path_join(
                helpers::path_join(d@, "email-cli"@),
                "EmailCLI.app"@,
            ),
            None => res is None,
        },
{
    match install_dir(data_local_dir) {
        Some(dir) => Some(helpers::join_path(dir.as_str(), "EmailCLI.app")),
        None => None,
    }
}

/// The helper executable inside a bundle directory.
pub fn helper_path(bundle: &str) -> (res: String)
    ensures
        res@ == helpers::path_join(bundle@, "Contents/MacOS/email-cli-notify"@),
{
    helpers::join_path(bundle, "Contents/MacOS/email-cli-notify")
}

/// The bundle's path when its helper executable is already on disk.
pub fn installed_bundle_path(data_local_dir: Option<&str>, helper_exists: bool) -> (res: Option<
    String,
>)
    ensures
        match data_local_dir {
            Some(d) => if helper_exists {
                res matches Some(p) && p@ == helpers::path_join(
                    helpers::path_join(d@, "email-cli"@),
                    "EmailCLI.app"@,
                )
            } else {
                res is None
            },
            None => res is None,
        },
{
    match bundle_dir(data_local_dir) {
        Some(dir) => if helper_exists {
            Some(dir)
        } else {
            None
        },
        None => None,
    }
}

/// Extracts the bundle; only possible on macOS.
pub fn install() -> (res: Result<String, String>)
    ensures
        res matches Err(e) && e@ == macos_only(),
{
    Err(text::copy_str("notification bundle is macOS-only"))
}

/// Installs the bundle unless it is already there; only possible on macOS.
pub fn ensure_installed() -> (res: Result<String, String>)
    ensures
        res matches Err(e) && e@ == macos_only(),
{
    install()
}

} // verus!
