//! Inspecting web content of simulators where the system has no WebKit
//! inspector: nothing is found, and a warning says why.
use vstd::prelude::*;

use crate::error::SimdeckError;
use crate::text::{owned, views};

verus! {

/// A page that can be inspected.
#[derive(Debug)]
pub struct WebKitTarget {
    pub id: String,
    pub app_id: String,
    pub app_name: Option<String>,
    pub app_active: bool,
    pub page_active: bool,
    pub page_id: u64,
    pub title: Option<String>,
    pub url: Option<String>,
    pub kind: String,
    pub inspector_url: String,
    pub web_socket_url: String,
}

/// The pages of a simulator that can be inspected.
#[derive(Debug)]
pub struct WebKitTargetDiscovery {
    pub udid: String,
    pub socket_path: Option<String>,
    pub targets: Vec<WebKitTarget>,
    pub warnings: Vec<String>,
}

/// Looks for pages of a simulator that can be inspected: there are none.
pub fn discover_targets(udid: &str, _http_origin: Option<&str>) -> (result: Result<
    WebKitTargetDiscovery,
    SimdeckError,
>)
    ensures
        result is Ok,
        result->Ok_0.udid@ == udid@,
        result->Ok_0.socket_path is None,
        result->Ok_0.targets@.len() == 0,
        views(result->Ok_0.warnings@) == seq![
            "WebKit inspection is only available for iOS simulators on macOS."@,
        ],
{
    let mut warnings: Vec<String> = Vec::new();
    warnings.push(owned("WebKit inspection is only available for iOS simulators on macOS."));
    assert(views(warnings@) =~= seq![
        "WebKit inspection is only available for iOS simulators on macOS."@,
    ]);
    Ok(WebKitTargetDiscovery { udid: owned(udid), socket_path: None, targets: Vec::new(), warnings })
}

/// The directory of the inspector's user interface: there is none.
pub fn webkit_inspector_ui_root() -> (root: Option<String>)
    ensures
        root is None,
{
    None
}

/// The page of the inspector's user interface, as it was given.
pub fn inject_frontend_host(main_html: &str) -> (html: String)
    ensures
        html@ == main_html@,
{
    owned(main_html)
}

} // verus!
