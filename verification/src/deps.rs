//! Where the external tools are taken from: a path the user set in the
//! configuration comes before a detected one; and the proxy used for
//! downloading them.

use vstd::prelude::*;
use crate::config::AppConfig;
use crate::manifest::{opt_view, HostOs};
use crate::text::{push_str, string_of};

verus! {

pub open spec fn ffprobe_name_spec(os: HostOs) -> Seq<char> {
    if os == HostOs::Windows {
        "ffprobe.exe"@
    } else {
        "ffprobe"@
    }
}

/// The file name ffprobe has beside ffmpeg on `os`.
pub fn ffprobe_file_name(os: HostOs) -> (r: String)
    ensures
        r@ == ffprobe_name_spec(os),
{
    match os {
        HostOs::Windows => "ffprobe.exe".to_owned(),
        _ => "ffprobe".to_owned(),
    }
}

pub open spec fn unsupported_dep_message(dep_id: Seq<char>) -> Seq<char> {
    "Custom path not supported for '"@ + dep_id + "', use settings directly"@
}

/// Records a user-chosen path of a dependency in the configuration.
/// For ffmpeg, `ffprobe_beside` is the path of ffprobe in the same
/// directory when that file exists; it then becomes the ffprobe path.
/// Other dependencies than ffmpeg and the danmaku converter are refused
/// and the configuration is left as it was.
pub fn set_dep_custom_path(
    config: &mut AppConfig,
    dep_id: &str,
    path: &str,
    ffprobe_beside: Option<String>,
) -> (r: Result<(), String>)
    ensures
        dep_id@ == "ffmpeg"@ ==> {
            &&& r is Ok
            &&& final(config).ffmpeg.ffmpeg_path@ == path@
            &&& final(config).ffmpeg.ffprobe_path@ == match opt_view(ffprobe_beside) {
                Some(p) => p,
                None => old(config).ffmpeg.ffprobe_path@,
            }
            &&& final(config).general == old(config).general
            &&& final(config).workspaces == old(config).workspaces
            &&& final(config).tools == old(config).tools
            &&& final(config).network == old(config).network
        },
        dep_id@ == "danmaku-factory"@ ==> {
            &&& r is Ok
            &&& final(config).tools.danmaku_factory_path@ == path@
            &&& final(config).general == old(config).general
            &&& final(config).ffmpeg == old(config).ffmpeg
            &&& final(config).workspaces == old(config).workspaces
            &&& final(config).network == old(config).network
        },
        dep_id@ != "ffmpeg"@ && dep_id@ != "danmaku-factory"@ ==> {
            &&& r matches Err(m) && m@ == unsupported_dep_message(dep_id@)
            &&& *final(config) == *old(config)
        },
{
    proof {
        reveal_strlit("ffmpeg");
        reveal_strlit("danmaku-factory");
        assert("ffmpeg"@.len() != "danmaku-factory"@.len());
    }
    if crate::text::str_eq(dep_id, "ffmpeg") {
        config.ffmpeg.ffmpeg_path = path.to_owned();
        match ffprobe_beside {
            Some(p) => {
                config.ffmpeg.ffprobe_path = p;
            },
            None => {},
        }
        Ok(())
    } else if crate::text::str_eq(dep_id, "danmaku-factory") {
        config.tools.danmaku_factory_path = path.to_owned();
        Ok(())
    } else {
        let mut b: Vec<char> = Vec::new();
        push_str(&mut b, "Custom path not supported for '");
        push_str(&mut b, dep_id);
        push_str(&mut b, "', use settings directly");
        Err(string_of(&b))
    }
}

/// The path a tool is used from after its installation changed: the one
/// set in the configuration when there is one, else the detected one,
/// else none (empty).
pub fn redetected_tool_path(configured: &str, detected: Option<String>) -> (r: String)
    ensures
        r@ == if configured@.len() > 0 {
            configured@
        } else {
            match opt_view(detected) {
                Some(d) => d,
                None => ""@,
            }
        },
{
    if !configured.is_empty() {
        configured.to_owned()
    } else {
        match detected {
            Some(d) => d,
            None => "".to_owned(),
        }
    }
}

/// Sets the download proxy in the configuration and returns the proxy
/// the download client is to use: none for an empty URL.
pub fn set_deps_proxy(config: &mut AppConfig, proxy_url: &str) -> (r: Option<String>)
    ensures
        final(config).network.proxy_url@ == proxy_url@,
        final(config).general == old(config).general,
        final(config).ffmpeg == old(config).ffmpeg,
        final(config).workspaces == old(config).workspaces,
        final(config).tools == old(config).tools,
        opt_view(r) == if proxy_url@.len() == 0 {
            None
        } else {
            Some(proxy_url@)
        },
{
    config.network.proxy_url = proxy_url.to_owned();
    if proxy_url.is_empty() {
        None
    } else {
        Some(proxy_url.to_owned())
    }
}

} // verus!
