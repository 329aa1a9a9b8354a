//! Where the server keeps its data.
//!
//! Which directory that is depends on the platform that is asked about; how its path is put together
//! depends on the host.

use crate::execution::shell::Platform;
use crate::path::{followed, path_join, PathStyle};
use crate::text::{maybe, maybe_str};
use vstd::prelude::*;

verus! {

/// The directory of a user's data, or which variable is missing.
pub open spec fn data_dir(
    style: PathStyle,
    platform: Platform,
    home: Option<Seq<char>>,
    xdg_data_home: Option<Seq<char>>,
    local_app_data: Option<Seq<char>>,
) -> Result<Seq<char>, Seq<char>> {
    match platform {
        Platform::MacOs => match home {
            Some(root) => Ok(followed(style, root, "Library/Application Support/PaperMachine"@)),
            None => Err("HOME is not set"@),
        },
        Platform::Windows => match local_app_data {
            Some(root) => Ok(followed(style, root, "PaperMachine"@)),
            None => Err("LOCALAPPDATA is not set"@),
        },
        _ => match xdg_data_home {
            Some(root) => Ok(followed(style, root, "papermachine"@)),
            None => match home {
                Some(root) => Ok(followed(style, root, ".local/share/papermachine"@)),
                None => Err("neither XDG_DATA_HOME nor HOME is set"@),
            },
        },
    }
}

/// The value of a result of texts.
pub open spec fn outcome(r: Result<String, String>) -> Result<Seq<char>, Seq<char>> {
    match r {
        Ok(path) => Ok(path@),
        Err(fault) => Err(fault@),
    }
}

/// The directory of a user's data, or which variable is missing.
pub fn resolve_data_dir(
    style: PathStyle,
    platform: Platform,
    home: Option<&str>,
    xdg_data_home: Option<&str>,
    local_app_data: Option<&str>,
) -> (r: Result<String, String>)
    ensures
        outcome(r) == data_dir(
            style,
            platform,
            maybe_str(home),
            maybe_str(xdg_data_home),
            maybe_str(local_app_data),
        ),
{
    match platform {
        Platform::MacOs => match home {
            Some(root) => Ok(path_join(style, root, "Library/Application Support/PaperMachine")),
            None => Err("HOME is not set".to_owned()),
        },
        Platform::Windows => match local_app_data {
            Some(root) => Ok(path_join(style, root, "PaperMachine")),
            None => Err("LOCALAPPDATA is not set".to_owned()),
        },
        _ => match xdg_data_home {
            Some(root) => Ok(path_join(style, root, "papermachine")),
            None => match home {
                Some(root) => Ok(path_join(style, root, ".local/share/papermachine")),
                None => Err("neither XDG_DATA_HOME nor HOME is set".to_owned()),
            },
        },
    }
}

/// The directory that the server is asked to keep its data in: the one that is named, or the
/// user's own, a part of it for development.
pub open spec fn requested_dir(
    style: PathStyle,
    named: Option<Seq<char>>,
    dev: bool,
    own: Result<Seq<char>, Seq<char>>,
) -> Result<Seq<char>, Seq<char>> {
    match named {
        Some(path) => Ok(path),
        None => match own {
            Ok(path) => if dev {
                Ok(followed(style, path, "dev"@))
            } else {
                Ok(path)
            },
            Err(fault) => Err(fault),
        },
    }
}

/// The directory that the server is asked to keep its data in.
pub fn requested_data_dir(
    style: PathStyle,
    named: Option<String>,
    dev: bool,
    own: Result<String, String>,
) -> (r: Result<String, String>)
    ensures
        outcome(r) == requested_dir(style, maybe(named), dev, outcome(own)),
{
    match named {
        Some(path) => Ok(path),
        None => match own {
            Ok(path) => {
                if dev {
                    Ok(path_join(style, path.as_str(), "dev"))
                } else {
                    Ok(path)
                }
            },
            Err(fault) => Err(fault),
        },
    }
}

/// The file that describes the providers: the one that is named, one of the resources for
/// development, or one in the data directory.
pub fn config_path(
    style: PathStyle,
    named: Option<String>,
    dev: bool,
    resource_root: &str,
    data_dir: &str,
) -> (r: String)
    ensures
        r@ == (match named {
            Some(path) => path@,
            None => if dev {
                followed(style, resource_root@, "papermachine.toml"@)
            } else {
                followed(style, data_dir@, "config.toml"@)
            },
        }),
{
    match named {
        Some(path) => path,
        None => {
            if dev {
                path_join(style, resource_root, "papermachine.toml")
            } else {
                path_join(style, data_dir, "config.toml")
            }
        },
    }
}

} // verus!
