//! The settings of the program.

use crate::text::texts_of;
use vstd::prelude::*;
use vstd::string::StringExecFns;

verus! {

/// The settings that the program starts with.
#[derive(Debug, Clone, PartialEq, Eq)]
pub struct AppConfig {
    /// The columns of the list, by name.
    pub headers: Vec<String>,
    /// The directory that holds the settings, the session token and the log.
    pub root_dir: String,
    pub debug: bool,
    /// The command that takes a text on its input and puts it on the clipboard.
    pub clipboard_bin: String,
}

/// The path of the settings file in a directory.
pub open spec fn config_path_spec(root_dir: Seq<char>) -> Seq<char> {
    root_dir + "/tui-1password.yaml"@
}

/// The path of the session token file in a directory.
pub open spec fn token_path_spec(root_dir: Seq<char>) -> Seq<char> {
    root_dir + "/token"@
}

/// The directories that may hold the settings, in the order in which they are
/// tried: the one that `TUI_1PASSWORD_HOME` names, `tui-1password` in the one
/// that `XDG_CONFIG_HOME` names, and `.tui-1password` in the one that `HOME`
/// names, each only where the variable is set.
pub open spec fn root_dir_candidates_spec(
    tui_home: Option<String>,
    xdg_config_home: Option<String>,
    home: Option<String>,
) -> Seq<Seq<char>> {
    (match tui_home {
        Some(dir) => seq![dir@],
        None => Seq::empty(),
    }) + (match xdg_config_home {
        Some(dir) => seq![dir@ + "/tui-1password"@],
        None => Seq::empty(),
    }) + (match home {
        Some(dir) => seq![dir@ + "/.tui-1password"@],
        None => Seq::empty(),
    })
}

/// The path of the settings file in a directory.
pub fn config_path(root_dir: &str) -> (path: String)
    ensures
        path@ == config_path_spec(root_dir@),
{
    let mut path = root_dir.to_owned();
    path.append("/tui-1password.yaml");
    path
}

/// The path of the session token file in a directory.
pub fn token_path(root_dir: &str) -> (path: String)
    ensures
        path@ == token_path_spec(root_dir@),
{
    let mut path = root_dir.to_owned();
    path.append("/token");
    path
}

/// The directories that may hold the settings, in the order in which they are
/// tried, from the values of the three environment variables.
pub fn root_dir_candidates(
    tui_home: Option<String>,
    xdg_config_home: Option<String>,
    home: Option<String>,
) -> (dirs: Vec<String>)
    ensures
        texts_of(dirs@) == root_dir_candidates_spec(tui_home, xdg_config_home, home),
{
    let mut dirs: Vec<String> = Vec::new();
    match tui_home {
        Some(dir) => {
            dirs.push(dir);
        },
        None => {},
    }
    match xdg_config_home {
        Some(dir) => {
            let mut path = dir;
            path.append("/tui-1password");
            dirs.push(path);
        },
        None => {},
    }
    match home {
        Some(dir) => {
            let mut path = dir;
            path.append("/.tui-1password");
            dirs.push(path);
        },
        None => {},
    }
    assert(texts_of(dirs@) =~= root_dir_candidates_spec(tui_home, xdg_config_home, home));
    dirs
}

impl AppConfig {
    /// The settings that are used where no settings file exists: the columns
    /// `id`, `title` and `updated_at`, and `wl-copy` for the clipboard.
    pub fn defaults(root_dir: String) -> (r: AppConfig)
        ensures
            r.headers@.len() == 3,
            r.headers@[0]@ == "id"@,
            r.headers@[1]@ == "title"@,
            r.headers@[2]@ == "updated_at"@,
            r.root_dir == root_dir,
            r.debug,
            r.clipboard_bin@ == "wl-copy"@,
    {
        let mut headers: Vec<String> = Vec::new();
        headers.push("id".to_owned());
        headers.push("title".to_owned());
        headers.push("updated_at".to_owned());
        AppConfig { headers, root_dir, debug: true, clipboard_bin: "wl-copy".to_owned() }
    }
}

} // verus!
