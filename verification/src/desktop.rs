//! Desktop integration: the `.desktop` entry and where it and its icon are installed.
use vstd::prelude::*;
use vstd::string::*;

use crate::path;
use crate::path::FilePath;

verus! {

/// Where the desktop files go.
pub struct DesktopPaths {
    /// Directory of the entry, to be created.
    pub apps_dir: FilePath,
    /// Directory of the icon, to be created.
    pub icons_dir: FilePath,
    pub icon: FilePath,
    pub entry: FilePath,
}

/// The user's data directory: `XDG_DATA_HOME`, else `.local/share` under `HOME`.
pub open spec fn data_dir(xdg_data_home: Option<Seq<u8>>, home: Option<Seq<u8>>) -> Option<
    Seq<u8>,
> {
    match (xdg_data_home, home) {
        (Some(dir), _) => Some(dir),
        (None, Some(home)) => Some(path::joined(home, path::path_of(".local/share"@))),
        (None, None) => None,
    }
}

impl DesktopPaths {
    /// The paths are those under the data directory `dir`.
    pub open spec fn lie_under(self, dir: Seq<u8>) -> bool {
        &&& self.apps_dir@ == path::joined(dir, path::path_of("applications"@))
        &&& self.icons_dir@ == path::joined(dir, path::path_of("icons/hicolor/128x128/apps"@))
        &&& self.icon@ == path::joined(
            self.icons_dir@,
            path::path_of("battery-health-keeper-linux.png"@),
        )
        &&& self.entry@ == path::joined(
            self.apps_dir@,
            path::path_of("battery-health-keeper-linux.desktop"@),
        )
    }
}

/// The contents of the desktop entry. `exec` is the path of the program, where it is known.
pub open spec fn entry_text(exec: Option<Seq<char>>) -> Seq<char> {
    "[Desktop Entry]\nName=Battery Health Keeper\nComment=A simple battery health keeper for Linux\nExec=\""@
        + (match exec {
        Some(path) => path,
        None => "battery-health-keeper-linux"@,
    })
        + "\"\nIcon=battery-health-keeper-linux\nTerminal=false\nType=Application\nCategories=Utility;Settings;HardwareSettings;\nStartupWMClass=battery-health-keeper-linux\n"@
}

/// Works out where the desktop files go; nowhere, where no data directory is known. The
/// arguments are the environment variables `XDG_DATA_HOME` and `HOME`.
pub fn desktop_paths(xdg_data_home: Option<&FilePath>, home: Option<&FilePath>) -> (r: Option<
    DesktopPaths,
>)
    ensures
        ({
            let dir = data_dir(
                match xdg_data_home {
                    Some(p) => Some(p@),
                    None => None,
                },
                match home {
                    Some(p) => Some(p@),
                    None => None,
                },
            );
            &&& r is Some <==> dir is Some
            &&& r matches Some(paths) ==> paths.lie_under(dir->0)
        }),
{
    let data = match (xdg_data_home, home) {
        (Some(dir), _) => dir.clone(),
        (None, Some(home)) => home.join(".local/share"),
        (None, None) => {
            return None;
        },
    };
    let apps_dir = data.join("applications");
    let icons_dir = data.join("icons/hicolor/128x128/apps");
    let icon = icons_dir.join("battery-health-keeper-linux.png");
    let entry = apps_dir.join("battery-health-keeper-linux.desktop");
    Some(DesktopPaths { apps_dir, icons_dir, icon, entry })
}

/// Writes the desktop entry.
pub fn desktop_entry(exec: Option<&str>) -> (r: String)
    ensures
        r@ == entry_text(
            match exec {
                Some(path) => Some(path@),
                None => None,
            },
        ),
{
    let mut r =
        "[Desktop Entry]\nName=Battery Health Keeper\nComment=A simple battery health keeper for Linux\nExec=\"".to_owned();
    match exec {
        Some(path) => {
            r.append(path);
        },
        None => {
            r.append("battery-health-keeper-linux");
        },
    }
    r.append(
        "\"\nIcon=battery-health-keeper-linux\nTerminal=false\nType=Application\nCategories=Utility;Settings;HardwareSettings;\nStartupWMClass=battery-health-keeper-linux\n",
    );
    r
}

/// `line` is one of the lines after the first.
pub open spec fn has_line(text: Seq<char>, line: Seq<char>) -> bool {
    exists|before: Seq<char>, after: Seq<char>|
        text == #[trigger] (before + "\n"@ + line + "\n"@ + after)
}

/// The data directory is the one that the environment names for it, whatever the home directory
/// is; else it lies in the home directory; without either there is none.
pub proof fn named_data_directory_comes_first(named: Seq<u8>, home: Seq<u8>, other: Option<Seq<u8>>)
    ensures
        data_dir(Some(named), other) == Some(named),
        data_dir(None, Some(home)) == Some(path::joined(home, path::path_of(".local/share"@))),
        data_dir(None, None) is None,
{
}

/// The entry goes to `applications` and the icon to the directory of icons of its size, both
/// under the data directory and in the directories that are created for them.
pub proof fn desktop_files_lie_in_their_directories(paths: DesktopPaths, dir: Seq<u8>)
    requires
        paths.lie_under(dir),
    ensures
        paths.apps_dir@ == path::joined(dir, path::path_of("applications"@)),
        paths.icons_dir@ == path::joined(dir, path::path_of("icons/hicolor/128x128/apps"@)),
        paths.entry@ == path::joined(
            paths.apps_dir@,
            path::path_of("battery-health-keeper-linux.desktop"@),
        ),
        paths.icon@ == path::joined(
            paths.icons_dir@,
            path::path_of("battery-health-keeper-linux.png"@),
        ),
{
}

/// The entry starts with the group header, which has a line of its own, and names the program,
/// its command in double quotes and its type.
pub proof fn entry_is_a_desktop_entry(exec: Option<Seq<char>>)
    ensures
        "[Desktop Entry]\n"@.is_prefix_of(entry_text(exec)),
        has_line(entry_text(exec), "Name=Battery Health Keeper"@),
        has_line(
            entry_text(exec),
            "Exec=\""@ + (match exec {
                Some(path) => path,
                None => "battery-health-keeper-linux"@,
            }) + "\""@,
        ),
        has_line(entry_text(exec), "Type=Application"@),
{
    let head =
        "[Desktop Entry]\nName=Battery Health Keeper\nComment=A simple battery health keeper for Linux\nExec=\""@;
    let tail =
        "\"\nIcon=battery-health-keeper-linux\nTerminal=false\nType=Application\nCategories=Utility;Settings;HardwareSettings;\nStartupWMClass=battery-health-keeper-linux\n"@;
    let program = match exec {
        Some(path) => path,
        None => "battery-health-keeper-linux"@,
    };
    let text = entry_text(exec);
    reveal_strlit(
        "[Desktop Entry]\nName=Battery Health Keeper\nComment=A simple battery health keeper for Linux\nExec=\"",
    );
    reveal_strlit(
        "\"\nIcon=battery-health-keeper-linux\nTerminal=false\nType=Application\nCategories=Utility;Settings;HardwareSettings;\nStartupWMClass=battery-health-keeper-linux\n",
    );
    reveal_strlit("[Desktop Entry]\n");
    reveal_strlit("\n");
    reveal_strlit("\"");
    reveal_strlit("Name=Battery Health Keeper");
    reveal_strlit("Exec=\"");
    reveal_strlit("Type=Application");
    assert("[Desktop Entry]\n"@ =~= text.take(16));
    assert(head =~= head.take(15) + "\n"@ + "Name=Battery Health Keeper"@ + "\n"@ + head.skip(43));
    assert(text =~= head.take(15) + "\n"@ + "Name=Battery Health Keeper"@ + "\n"@ + (head.skip(43)
        + program + tail));
    assert(head =~= head.take(91) + "\n"@ + "Exec=\""@);
    assert(tail =~= "\""@ + "\n"@ + tail.skip(2));
    assert(text =~= head.take(91) + "\n"@ + ("Exec=\""@ + program + "\""@) + "\n"@ + tail.skip(2));
    assert(tail =~= tail.take(49) + "\n"@ + "Type=Application"@ + "\n"@ + tail.skip(67));
    assert(text =~= (head + program + tail.take(49)) + "\n"@ + "Type=Application"@ + "\n"@
        + tail.skip(67));
}

proof fn lemma_entry_head()
    ensures
        "[Desktop Entry]\nName=Battery Health Keeper\nComment=A simple battery health keeper for Linux\nExec=\""@
            == "[Desktop Entry]\n"@
            + "Name=Battery Health Keeper\n"@
            + "Comment=A simple battery health keeper for Linux\n"@
            + "Exec=\""@,
{
    reveal_strlit(
        "[Desktop Entry]\nName=Battery Health Keeper\nComment=A simple battery health keeper for Linux\nExec=\"",
    );
    reveal_strlit("[Desktop Entry]\n");
    reveal_strlit("Name=Battery Health Keeper\n");
    reveal_strlit("Comment=A simple battery health keeper for Linux\n");
    reveal_strlit("Exec=\"");
    assert("[Desktop Entry]\nName=Battery Health Keeper\nComment=A simple battery health keeper for Linux\nExec=\""@
        =~= "[Desktop Entry]\n"@
        + "Name=Battery Health Keeper\n"@
        + "Comment=A simple battery health keeper for Linux\n"@
        + "Exec=\""@);
}

proof fn lemma_entry_tail()
    ensures
        "\"\nIcon=battery-health-keeper-linux\nTerminal=false\nType=Application\nCategories=Utility;Settings;HardwareSettings;\nStartupWMClass=battery-health-keeper-linux\n"@
            == "\"\n"@
            + "Icon=battery-health-keeper-linux\n"@
            + "Terminal=false\n"@
            + "Type=Application\n"@
            + "Categories=Utility;Settings;HardwareSettings;\n"@
            + "StartupWMClass=battery-health-keeper-linux\n"@,
{
    reveal_strlit(
        "\"\nIcon=battery-health-keeper-linux\nTerminal=false\nType=Application\nCategories=Utility;Settings;HardwareSettings;\nStartupWMClass=battery-health-keeper-linux\n",
    );
    reveal_strlit("\"\n");
    reveal_strlit("Icon=battery-health-keeper-linux\n");
    reveal_strlit("Terminal=false\n");
    reveal_strlit("Type=Application\n");
    reveal_strlit("Categories=Utility;Settings;HardwareSettings;\n");
    reveal_strlit("StartupWMClass=battery-health-keeper-linux\n");
    assert("\"\nIcon=battery-health-keeper-linux\nTerminal=false\nType=Application\nCategories=Utility;Settings;HardwareSettings;\nStartupWMClass=battery-health-keeper-linux\n"@
        =~= "\"\n"@
        + "Icon=battery-health-keeper-linux\n"@
        + "Terminal=false\n"@
        + "Type=Application\n"@
        + "Categories=Utility;Settings;HardwareSettings;\n"@
        + "StartupWMClass=battery-health-keeper-linux\n"@);
}

/// The entry is made of these lines and no others; `program` is the path of the running program,
/// or its name where the path is not known.
pub proof fn entry_line_by_line(exec: Option<Seq<char>>, program: Seq<char>)
    requires
        exec is Some ==> exec == Some(program),
        exec is None ==> program == "battery-health-keeper-linux"@,
    ensures
        entry_text(exec) == "[Desktop Entry]\n"@ + "Name=Battery Health Keeper\n"@ + "Comment=A simple battery health keeper for Linux\n"@ + "Exec=\""@ + program
            + "\"\n"@
            + "Icon=battery-health-keeper-linux\n"@
            + "Terminal=false\n"@
            + "Type=Application\n"@
            + "Categories=Utility;Settings;HardwareSettings;\n"@
            + "StartupWMClass=battery-health-keeper-linux\n"@,
{
    lemma_entry_head();
    lemma_entry_tail();
    let head = "[Desktop Entry]\n"@ + "Name=Battery Health Keeper\n"@ + "Comment=A simple battery health keeper for Linux\n"@ + "Exec=\""@;
    assert(entry_text(exec) =~= head + program
        + "\"\n"@
        + "Icon=battery-health-keeper-linux\n"@
        + "Terminal=false\n"@
        + "Type=Application\n"@
        + "Categories=Utility;Settings;HardwareSettings;\n"@
        + "StartupWMClass=battery-health-keeper-linux\n"@);
}

} // verus!
