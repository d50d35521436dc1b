//! How a server is started.
use vstd::prelude::*;
use vstd::string::*;

use crate::text::same_text;

verus! {

/// The directory, inside the storage directory, that holds one directory per instance.
pub fn instances_directory_name() -> (name: &'static str)
    ensures
        name@ == "instances"@,
{
    "instances"
}

/// The directory, inside the directory of an instance, that holds the extracted server.
pub fn server_directory_name() -> (name: &'static str)
    ensures
        name@ == "bin"@,
{
    "bin"
}

/// The name of the platform in manifests, where servers exist for the operating system `os` and
/// the processor `arch`.
pub open spec fn platform_name(os: Seq<char>, arch: Seq<char>) -> Option<Seq<char>> {
    if arch == "x86_64"@ {
        if os == "linux"@ {
            Some("linux-x64"@)
        } else if os == "macos"@ {
            Some("osx-x64"@)
        } else if os == "windows"@ {
            Some("windows-x64"@)
        } else {
            None
        }
    } else if arch == "aarch64"@ {
        if os == "linux"@ {
            Some("linux-arm64"@)
        } else if os == "macos"@ {
            Some("osx-arm64"@)
        } else if os == "windows"@ {
            Some("windows-arm64"@)
        } else {
            None
        }
    } else {
        None
    }
}

/// Finds the name of the platform in manifests.
pub fn platform(os: &str, arch: &str) -> (name: Option<&'static str>)
    ensures
        match name {
            Some(found) => platform_name(os@, arch@) == Some(found@),
            None => platform_name(os@, arch@) is None,
        },
{
    if same_text(arch, "x86_64") {
        if same_text(os, "linux") {
            Some("linux-x64")
        } else if same_text(os, "macos") {
            Some("osx-x64")
        } else if same_text(os, "windows") {
            Some("windows-x64")
        } else {
            None
        }
    } else if same_text(arch, "aarch64") {
        if same_text(os, "linux") {
            Some("linux-arm64")
        } else if same_text(os, "macos") {
            Some("osx-arm64")
        } else if same_text(os, "windows") {
            Some("windows-arm64")
        } else {
            None
        }
    } else {
        None
    }
}

/// The file that is run, in the directory of the extracted server.
pub open spec fn server_command(windows: bool) -> Seq<char> {
    if windows {
        "Robust.Server.exe"@
    } else {
        "Robust.Server"@
    }
}

/// An argument on the command line of the server.
pub enum LaunchArg {
    /// The text itself.
    Text(String),
    /// The path of this name inside the directory of the instance.
    InstancePath(String),
}

impl LaunchArg {
    /// Whether `self` is the argument `text`.
    pub open spec fn is_text(self, text: Seq<char>) -> bool {
        self matches LaunchArg::Text(s) && s@ == text
    }

    /// Whether `self` is the path of `name` inside the directory of the instance.
    pub open spec fn is_path(self, name: Seq<char>) -> bool {
        self matches LaunchArg::InstancePath(s) && s@ == name
    }
}

/// How to start the server of an instance: the file to run, its arguments, and the environment
/// variable that hands it the internal token.
pub struct LaunchPlan {
    pub command: String,
    pub args: Vec<LaunchArg>,
    pub token_variable: String,
    pub token: String,
}

impl LaunchPlan {
    /// Whether `self` starts the instance `id`, which reports to `base_url` and is known by
    /// `token`.
    pub open spec fn starts(
        self,
        id: Seq<char>,
        base_url: Seq<char>,
        token: Seq<char>,
        windows: bool,
    ) -> bool {
        &&& self.command@ == server_command(windows)
        &&& self.args@.len() == 8
        &&& self.args@[0].is_text("--cvar"@)
        &&& self.args@[1].is_text("watchdog.key="@ + id)
        &&& self.args@[2].is_text("--cvar"@)
        &&& self.args@[3].is_text("watchdog.baseUrl="@ + base_url)
        &&& self.args@[4].is_text("--config-file"@)
        &&& self.args@[5].is_path("config.toml"@)
        &&& self.args@[6].is_text("--data-dir"@)
        &&& self.args@[7].is_path("data"@)
        &&& self.token_variable@ == "ROBUST_CVAR_watchdog__token"@
        &&& self.token@ == token
    }
}

/// Plans the start of a server.
pub fn plan_launch(id: &str, base_url: &str, token: &str, windows: bool) -> (plan: LaunchPlan)
    ensures
        plan.starts(id@, base_url@, token@, windows),
{
    let command: &str = if windows {
        "Robust.Server.exe"
    } else {
        "Robust.Server"
    };
    LaunchPlan {
        command: command.to_owned(),
        args: vec![
            LaunchArg::Text("--cvar".to_owned()),
            LaunchArg::Text("watchdog.key=".to_owned().concat(id)),
            LaunchArg::Text("--cvar".to_owned()),
            LaunchArg::Text("watchdog.baseUrl=".to_owned().concat(base_url)),
            LaunchArg::Text("--config-file".to_owned()),
            LaunchArg::InstancePath("config.toml".to_owned()),
            LaunchArg::Text("--data-dir".to_owned()),
            LaunchArg::InstancePath("data".to_owned()),
        ],
        token_variable: "ROBUST_CVAR_watchdog__token".to_owned(),
        token: token.to_owned(),
    }
}

/// The permission bits that let owner, group and others run a file.
pub const EXECUTE_BITS: u32 = 0b001001001;

/// The mode of a file after everyone has been allowed to run it.
pub fn executable_mode(mode: u32) -> (runnable: u32)
    ensures
        runnable == mode | EXECUTE_BITS,
{
    mode | EXECUTE_BITS
}

/// A mode that lets everyone run the file has all execute bits, and the other bits as before.
/// Allowing it once more changes nothing.
pub proof fn executable_mode_only_adds(mode: u32)
    ensures
        (mode | EXECUTE_BITS) & EXECUTE_BITS == EXECUTE_BITS,
        (mode | EXECUTE_BITS) & !EXECUTE_BITS == mode & !EXECUTE_BITS,
        (mode | EXECUTE_BITS) | EXECUTE_BITS == mode | EXECUTE_BITS,
{
    assert((mode | 0b001001001) & 0b001001001 == 0b001001001) by (bit_vector);
    assert((mode | 0b001001001) & !0b001001001 == mode & !0b001001001) by (bit_vector);
    assert((mode | 0b001001001) | 0b001001001 == mode | 0b001001001) by (bit_vector);
}

/// There are servers for three systems on two processors each. The name of a platform is that of the
/// system and that of the processor, with a hyphen between them; no two platforms share a name.
pub proof fn platforms_have_names_of_their_own(
    os: Seq<char>,
    arch: Seq<char>,
    other_os: Seq<char>,
    other_arch: Seq<char>,
)
    ensures
        platform_name(os, arch) is Some <==> (os == "linux"@ || os == "macos"@ || os == "windows"@)
            && (arch == "x86_64"@ || arch == "aarch64"@),
        platform_name(os, arch) matches Some(name) ==> name == (if os == "macos"@ {
            "osx"@
        } else {
            os
        }) + "-"@ + (if arch == "x86_64"@ {
            "x64"@
        } else {
            "arm64"@
        }),
        platform_name(os, arch) is Some && platform_name(os, arch) == platform_name(
            other_os,
            other_arch,
        ) ==> os == other_os && arch == other_arch,
{
    reveal_strlit("linux");
    reveal_strlit("macos");
    reveal_strlit("windows");
    reveal_strlit("x86_64");
    reveal_strlit("aarch64");
    reveal_strlit("osx");
    reveal_strlit("-");
    reveal_strlit("x64");
    reveal_strlit("arm64");
    reveal_strlit("linux-x64");
    reveal_strlit("osx-x64");
    reveal_strlit("windows-x64");
    reveal_strlit("linux-arm64");
    reveal_strlit("osx-arm64");
    reveal_strlit("windows-arm64");
    assert("linux-x64"@ =~= "linux"@ + "-"@ + "x64"@);
    assert("osx-x64"@ =~= "osx"@ + "-"@ + "x64"@);
    assert("windows-x64"@ =~= "windows"@ + "-"@ + "x64"@);
    assert("linux-arm64"@ =~= "linux"@ + "-"@ + "arm64"@);
    assert("osx-arm64"@ =~= "osx"@ + "-"@ + "arm64"@);
    assert("windows-arm64"@ =~= "windows"@ + "-"@ + "arm64"@);
    assert("linux"@[0] == 'l' && "macos"@[0] == 'm' && "windows"@[0] == 'w');
    assert("x86_64"@[0] == 'x' && "aarch64"@[0] == 'a');
    assert("linux-x64"@.len() == 9 && "linux-arm64"@.len() == 11);
    assert("osx-x64"@.len() == 7 && "osx-arm64"@.len() == 9);
    assert("windows-x64"@.len() == 11 && "windows-arm64"@.len() == 13);
    assert("linux-x64"@[0] == 'l' && "linux-arm64"@[0] == 'l');
    assert("osx-x64"@[0] == 'o' && "osx-arm64"@[0] == 'o');
    assert("windows-x64"@[0] == 'w' && "windows-arm64"@[0] == 'w');
}

/// Of the bits of a mode, exactly the three that let owner, group and others run the file are set,
/// and all others stay as they are.
pub proof fn execute_bits_are_three(mode: u32, bit: u32)
    requires
        bit < 32,
    ensures
        ((mode | EXECUTE_BITS) >> bit) & 1 == (if bit == 0 || bit == 3 || bit == 6 {
            1u32
        } else {
            (mode >> bit) & 1
        }),
{
    assert(((mode | 0b001001001) >> bit) & 1 == (if bit == 0 || bit == 3 || bit == 6 {
        1u32
    } else {
        (mode >> bit) & 1
    })) by (bit_vector)
        requires
            bit < 32,
    ;
}

} // verus!
