//! Commands for the device bridge.

use crate::config::AndroidConfig;
use crate::package::BuildResult;
use crate::package::CommandText;
use crate::package::ToolCommand;
use crate::package::unit_before;
use crate::paths::join;
use crate::paths::joined_path;
use crate::text::concat3;
use crate::text::texts;
use vstd::prelude::*;

verus! {

/// The path of the device bridge.
pub open spec fn adb_path(config: AndroidConfig) -> Seq<char> {
    joined_path(config.sdk_path@, "platform-tools/adb"@)
}

/// The command that installs the package at `apk_path`, replacing an
/// installed one.
pub open spec fn install_command(config: AndroidConfig, apk_path: Seq<char>) -> CommandText {
    CommandText { program: adb_path(config), args: seq!["install"@, "-r"@, apk_path], cwd: None }
}

/// The commands that install every package of `build_result` on the device,
/// one for each entry, in the order of the units: by kind, then by name.
pub fn install(config: &AndroidConfig, build_result: &BuildResult) -> (res: Vec<ToolCommand>)
    requires
        build_result.wf(),
    ensures
        res@.len() == build_result.target_to_apk_map@.len(),
        forall|i: int|
            0 <= i < res@.len() ==> (#[trigger] res@[i])@ == install_command(
                *config,
                build_result.target_to_apk_map@[i].path@,
            ),
        forall|i: int, j: int|
            0 <= i < j < res@.len() ==> unit_before(
                (#[trigger] build_result.target_to_apk_map@[i]).kind,
                build_result.target_to_apk_map@[i].name@,
                (#[trigger] build_result.target_to_apk_map@[j]).kind,
                build_result.target_to_apk_map@[j].name@,
            ),
{
    let entries = &build_result.target_to_apk_map;
    let mut res: Vec<ToolCommand> = Vec::new();
    let mut i: usize = 0;
    while i < entries.len()
        invariant
            i <= entries@.len(),
            entries@ == build_result.target_to_apk_map@,
            res@.len() == i,
            forall|k: int|
                0 <= k < i ==> (#[trigger] res@[k])@ == install_command(
                    *config,
                    entries@[k].path@,
                ),
        decreases entries@.len() - i,
    {
        let mut args: Vec<String> = Vec::new();
        args.push("install".to_owned());
        args.push("-r".to_owned());
        args.push(entries[i].path.clone());
        proof {
            assert(texts(args@) =~= seq!["install"@, "-r"@, entries@[i as int].path@]);
        }
        res.push(
            ToolCommand {
                program: join(config.sdk_path.as_str(), "platform-tools/adb"),
                args,
                cwd: None,
            },
        );
        i += 1;
    }
    res
}

/// The message that tells of the installation of the package with the file
/// name `apk_file_name`.
pub fn install_message(apk_file_name: &str) -> (res: String)
    ensures
        res@ == "Installing apk '"@ + apk_file_name@ + "' to the device"@,
{
    concat3("Installing apk '", apk_file_name, "' to the device")
}

/// The command that streams the device's log.
pub fn logcat(config: &AndroidConfig) -> (res: ToolCommand)
    ensures
        res@ == (CommandText { program: adb_path(*config), args: seq!["logcat"@], cwd: None }),
{
    let mut args: Vec<String> = Vec::new();
    args.push("logcat".to_owned());
    proof {
        assert(texts(args@) =~= seq!["logcat"@]);
    }
    ToolCommand { program: join(config.sdk_path.as_str(), "platform-tools/adb"), args, cwd: None }
}

} // verus!
