//! Finding the tools of the Java development kit.

use crate::compile::copy_strings;
use crate::error::BuildError;
use crate::paths::join;
use crate::paths::joined_path;
use crate::target::HostPlatform;
use crate::text::chars_of;
use crate::text::concat2;
use crate::text::contains;
use crate::text::contains_text;
use crate::text::lemma_texts_push;
use crate::text::slice_of;
use crate::text::string_of;
use crate::text::texts;
use crate::util::probed_absent;
use vstd::prelude::*;

verus! {

/// The file name of the tool `tool` on `host`.
pub fn java_executable_name(host: HostPlatform, tool: &str) -> (res: String)
    ensures
        res@ == tool@ + host.exe_suffix_text(),
{
    concat2(tool, host.exe_suffix())
}

/// The place of an executable under the Java home.
pub open spec fn java_home_executable(java_home: Seq<char>, name: Seq<char>) -> Seq<char> {
    joined_path(joined_path(java_home, "bin"@), name)
}

/// The directories in which the search for an executable looks: those of
/// the search path, then the `bin` directory under the Java home, if set.
pub open spec fn searched_directories(search_path: Seq<Seq<char>>, java_home: Option<&str>) -> Seq<
    Seq<char>,
> {
    search_path + match java_home {
        Some(home) => seq![joined_path(home@, "bin"@)],
        None => seq![],
    }
}

/// Find an executable that is part of the Java development kit: under the
/// first directory of the search path where the probe finds it, else under
/// the Java home, if that is set and the probe finds it there. The failure
/// names the executable and the directories searched.
pub fn find_java_executable<P: Fn(&String) -> bool>(
    name: &str,
    search_path: &Vec<String>,
    java_home: Option<&str>,
    probe: P,
) -> (res: Result<String, BuildError>)
    requires
        forall|path: &String| probe.requires((path,)),
    ensures
        match res {
            Ok(found) => probe.ensures((&found,), true) && ((exists|k: int|
                0 <= k < search_path@.len() && found@ == joined_path(
                    (#[trigger] search_path@[k])@,
                    name@,
                ) && forall|j: int|
                    0 <= j < k ==> probed_absent(
                        probe,
                        joined_path((#[trigger] search_path@[j])@, name@),
                    )) || (java_home matches Some(home) && found@ == java_home_executable(
                home@,
                name@,
            ) && forall|j: int|
                0 <= j < search_path@.len() ==> probed_absent(
                    probe,
                    joined_path((#[trigger] search_path@[j])@, name@),
                ))),
            Err(BuildError::JavaExecutableNotFound { name: missing, searched }) => missing@
                == name@ && texts(searched@) == searched_directories(texts(search_path@), java_home)
                && (forall|j: int|
                0 <= j < search_path@.len() ==> probed_absent(
                    probe,
                    joined_path((#[trigger] search_path@[j])@, name@),
                )) && match java_home {
                Some(home) => probed_absent(probe, java_home_executable(home@, name@)),
                None => true,
            },
            Err(_) => false,
        },
{
    let mut i: usize = 0;
    while i < search_path.len()
        invariant
            i <= search_path@.len(),
            forall|path: &String| probe.requires((path,)),
            forall|j: int|
                0 <= j < i ==> probed_absent(
                    probe,
                    joined_path((#[trigger] search_path@[j])@, name@),
                ),
        decreases search_path@.len() - i,
    {
        let candidate = join(search_path[i].as_str(), name);
        if probe(&candidate) {
            return Ok(candidate);
        }
        assert(probed_absent(probe, joined_path(search_path@[i as int]@, name@)));
        i += 1;
    }
    let mut searched = copy_strings(search_path);
    match java_home {
        Some(home) => {
            let bin = join(home, "bin");
            let candidate = join(bin.as_str(), name);
            if probe(&candidate) {
                return Ok(candidate);
            }
            assert(probed_absent(probe, java_home_executable(home@, name@)));
            proof {
                lemma_texts_push(searched@, bin);
                assert(texts(searched@).push(bin@) =~= texts(search_path@) + seq![bin@]);
            }
            searched.push(bin);
        },
        None => {
            proof {
                assert(texts(searched@) =~= texts(search_path@) + Seq::<Seq<char>>::empty());
            }
        },
    }
    Err(BuildError::JavaExecutableNotFound { name: name.to_owned(), searched })
}

/// The runtime archive that a line of the virtual machine's verbose output
/// names, if it names one: a line that tells of an opened `rt.jar`, without
/// its first eight characters and its last one.
pub open spec fn rt_jar_in_line(line: Seq<char>) -> Option<Seq<char>> {
    if contains(line, "Opened"@) && contains(line, "rt.jar"@) {
        if line.len() >= 9 {
            Some(line.subrange(8, line.len() - 1))
        } else {
            Some(seq![])
        }
    } else {
        None
    }
}

/// The runtime archive that the last of `lines` to name one names.
pub open spec fn rt_jar_in(lines: Seq<Seq<char>>) -> Option<Seq<char>>
    decreases lines.len(),
{
    if lines.len() == 0 {
        None
    } else {
        match rt_jar_in_line(lines.last()) {
            Some(path) => Some(path),
            None => rt_jar_in(lines.drop_last()),
        }
    }
}

/// Finds the runtime archive in the lines that the virtual machine printed
/// when run verbosely.
pub fn find_rt_jar(lines: &Vec<String>) -> (res: Option<String>)
    ensures
        match res {
            Some(path) => rt_jar_in(texts(lines@)) == Some(path@),
            None => rt_jar_in(texts(lines@)) is None,
        },
{
    let opened = chars_of("Opened");
    let archive = chars_of("rt.jar");
    let mut res: Option<String> = None;
    proof {
        assert(texts(lines@).take(0) =~= seq![]);
    }
    let mut i: usize = 0;
    while i < lines.len()
        invariant
            i <= lines@.len(),
            opened@ == "Opened"@,
            archive@ == "rt.jar"@,
            match res {
                Some(path) => rt_jar_in(texts(lines@).take(i as int)) == Some(path@),
                None => rt_jar_in(texts(lines@).take(i as int)) is None,
            },
        decreases lines@.len() - i,
    {
        proof {
            assert(texts(lines@).take(i + 1).drop_last() =~= texts(lines@).take(i as int));
            assert(texts(lines@).take(i + 1).last() == lines@[i as int]@);
        }
        let line = chars_of(lines[i].as_str());
        if contains_text(&line, &opened) && contains_text(&line, &archive) {
            if line.len() >= 9 {
                res = Some(string_of(&slice_of(&line, 8, line.len() - 1)));
            } else {
                let path = String::new();
                assert(path@ =~= seq![]);
                res = Some(path);
            }
        }
        i += 1;
    }
    proof {
        assert(texts(lines@).take(lines@.len() as int) =~= texts(lines@));
    }
    res
}

} // verus!
