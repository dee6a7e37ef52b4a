//! The built-in wallpapers shipped with the program, looked for in the
//! candidate resource directories.

use vstd::prelude::*;

use crate::files::{check_file, is_plain_file_name, join_path, joins, FileCheck};

verus! {

/// File name of the built-in light wallpaper.
pub const BUILTIN_LIGHT: &'static str = "builtin-light.png";

/// File name of the built-in dark wallpaper.
pub const BUILTIN_DARK: &'static str = "builtin-dark.png";

/// Where the built-in wallpapers were found, if anywhere.
#[derive(Debug, Clone, PartialEq, Eq)]
pub struct BuiltinWallpapers {
    pub light: Option<String>,
    pub dark: Option<String>,
}

/// The path of the first check that found its file, if any.
pub open spec fn first_found(checks: Seq<FileCheck>) -> Option<Seq<char>>
    decreases checks.len(),
{
    if checks.len() == 0 {
        None
    } else if checks[0].found() {
        Some(checks[0].checked())
    } else {
        first_found(checks.drop_first())
    }
}

/// The first check that found its file is taken: the result is the path
/// of a check that found its file, and every check before it found none;
/// there is no result only when no check found its file.
pub proof fn law_first_found_is_the_earliest(checks: Seq<FileCheck>)
    ensures
        first_found(checks) matches Some(p) ==> exists|i: int|
            0 <= i < checks.len() && #[trigger] checks[i].found() && checks[i].checked() == p
                && forall|j: int| 0 <= j < i ==> !(#[trigger] checks[j].found()),
        first_found(checks) is None ==> forall|j: int| 0 <= j < checks.len() ==> !(#[trigger] checks[j].found()),
    decreases checks.len(),
{
    if checks.len() > 0 {
        let rest = checks.drop_first();
        law_first_found_is_the_earliest(rest);
        if checks[0].found() {
            assert(checks[0].found());
        } else {
            if let Some(p) = first_found(rest) {
                let i = choose|i: int|
                    0 <= i < rest.len() && #[trigger] rest[i].found() && rest[i].checked() == p
                        && forall|j: int| 0 <= j < i ==> !(#[trigger] rest[j].found());
                assert(checks[i + 1] == rest[i]);
                assert forall|j: int| 0 <= j < i + 1 implies !(#[trigger] checks[j].found()) by {
                    if j > 0 {
                        assert(checks[j] == rest[j - 1]);
                    }
                }
            } else {
                assert forall|j: int| 0 <= j < checks.len() implies !(#[trigger] checks[j].found()) by {
                    if j > 0 {
                        assert(checks[j] == rest[j - 1]);
                    }
                }
            }
        }
    }
}

/// `res` is what looking for `name` in the directories `candidates` gives:
/// `name` is adjoined to each directory in turn, each of these paths is
/// checked on the file system, and the first path whose file exists is the
/// result (none if no file exists).
pub open spec fn is_resource_lookup(candidates: Seq<String>, name: Seq<char>, res: Option<String>) -> bool {
    exists|checks: Seq<FileCheck>|
        {
            &&& checks.len() == candidates.len()
            &&& forall|k: int|
                0 <= k < checks.len() ==> joins(candidates[k]@, name, #[trigger] checks[k].checked())
            &&& (res is Some <==> first_found(checks) is Some)
            &&& (res matches Some(p) ==> p@ == first_found(checks).unwrap())
        }
}

/// The path of the first check that found its file.
pub fn first_found_path(checks: &Vec<FileCheck>) -> (res: Option<String>)
    ensures
        res is Some <==> first_found(checks@) is Some,
        res matches Some(p) ==> p@ == first_found(checks@).unwrap(),
{
    let mut i: usize = 0;
    assert(checks@.skip(0) =~= checks@);
    while i < checks.len()
        invariant
            i <= checks@.len(),
            first_found(checks@) == first_found(checks@.skip(i as int)),
        decreases checks.len() - i,
    {
        proof {
            assert(checks@.skip(i as int).drop_first() =~= checks@.skip(i + 1));
            assert(checks@.skip(i as int)[0] == checks@[i as int]);
        }
        if checks[i].file_exists() {
            return Some(checks[i].path().clone());
        }
        i = i + 1;
    }
    proof {
        assert(checks@.skip(i as int).len() == 0);
    }
    None
}

/// The path of `name` in the first candidate directory that holds it as a
/// file, as the file system answers at the moment of the call.
pub fn find_resource(candidates: &Vec<String>, name: &str) -> (res: Option<String>)
    requires
        is_plain_file_name(name@),
    ensures
        is_resource_lookup(candidates@, name@, res),
{
    let mut checks: Vec<FileCheck> = Vec::new();
    let mut k: usize = 0;
    while k < candidates.len()
        invariant
            is_plain_file_name(name@),
            k <= candidates@.len(),
            checks@.len() == k,
            forall|j: int|
                0 <= j < k ==> joins(candidates@[j]@, name@, #[trigger] checks@[j].checked()),
        decreases candidates.len() - k,
    {
        let path = join_path(candidates[k].as_str(), name);
        let check = check_file(path.as_str());
        checks.push(check);
        k = k + 1;
    }
    let res = first_found_path(&checks);
    assert(is_resource_lookup(candidates@, name@, res)) by {
        assert(forall|j: int|
            0 <= j < checks@.len() ==> joins(candidates@[j]@, name@, #[trigger] checks@[j].checked()));
    }
    res
}

/// Looks for the built-in light and dark wallpapers in the candidate
/// resource directories, in order.
pub fn builtin_wallpapers(candidates: &Vec<String>) -> (res: BuiltinWallpapers)
    ensures
        is_resource_lookup(candidates@, BUILTIN_LIGHT@, res.light),
        is_resource_lookup(candidates@, BUILTIN_DARK@, res.dark),
{
    proof {
        reveal_strlit("builtin-light.png");
        reveal_strlit("builtin-dark.png");
    }
    let light = find_resource(candidates, BUILTIN_LIGHT);
    let dark = find_resource(candidates, BUILTIN_DARK);
    BuiltinWallpapers { light, dark }
}

} // verus!
