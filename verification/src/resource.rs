//! Where a resource file that an object names is found: inside its bundle for an
//! `archive:/` path, else in a list of directories tried in order.
use vstd::prelude::*;
use vstd::utf8::encode_utf8;

use crate::serialized_file::SerializedFile;
use crate::text::{
    bytes_start_with, decimal, decimal_string, path_components, seq_starts_with, split_path, string_bytes, strings_view,
};
use crate::type_tree::convert::string_is;
use crate::unityfs::{find_node, UnityFS, UnityFSNode};

verus! {

/// The last component of a path that names a file: `.` components are skipped, and
/// a path ending in `..` names none.
pub open spec fn last_file_component(comps: Seq<Seq<char>>) -> Option<Seq<char>>
    decreases comps.len(),
{
    if comps.len() == 0 {
        None
    } else if comps.last() == "."@ {
        last_file_component(comps.drop_last())
    } else if comps.last() == ".."@ {
        None
    } else {
        Some(comps.last())
    }
}

/// The file name of a `/`-separated path.
pub open spec fn file_name_of(path: Seq<char>) -> Option<Seq<char>> {
    last_file_component(path_components(path))
}

/// The bytes of `archive:/`.
pub open spec fn archive_prefix() -> Seq<u8> {
    seq![97u8, 114u8, 99u8, 104u8, 105u8, 118u8, 101u8, 58u8, 47u8]
}

/// Whether a path names a file inside the bundle.
pub open spec fn is_archive_path(path: Seq<char>) -> bool {
    seq_starts_with(encode_utf8(path), archive_prefix())
}

/// The file name of a `/`-separated path, as `Path::file_name` gives it.
pub fn file_name(path: &String) -> (r: Option<String>)
    ensures
        match file_name_of(path@) {
            Some(n) => r matches Some(s) && s@ == n,
            None => r is None,
        },
{
    let comps = split_path(path.as_str());
    let ghost cv = strings_view(comps@);
    let mut k: usize = comps.len();
    assert(cv.take(k as int) =~= cv);
    while k > 0
        invariant
            k <= comps@.len(),
            cv == strings_view(comps@),
            cv == path_components(path@),
            last_file_component(cv) == last_file_component(cv.take(k as int)),
        decreases k,
    {
        let ghost t = cv.take(k as int);
        assert(t.drop_last() =~= cv.take(k - 1));
        assert(t.last() == comps@[k - 1]@);
        if string_is(&comps[k - 1], ".") {
            k = k - 1;
        } else if string_is(&comps[k - 1], "..") {
            return None;
        } else {
            return Some(comps[k - 1].clone());
        }
    }
    None
}

fn is_archive(path: &String) -> (r: bool)
    ensures
        r == is_archive_path(path@),
{
    let prefix: [u8; 9] = [97u8, 114u8, 99u8, 104u8, 105u8, 118u8, 101u8, 58u8, 47u8];
    assert(prefix@ =~= archive_prefix());
    bytes_start_with(string_bytes(path), &prefix)
}

/// Where a resource file is looked for.
#[derive(Debug)]
pub enum ResourceLocation {
    /// The path names no file.
    NoFileName,
    /// An `archive:/` path: a reader over the file of that name in the bundle; `None`
    /// when there is no bundle or it holds no such file.
    Archive(Option<UnityFSNode>),
    /// Any other path: the file of that name in each of `dirs`, tried in order.
    Directories { file_name: String, dirs: Vec<String> },
}

/// The directories to try, in order: the given search path, the serialized file's,
/// the bundle's, and the working directory.
pub open spec fn search_dirs(
    search_path: Option<Seq<char>>,
    file_dir: Option<Seq<char>>,
    bundle_dir: Option<Seq<char>>,
) -> Seq<Seq<char>> {
    let a: Seq<Seq<char>> = match search_path {
        Some(p) => seq![p],
        None => seq![],
    };
    let b: Seq<Seq<char>> = match file_dir {
        Some(p) => seq![p],
        None => seq![],
    };
    let c: Seq<Seq<char>> = match bundle_dir {
        Some(p) => seq![p],
        None => seq![],
    };
    a + b + c + seq!["."@]
}

pub open spec fn opt_view(s: Option<String>) -> Option<Seq<char>> {
    match s {
        Some(t) => Some(t@),
        None => None,
    }
}

fn push_some(out: &mut Vec<String>, s: Option<&String>)
    ensures
        strings_view(final(out)@) == strings_view(old(out)@) + match s {
            Some(t) => seq![t@],
            None => Seq::<Seq<char>>::empty(),
        },
{
    let ghost before = out@;
    if let Some(t) = s {
        out.push(t.clone());
        assert(strings_view(out@) =~= strings_view(before) + seq![t@]);
    } else {
        assert(strings_view(out@) =~= strings_view(before) + Seq::<Seq<char>>::empty());
    }
}

/// `r` is where the resource file named by `path` is looked for, given the serialized
/// file and bundle that name it and an extra search path.
pub open spec fn location_matches(
    path: Seq<char>,
    serialized_file: Option<SerializedFile>,
    unityfs: Option<UnityFS>,
    search_path: Option<Seq<char>>,
    r: ResourceLocation,
) -> bool {
    match file_name_of(path) {
        None => r is NoFileName,
        Some(name) => if is_archive_path(path) {
            r matches ResourceLocation::Archive(node) && match unityfs {
                None => node is None,
                Some(fs) => match find_node(fs.nodes(), name, 0) {
                    None => node is None,
                    Some(i) => node matches Some(n) && n.wf() && n.node() == fs.nodes()[i]
                        && n.current_position() == 0 && n.file_bytes() == fs.file_bytes(),
                },
            }
        } else {
            r matches ResourceLocation::Directories { file_name, dirs } && file_name@ == name
                && strings_view(dirs@) == search_dirs(
                search_path,
                match serialized_file {
                    Some(f) => opt_view(f.search_path()),
                    None => None,
                },
                match unityfs {
                    Some(fs) => opt_view(fs.search_path()),
                    None => None,
                },
            )
        },
    }
}

/// Where the resource file named by `path` is looked for: inside `unityfs` for an
/// `archive:/` path, else in the directories of `search_dirs`.
pub fn get_resource_location(
    path: &String,
    serialized_file: Option<&SerializedFile>,
    unityfs: Option<&UnityFS>,
    search_path: Option<&String>,
) -> (r: ResourceLocation)
    requires
        unityfs matches Some(fs) ==> fs.wf(),
    ensures
        location_matches(
            path@,
            match serialized_file {
                Some(f) => Some(*f),
                None => None,
            },
            match unityfs {
                Some(fs) => Some(*fs),
                None => None,
            },
            match search_path {
                Some(p) => Some(p@),
                None => None,
            },
            r,
        ),
{
    let name = match file_name(path) {
        Some(n) => n,
        None => return ResourceLocation::NoFileName,
    };
    if is_archive(path) {
        let node = match unityfs {
            Some(fs) => fs.get_file_reader_by_path(&name),
            None => None,
        };
        return ResourceLocation::Archive(node);
    }
    let mut dirs: Vec<String> = Vec::new();
    assert(strings_view(dirs@) =~= Seq::<Seq<char>>::empty());
    push_some(&mut dirs, search_path);
    push_some(&mut dirs, match serialized_file {
        Some(f) => f.get_resource_search_path(),
        None => None,
    });
    push_some(&mut dirs, match unityfs {
        Some(fs) => fs.get_resource_search_path(),
        None => None,
    });
    proof {
        reveal_strlit(".");
    }
    let ghost before = dirs@;
    dirs.push(".".to_owned());
    assert(strings_view(dirs@) =~= strings_view(before) + seq!["."@]);
    ResourceLocation::Directories { file_name: name, dirs }
}

/// For a path that is not inside the bundle, the directories searched are, in order:
/// the extra search path when one is given, the serialized file's own resource
/// directory when it has one, the bundle's when it has one, and last `.`; the file
/// looked for is the path's file name.
pub proof fn lemma_search_order(
    path: Seq<char>,
    serialized_file: Option<SerializedFile>,
    unityfs: Option<UnityFS>,
    search_path: Option<Seq<char>>,
    r: ResourceLocation,
)
    requires
        location_matches(path, serialized_file, unityfs, search_path, r),
        file_name_of(path) is Some,
        !is_archive_path(path),
    ensures
        ({
            let own = match serialized_file {
                Some(f) => opt_view(f.search_path()),
                None => None,
            };
            let bundle = match unityfs {
                Some(fs) => opt_view(fs.search_path()),
                None => None,
            };
            let i_own: int = if search_path is Some { 1int } else { 0int };
            let i_bundle: int = i_own + if own is Some { 1int } else { 0int };
            r matches ResourceLocation::Directories { file_name, dirs } && {
                let d = strings_view(dirs@);
                &&& file_name@ == file_name_of(path)->0
                &&& d.len() == i_bundle + (if bundle is Some { 1int } else { 0int }) + 1
                &&& d.last() == "."@
                &&& (search_path matches Some(p) ==> d[0] == p)
                &&& (own matches Some(p) ==> d[i_own] == p)
                &&& (bundle matches Some(p) ==> d[i_bundle] == p)
            }
        }),
{
}

/// The `i`-th scene file of a player's data directory: `level` and the number.
pub fn level_file_name(i: u32) -> (r: String)
    ensures
        r@ == "level"@ + decimal(i as nat),
{
    let mut s = "level".to_owned();
    let d = decimal_string(i);
    s.append(d.as_str());
    s
}

/// The `i`-th shared assets file of a player's data directory.
pub fn shared_assets_file_name(i: u32) -> (r: String)
    ensures
        r@ == "sharedassets"@ + decimal(i as nat) + ".assets"@,
{
    let mut s = "sharedassets".to_owned();
    let d = decimal_string(i);
    s.append(d.as_str());
    s.append(".assets");
    s
}

/// Where the scan of a player's data directory stands: the scene files `level<i>`, then
/// the shared assets files `sharedassets<i>.assets`, each run up to the first missing
/// file (and at most 255 of each), then the manager files, each where it exists.
#[derive(Debug, Clone, Copy, PartialEq, Eq, Structural)]
pub enum DataDirStep {
    Levels(u32),
    SharedAssets(u32),
    Managers(u32),
    Finished,
}

/// The file the scan tries at `step`; `None` once it is finished.
pub open spec fn spec_data_dir_file(step: DataDirStep) -> Option<Seq<char>> {
    match step {
        DataDirStep::Levels(i) => Some("level"@ + decimal(i as nat)),
        DataDirStep::SharedAssets(i) => Some("sharedassets"@ + decimal(i as nat) + ".assets"@),
        DataDirStep::Managers(k) => if k == 0 {
            Some("resources.assets"@)
        } else if k == 1 {
            Some("globalgamemanagers.assets"@)
        } else if k == 2 {
            Some("globalgamemanagers"@)
        } else {
            None
        },
        DataDirStep::Finished => None,
    }
}

/// The step after `step`, given whether its file was there and opened.
pub open spec fn spec_data_dir_next(step: DataDirStep, opened: bool) -> DataDirStep {
    match step {
        DataDirStep::Levels(i) => if opened && i + 1 < 255 {
            DataDirStep::Levels((i + 1) as u32)
        } else {
            DataDirStep::SharedAssets(0)
        },
        DataDirStep::SharedAssets(i) => if opened && i + 1 < 255 {
            DataDirStep::SharedAssets((i + 1) as u32)
        } else {
            DataDirStep::Managers(0)
        },
        DataDirStep::Managers(k) => if k < 2 {
            DataDirStep::Managers((k + 1) as u32)
        } else {
            DataDirStep::Finished
        },
        DataDirStep::Finished => DataDirStep::Finished,
    }
}

pub fn data_dir_file(step: DataDirStep) -> (r: Option<String>)
    ensures
        match spec_data_dir_file(step) {
            Some(n) => r matches Some(s) && s@ == n,
            None => r is None,
        },
{
    match step {
        DataDirStep::Levels(i) => Some(level_file_name(i)),
        DataDirStep::SharedAssets(i) => Some(shared_assets_file_name(i)),
        DataDirStep::Managers(k) => if k == 0 {
            Some("resources.assets".to_owned())
        } else if k == 1 {
            Some("globalgamemanagers.assets".to_owned())
        } else if k == 2 {
            Some("globalgamemanagers".to_owned())
        } else {
            None
        },
        DataDirStep::Finished => None,
    }
}

pub fn data_dir_next(step: DataDirStep, opened: bool) -> (r: DataDirStep)
    ensures
        r == spec_data_dir_next(step, opened),
{
    match step {
        DataDirStep::Levels(i) => if opened && i < 254 {
            DataDirStep::Levels(i + 1)
        } else {
            DataDirStep::SharedAssets(0)
        },
        DataDirStep::SharedAssets(i) => if opened && i < 254 {
            DataDirStep::SharedAssets(i + 1)
        } else {
            DataDirStep::Managers(0)
        },
        DataDirStep::Managers(k) => if k < 2 {
            DataDirStep::Managers(k + 1)
        } else {
            DataDirStep::Finished
        },
        DataDirStep::Finished => DataDirStep::Finished,
    }
}

} // verus!
