//! A view over many bundles and serialized files: which file a path names, and the
//! asset names that bundles and resource managers give their objects.
use std::collections::BTreeMap;
use vstd::prelude::*;

use crate::error::ReadError;
use crate::keyed::{assoc_find, assoc_get, assoc_put, assoc_set, id_map_get, id_map_insert, lemma_assoc_index, lemma_assoc_put};
use crate::resource::{get_resource_location, location_matches, ResourceLocation};
use crate::serialized_file::{spec_read_content, tt_object_matches, SerializedFile};
use crate::text::strings_view;
use crate::containers::{
    all_named_refs, containers_in, lemma_all_named_refs_one, containers_view, file_containers, lemma_file_containers, manager_lists,
    ContainerEntryView, lemma_root_containers, name_map,
    named_refs, names_match, recorded_lists, refs_view, ContainerEntry, RESOURCE_MANAGER_CLASS_ID,
};
use crate::containers::path_id_at;
use crate::type_tree::convert::{cast_matches, lemma_strings_view_add, spec_cast_at, TryCastFrom};
use crate::type_tree::{TypeTreeObject, TypeTreeObjectRef};
use crate::unityfs::{
    block_starts_fit, cab_paths, find_node, spec_file_by_node, spec_unityfs_file, UnityFS, UnityFSFileView,
};

verus! {

/// Where `k` last occurs in `paths`.
pub open spec fn last_index_of(paths: Seq<Seq<char>>, k: Seq<char>) -> Option<int>
    decreases paths.len(),
{
    if paths.len() == 0 {
        None
    } else if paths.last() == k {
        Some(paths.len() - 1)
    } else {
        last_index_of(paths.drop_last(), k)
    }
}

/// The serialized file id a name has after a bundle's cab files `paths` got ids from
/// `base` on, in order: a later cab file of the same name replaces an earlier one.
pub open spec fn cab_id_after(old_cabs: Seq<(String, i64)>, paths: Seq<Seq<char>>, base: int, k: Seq<char>) -> Option<i64> {
    match last_index_of(paths, k) {
        Some(j) => Some((base + j) as i64),
        None => assoc_get(old_cabs, k),
    }
}

/// The contents of the file at `path` of the bundle with header `h` in `file`.
#[verifier::opaque]
pub open spec fn spec_bundle_file_data(h: UnityFSFileView, file: Seq<u8>, path: Seq<char>) -> Result<
    Seq<u8>,
    ReadError,
> {
    match find_node(h.blocks_info.directory_info, path, 0) {
        None => Err(ReadError::NotFound),
        Some(i) => spec_file_by_node(h.blocks_info.storage_blocks, file, h.position, h.blocks_info.directory_info[i]),
    }
}

/// The error met opening the cab file `path` of that bundle as a serialized file with
/// id `id`: the file cannot be had, no id is left, or it is no serialized file.
#[verifier::opaque]
pub open spec fn cab_error(h: UnityFSFileView, file: Seq<u8>, path: Seq<char>, id: int) -> Option<ReadError> {
    match spec_bundle_file_data(h, file, path) {
        Err(e) => Some(e),
        Ok(d) => if id >= i64::MAX {
            Some(ReadError::Overflow)
        } else {
            match spec_read_content(d) {
                Err(e) => Some(e),
                Ok(_) => None,
            }
        },
    }
}

/// The first error met opening the cab files `paths` of that bundle, in order, with
/// ids from `base` on; `None` when all of them open.
#[verifier::opaque]
pub open spec fn cabs_error(h: UnityFSFileView, file: Seq<u8>, paths: Seq<Seq<char>>, base: int) -> Option<
    ReadError,
>
    decreases paths.len(),
{
    if paths.len() == 0 {
        None
    } else {
        match cabs_error(h, file, paths.drop_last(), base) {
            Some(e) => Some(e),
            None => cab_error(h, file, paths.last(), base + paths.len() - 1),
        }
    }
}

/// Opening one more cab file after `n` that opened.
proof fn lemma_cabs_error_next(h: UnityFSFileView, file: Seq<u8>, paths: Seq<Seq<char>>, base: int, n: int)
    requires
        0 <= n < paths.len(),
        cabs_error(h, file, paths.take(n), base) is None,
    ensures
        cabs_error(h, file, paths.take(n + 1), base) == cab_error(h, file, paths[n], base + n),
{
    reveal(cabs_error);
    assert(paths.take(n + 1).drop_last() =~= paths.take(n));
    assert(paths.take(n + 1).last() == paths[n]);
}

/// An error met on the first `n` cab files is the error met on all of them.
proof fn lemma_cabs_error_prefix(h: UnityFSFileView, file: Seq<u8>, paths: Seq<Seq<char>>, base: int, n: int)
    requires
        0 <= n <= paths.len(),
        cabs_error(h, file, paths.take(n), base) is Some,
    ensures
        cabs_error(h, file, paths, base) == cabs_error(h, file, paths.take(n), base),
    decreases paths.len(),
{
    reveal(cabs_error);
    if n < paths.len() {
        assert(paths.drop_last().take(n) =~= paths.take(n));
        lemma_cabs_error_prefix(h, file, paths.drop_last(), base, n);
    } else {
        assert(paths.take(n) =~= paths);
    }
}

/// The references listed under the name `k`, none when there is no such name.
pub open spec fn list_of(c: Seq<(String, Vec<(i64, TypeTreeObjectRef)>)>, k: Seq<char>) -> Seq<
    (i64, TypeTreeObjectRef),
> {
    match assoc_get(c, k) {
        Some(v) => v@,
        None => seq![],
    }
}

/// Bundles and serialized files opened together.
#[derive(Debug)]
pub struct UnityAssetViewer {
    cab_maps: Vec<(String, i64)>,
    serialized_file_map: BTreeMap<i64, SerializedFile>,
    serialized_file_count: i64,
    unity_fs_map: BTreeMap<i64, UnityFS>,
    unity_fs_count: i64,
    serialized_file_to_unity_fs_map: BTreeMap<i64, i64>,
    container_maps: Vec<(String, Vec<(i64, TypeTreeObjectRef)>)>,
    container_name_maps: BTreeMap<i64, BTreeMap<i64, String>>,
}

impl UnityAssetViewer {
    /// File names (of cab files and of files in a data directory) and their
    /// serialized file ids.
    pub closed spec fn cabs(&self) -> Seq<(String, i64)> {
        self.cab_maps@
    }

    pub closed spec fn files(&self) -> Map<i64, SerializedFile> {
        self.serialized_file_map@
    }

    pub closed spec fn file_count(&self) -> i64 {
        self.serialized_file_count
    }

    pub closed spec fn bundles(&self) -> Map<i64, UnityFS> {
        self.unity_fs_map@
    }

    pub closed spec fn bundle_count(&self) -> i64 {
        self.unity_fs_count
    }

    /// The bundle each serialized file came from.
    pub closed spec fn file_bundles(&self) -> Map<i64, i64> {
        self.serialized_file_to_unity_fs_map@
    }

    /// For each asset name, the files and references that give it.
    pub closed spec fn containers(&self) -> Seq<(String, Vec<(i64, TypeTreeObjectRef)>)> {
        self.container_maps@
    }

    /// For each serialized file, the asset names of its objects by path id.
    pub closed spec fn container_names(&self) -> Map<i64, BTreeMap<i64, String>> {
        self.container_name_maps@
    }

    /// Every bundle kept is well formed.
    pub closed spec fn wf(&self) -> bool {
        forall|k: i64| #[trigger] self.unity_fs_map@.contains_key(k) ==> self.unity_fs_map@[k].wf()
    }

    pub fn new() -> (r: UnityAssetViewer)
        ensures
            r.wf(),
            r.cabs() == Seq::<(String, i64)>::empty(),
            r.files() == Map::<i64, SerializedFile>::empty(),
            r.file_count() == 0,
            r.bundles() == Map::<i64, UnityFS>::empty(),
            r.bundle_count() == 0,
            r.file_bundles() == Map::<i64, i64>::empty(),
            r.containers() == Seq::<(String, Vec<(i64, TypeTreeObjectRef)>)>::empty(),
            r.container_names() == Map::<i64, BTreeMap<i64, String>>::empty(),
    {
        UnityAssetViewer {
            cab_maps: Vec::new(),
            serialized_file_map: BTreeMap::new(),
            serialized_file_count: 0,
            unity_fs_map: BTreeMap::new(),
            unity_fs_count: 0,
            serialized_file_to_unity_fs_map: BTreeMap::new(),
            container_maps: Vec::new(),
            container_name_maps: BTreeMap::new(),
        }
    }

    /// Appends a reference to the files giving `name`.
    fn push_container(&mut self, name: &String, id: i64, pptr: TypeTreeObjectRef)
        ensures
            forall|k: Seq<char>| #![trigger assoc_get(final(self).containers(), k)]
                k != name@ ==> assoc_get(final(self).containers(), k) == assoc_get(
                    old(self).containers(),
                    k,
                ),
            ({
                let before = match assoc_get(old(self).containers(), name@) {
                    Some(v) => v@,
                    None => seq![],
                };
                assoc_get(final(self).containers(), name@) matches Some(v) && v@ == before.push(
                    (id, pptr),
                )
            }),
            final(self).cabs() == old(self).cabs(),
            final(self).files() == old(self).files(),
            final(self).file_count() == old(self).file_count(),
            final(self).bundles() == old(self).bundles(),
            final(self).bundle_count() == old(self).bundle_count(),
            final(self).file_bundles() == old(self).file_bundles(),
            final(self).container_names() == old(self).container_names(),
    {
        proof {
            lemma_assoc_index(self.container_maps@, name@);
        }
        match assoc_find(&self.container_maps, name) {
            Some(i) => {
                let ghost old_list = self.container_maps@;
                let mut entry = self.container_maps.remove(i);
                entry.1.push((id, pptr));
                self.container_maps.insert(i, entry);
                proof {
                    assert(self.container_maps@ =~= old_list.update(i as int, self.container_maps@[i as int]));
                    lemma_assoc_put(old_list, self.container_maps@[i as int].0, self.container_maps@[i as int].1);
                    assert(self.container_maps@ == assoc_put(old_list, self.container_maps@[i as int].0, self.container_maps@[i as int].1));
                }
            },
            None => {
                let ghost old_list = self.container_maps@;
                let mut v = Vec::new();
                v.push((id, pptr));
                let n = name.clone();
                proof {
                    lemma_assoc_put(old_list, n, v);
                }
                self.container_maps.push((n, v));
            },
        }
    }

    /// Records the named assets of file `id`: each name gets the reference, and the
    /// names by path id become the file's container names.
    fn record_containers(&mut self, id: i64, cs: Vec<ContainerEntry>)
        ensures
            final(self).cabs() == old(self).cabs(),
            final(self).files() == old(self).files(),
            final(self).file_count() == old(self).file_count(),
            final(self).bundles() == old(self).bundles(),
            final(self).bundle_count() == old(self).bundle_count(),
            final(self).file_bundles() == old(self).file_bundles(),
            final(self).container_names() == old(self).container_names().insert(id, final(self).container_names()[id]),
            names_match(final(self).container_names()[id]@, name_map(containers_view(cs@))),
            forall|k: Seq<char>| #![trigger list_of(final(self).containers(), k)]
                refs_view(list_of(final(self).containers(), k)) == refs_view(list_of(old(self).containers(), k))
                    + named_refs(containers_view(cs@), k, id),
    {
        let ghost orig = containers_view(cs@);
        let mut names: BTreeMap<i64, String> = BTreeMap::new();
        let mut i: usize = 0;
        let n = cs.len();
        let mut rest = cs;
        proof {
            assert(orig.take(0) =~= seq![]);
            assert(orig.subrange(0, n as int) =~= orig);
            assert(containers_view(rest@) == orig);
            assert(names@ =~= Map::<i64, String>::empty());
        }
        while i < n
            invariant
                i <= n,
                orig.len() == n,
                orig == containers_view(cs@),
                rest@.len() == n - i,
                containers_view(rest@) == orig.subrange(i as int, n as int),
                names_match(names@, name_map(orig.take(i as int))),
                forall|k: Seq<char>| #![trigger list_of(self.containers(), k)]
                    refs_view(list_of(self.containers(), k)) == refs_view(list_of(old(self).containers(), k))
                        + named_refs(orig.take(i as int), k, id),
                self.cabs() == old(self).cabs(),
                self.files() == old(self).files(),
                self.file_count() == old(self).file_count(),
                self.bundles() == old(self).bundles(),
                self.bundle_count() == old(self).bundle_count(),
                self.file_bundles() == old(self).file_bundles(),
                self.container_names() == old(self).container_names(),
            decreases n - i,
        {
            let ghost before = self.containers();
            let ghost names_before = names@;
            let ghost old_rest = rest@;
            let e = rest.remove(0);
            let ghost ev = (e.name@, strings_view(e.pptr.target_path()), e.path_id);
            proof {
                assert(containers_view(old_rest)[0] == ev);
                assert(containers_view(old_rest)[0] == orig.subrange(i as int, n as int)[0]);
                assert(containers_view(rest@) =~= containers_view(old_rest).subrange(1, old_rest.len() as int));
                assert(containers_view(rest@) =~= orig.subrange(i + 1, n as int));
                assert(ev == orig[i as int]);
                assert(orig.take(i + 1).drop_last() =~= orig.take(i as int));
                assert(orig.take(i + 1).last() == orig[i as int]);
            }
            if let Some(p) = e.path_id {
                id_map_insert(&mut names, p, e.name.clone());
                proof {
                    assert(names@.dom() =~= name_map(orig.take(i + 1)).dom());
                }
            }
            let ghost entry = (id, e.pptr);
            self.push_container(&e.name, id, e.pptr);
            proof {
                assert forall|k: Seq<char>| #![trigger list_of(self.containers(), k)]
                    refs_view(list_of(self.containers(), k)) == refs_view(list_of(old(self).containers(), k))
                        + named_refs(orig.take(i + 1), k, id) by {
                    assert(list_of(before, k) == list_of(before, k));
                    if k == ev.0 {
                        assert(list_of(self.containers(), k) == list_of(before, k).push(entry));
                        assert(refs_view(list_of(before, k).push(entry)) =~= refs_view(list_of(before, k)).push(
                            (id, ev.1),
                        ));
                    } else {
                        assert(list_of(self.containers(), k) == list_of(before, k));
                    }
                }
            }
            i = i + 1;
        }
        proof {
            assert(orig.take(n as int) =~= orig);
        }
        assert forall|k: Seq<char>| #![trigger list_of(self.containers(), k)]
            refs_view(list_of(self.containers(), k)) == refs_view(list_of(old(self).containers(), k))
                + named_refs(containers_view(cs@), k, id) by {
            assert(refs_view(list_of(self.containers(), k)) == refs_view(list_of(old(self).containers(), k))
                + named_refs(orig.take(i as int), k, id));
        }
        let ghost cont = self.containers();
        id_map_insert(&mut self.container_name_maps, id, names);
        assert(self.containers() == cont);
        assert forall|k: Seq<char>| #![trigger list_of(self.containers(), k)]
            refs_view(list_of(self.containers(), k)) == refs_view(list_of(old(self).containers(), k))
                + named_refs(containers_view(cs@), k, id) by {
            assert(list_of(self.containers(), k) == list_of(cont, k));
        }
    }
}


/// `after` holds what recording the container lists `lists` of file `id` on `before`
/// gives: the last list's names become the file's container names, and each list's
/// references are appended under their names.
pub open spec fn records(
    before: UnityAssetViewer,
    after: UnityAssetViewer,
    lists: Seq<Seq<ContainerEntryView>>,
    id: i64,
) -> bool {
    &&& after.container_names() == if lists.len() == 0 {
        before.container_names()
    } else {
        before.container_names().insert(id, after.container_names()[id])
    }
    &&& lists.len() > 0 ==> names_match(after.container_names()[id]@, name_map(lists.last()))
    &&& forall|k: Seq<char>| #![trigger list_of(after.containers(), k)]
        refs_view(list_of(after.containers(), k)) == refs_view(list_of(before.containers(), k))
            + all_named_refs(lists, k, id)
}

proof fn lemma_records_none(a: UnityAssetViewer, b: UnityAssetViewer, id: i64)
    requires
        a.containers() == b.containers(),
        a.container_names() == b.container_names(),
    ensures
        records(a, b, Seq::<Seq<ContainerEntryView>>::empty(), id),
{
    assert forall|k: Seq<char>| #![trigger list_of(b.containers(), k)]
        refs_view(list_of(b.containers(), k)) == refs_view(list_of(a.containers(), k))
            + all_named_refs(Seq::<Seq<ContainerEntryView>>::empty(), k, id) by {
        assert(refs_view(list_of(a.containers(), k)) + Seq::<(i64, Seq<Seq<char>>)>::empty() =~= refs_view(
            list_of(a.containers(), k),
        ));
    }
}

proof fn lemma_records_same(
    a: UnityAssetViewer,
    b: UnityAssetViewer,
    c: UnityAssetViewer,
    lists: Seq<Seq<ContainerEntryView>>,
    id: i64,
)
    requires
        records(a, b, lists, id),
        b.containers() == c.containers(),
        b.container_names() == c.container_names(),
    ensures
        records(a, c, lists, id),
{
    assert forall|k: Seq<char>| #![trigger list_of(c.containers(), k)]
        refs_view(list_of(c.containers(), k)) == refs_view(list_of(a.containers(), k))
            + all_named_refs(lists, k, id) by {
        assert(list_of(c.containers(), k) == list_of(b.containers(), k));
    }
}

proof fn lemma_records_push(
    a: UnityAssetViewer,
    b: UnityAssetViewer,
    c: UnityAssetViewer,
    lists: Seq<Seq<ContainerEntryView>>,
    cs: Seq<ContainerEntryView>,
    id: i64,
)
    requires
        records(a, b, lists, id),
        records(b, c, seq![cs], id),
    ensures
        records(a, c, lists.push(cs), id),
{
    assert(lists.push(cs).drop_last() =~= lists);
    assert(seq![cs].drop_last() =~= Seq::<Seq<ContainerEntryView>>::empty());
    assert(c.container_names() =~= a.container_names().insert(id, c.container_names()[id]));
    assert forall|k: Seq<char>| #![trigger list_of(c.containers(), k)]
        refs_view(list_of(c.containers(), k)) == refs_view(list_of(a.containers(), k))
            + all_named_refs(lists.push(cs), k, id) by {
        assert(list_of(b.containers(), k) == list_of(b.containers(), k));
        lemma_all_named_refs_one(cs, k, id);
        assert(refs_view(list_of(b.containers(), k)) == refs_view(list_of(a.containers(), k))
            + all_named_refs(lists, k, id));
        assert(all_named_refs(lists.push(cs), k, id) == all_named_refs(lists, k, id) + named_refs(cs, k, id));
        assert(refs_view(list_of(a.containers(), k)) + all_named_refs(lists, k, id) + named_refs(cs, k, id)
            =~= refs_view(list_of(a.containers(), k)) + (all_named_refs(lists, k, id) + named_refs(cs, k, id)));
    }
}

/// The references the serialized files numbered `base` to `base + n - 1` in `files`
/// record under the name `k`, file after file.
pub open spec fn files_named_refs(files: Map<i64, SerializedFile>, base: int, n: nat, k: Seq<char>) -> Seq<
    (i64, Seq<Seq<char>>),
>
    decreases n,
{
    if n == 0 {
        seq![]
    } else {
        let id = (base + n - 1) as i64;
        files_named_refs(files, base, (n - 1) as nat, k) + all_named_refs(recorded_lists(files[id]), k, id)
    }
}

proof fn lemma_files_named_refs_frame(
    f1: Map<i64, SerializedFile>,
    f2: Map<i64, SerializedFile>,
    base: int,
    n: nat,
    k: Seq<char>,
)
    requires
        forall|j: int| 0 <= j < n ==> #[trigger] f1[(base + j) as i64] == f2[(base + j) as i64],
    ensures
        files_named_refs(f1, base, n, k) == files_named_refs(f2, base, n, k),
    decreases n,
{
    if n > 0 {
        assert(f1[(base + (n - 1)) as i64] == f2[(base + (n - 1)) as i64]);
        lemma_files_named_refs_frame(f1, f2, base, (n - 1) as nat, k);
    }
}

/// `after` holds the container names that the serialized files numbered `base` to
/// `base + n - 1` in `files` record on `before`: each file that gives container lists
/// is named by its last list; every other id keeps what it had.
pub open spec fn files_record_names(
    before: Map<i64, BTreeMap<i64, String>>,
    after: Map<i64, BTreeMap<i64, String>>,
    files: Map<i64, SerializedFile>,
    base: int,
    n: int,
) -> bool {
    &&& forall|j: int|
        0 <= j < n && #[trigger] recorded_lists(files[(base + j) as i64]).len() > 0 ==> after.contains_key(
            (base + j) as i64,
        ) && names_match(
            after[(base + j) as i64]@,
            name_map(recorded_lists(files[(base + j) as i64]).last()),
        )
    &&& forall|key: i64|
        !(base <= key < base + n && recorded_lists(files[key]).len() > 0) ==> (#[trigger] after.contains_key(key)
            == before.contains_key(key) && (before.contains_key(key) ==> after[key] == before[key]))
}

/// One more serialized file opened after `i` of them, numbered from `base` on.
proof fn lemma_files_step(o: UnityAssetViewer, mid: UnityAssetViewer, new: UnityAssetViewer, base: int, i: nat)
    requires
        i64::MIN <= base,
        base + i <= i64::MAX,
        forall|k: Seq<char>| #![trigger list_of(mid.containers(), k)]
            refs_view(list_of(mid.containers(), k)) == refs_view(list_of(o.containers(), k))
                + files_named_refs(mid.files(), base, i, k),
        files_record_names(o.container_names(), mid.container_names(), mid.files(), base, i as int),
        new.files() == mid.files().insert((base + i) as i64, new.files()[(base + i) as i64]),
        records(mid, new, recorded_lists(new.files()[(base + i) as i64]), (base + i) as i64),
    ensures
        forall|k: Seq<char>| #![trigger list_of(new.containers(), k)]
            refs_view(list_of(new.containers(), k)) == refs_view(list_of(o.containers(), k))
                + files_named_refs(new.files(), base, i + 1, k),
        files_record_names(o.container_names(), new.container_names(), new.files(), base, i + 1 as int),
{
    let id = (base + i) as i64;
    let lists = recorded_lists(new.files()[id]);
    assert forall|j: int| 0 <= j < i implies #[trigger] mid.files()[(base + j) as i64] == new.files()[(base
        + j) as i64] by {
        assert((base + j) as i64 != id);
    }
    assert forall|k: Seq<char>| #![trigger list_of(new.containers(), k)]
        refs_view(list_of(new.containers(), k)) == refs_view(list_of(o.containers(), k))
            + files_named_refs(new.files(), base, i + 1, k) by {
        lemma_files_named_refs_frame(mid.files(), new.files(), base, i, k);
        assert(refs_view(list_of(mid.containers(), k)) == refs_view(list_of(o.containers(), k))
            + files_named_refs(mid.files(), base, i, k));
        assert(files_named_refs(new.files(), base, i + 1, k) == files_named_refs(new.files(), base, i, k)
            + all_named_refs(lists, k, id));
        assert(refs_view(list_of(o.containers(), k)) + files_named_refs(new.files(), base, i, k) + all_named_refs(
            lists,
            k,
            id,
        ) =~= refs_view(list_of(o.containers(), k)) + (files_named_refs(new.files(), base, i, k)
            + all_named_refs(lists, k, id)));
    }
    lemma_files_step_names(o, mid, new, base, i);
}

proof fn lemma_files_step_names(o: UnityAssetViewer, mid: UnityAssetViewer, new: UnityAssetViewer, base: int, i: nat)
    requires
        i64::MIN <= base,
        base + i <= i64::MAX,
        files_record_names(o.container_names(), mid.container_names(), mid.files(), base, i as int),
        new.files() == mid.files().insert((base + i) as i64, new.files()[(base + i) as i64]),
        records(mid, new, recorded_lists(new.files()[(base + i) as i64]), (base + i) as i64),
    ensures
        files_record_names(o.container_names(), new.container_names(), new.files(), base, i + 1 as int),
{
    let id = (base + i) as i64;
    let before = o.container_names();
    let m = mid.container_names();
    let a = new.container_names();
    assert forall|j: int|
        0 <= j < i + 1 && #[trigger] recorded_lists(new.files()[(base + j) as i64]).len() > 0 implies a.contains_key(
        (base + j) as i64,
    ) && names_match(a[(base + j) as i64]@, name_map(recorded_lists(new.files()[(base + j) as i64]).last())) by {
        if j < i {
            assert(mid.files()[(base + j) as i64] == new.files()[(base + j) as i64]);
            assert(recorded_lists(mid.files()[(base + j) as i64]).len() > 0);
            assert((base + j) as i64 != id);
        }
    }
    assert forall|key: i64|
        !(base <= key < base + i + 1 && recorded_lists(new.files()[key]).len() > 0) implies (#[trigger] a.contains_key(key)
        == before.contains_key(key) && (before.contains_key(key) ==> a[key] == before[key])) by {
        if key != id {
            assert(new.files()[key] == mid.files()[key]);
            assert(!(base <= key < base + i && recorded_lists(mid.files()[key]).len() > 0));
            assert(m.contains_key(key) == before.contains_key(key));
        } else {
            assert(!(base <= key < base + i && recorded_lists(mid.files()[key]).len() > 0));
            assert(m.contains_key(key) == before.contains_key(key));
        }
    }
}

/// `after` holds what opening the first `n` cab files `names` of a bundle, with file
/// ids from `base` on, does to `before`: their names, their container references and
/// their container names are recorded.
pub open spec fn opened_first(
    before: UnityAssetViewer,
    after: UnityAssetViewer,
    names: Seq<Seq<char>>,
    base: int,
    n: int,
) -> bool {
    &&& forall|k: Seq<char>| #[trigger]
        assoc_get(after.cabs(), k) == cab_id_after(before.cabs(), names.take(n), base, k)
    &&& forall|k: Seq<char>| #![trigger list_of(after.containers(), k)]
        refs_view(list_of(after.containers(), k)) == refs_view(list_of(before.containers(), k))
            + files_named_refs(after.files(), base, n as nat, k)
    &&& files_record_names(before.container_names(), after.container_names(), after.files(), base, n)
}

impl UnityAssetViewer {
    /// Records the named assets of the container of the object with path id `path_id`
    /// of `file`, numbered `id`, when it reads and has one.
    fn record_object(&mut self, id: i64, file: &SerializedFile, path_id: i64, bundle: bool)
        requires
            old(self).wf(),
        ensures
            final(self).wf(),
            final(self).cabs() == old(self).cabs(),
            final(self).files() == old(self).files(),
            final(self).file_count() == old(self).file_count(),
            final(self).bundles() == old(self).bundles(),
            final(self).bundle_count() == old(self).bundle_count(),
            final(self).file_bundles() == old(self).file_bundles(),
            match file_containers(*file, path_id, bundle) {
                None => final(self).containers() == old(self).containers() && final(self).container_names()
                    == old(self).container_names(),
                Some(cs) => records(*old(self), *final(self), seq![cs], id),
            },
    {
        let got = file.get_tt_object_by_path_id(path_id);
        proof {
            lemma_file_containers(*file, path_id, got, bundle);
        }
        if let Ok(Some(object)) = got {
            let root = object.into_ref();
            proof {
                lemma_root_containers(root, bundle);
            }
            if let Some(cs) = containers_in(&root, bundle) {
                let ghost cv = containers_view(cs@);
                self.record_containers(id, cs);
                proof {
                    assert(seq![cv].last() == cv);
                    assert(seq![cv].drop_last() =~= Seq::<Seq<ContainerEntryView>>::empty());
                    assert forall|k: Seq<char>| #![trigger list_of(self.containers(), k)]
                        refs_view(list_of(self.containers(), k)) == refs_view(list_of(old(self).containers(), k))
                            + all_named_refs(seq![cv], k, id) by {
                        lemma_all_named_refs_one(cv, k, id);
                    }
                }
            }
        }
    }
}

impl UnityAssetViewer {
    /// Opens a serialized file from its bytes under the next serialized file id, and
    /// records the asset names its asset bundle (path id 1) and then its resource
    /// managers, by increasing path id, give. The id is used up even when the file
    /// cannot be read.
    pub fn add_serialized_file(&mut self, data: Vec<u8>, resource_search_path: Option<String>) -> (r:
        Result<i64, ReadError>)
        requires
            old(self).wf(),
        ensures
            final(self).wf(),
            old(self).file_count() == i64::MAX ==> r == Err::<i64, ReadError>(ReadError::Overflow)
                && *final(self) == *old(self),
            old(self).file_count() < i64::MAX ==> final(self).file_count() == old(self).file_count() + 1,
            old(self).file_count() < i64::MAX ==> match spec_read_content(data@) {
                Err(e) => r == Err::<i64, ReadError>(e) && final(self).files() == old(self).files()
                    && final(self).containers() == old(self).containers() && final(self).container_names()
                    == old(self).container_names(),
                Ok(c) => r == Ok::<i64, ReadError>(old(self).file_count()) && final(self).files()
                    == old(self).files().insert(old(self).file_count(), final(self).files()[old(self).file_count()])
                    && final(self).files()[old(self).file_count()].content() == c
                    && final(self).files()[old(self).file_count()].file_bytes() == data@
                    && final(self).files()[old(self).file_count()].spec_serialized_file_id() == old(
                    self,
                ).file_count() && final(self).files()[old(self).file_count()].search_path()
                    == resource_search_path,
            },
            final(self).cabs() == old(self).cabs(),
            final(self).bundles() == old(self).bundles(),
            final(self).bundle_count() == old(self).bundle_count(),
            final(self).file_bundles() == old(self).file_bundles(),
            final(self).container_names().dom().subset_of(
                old(self).container_names().dom().insert(old(self).file_count()),
            ),
            forall|k: i64|
                k != old(self).file_count() && #[trigger] old(self).container_names().contains_key(k)
                    ==> final(self).container_names().contains_key(k) && final(self).container_names()[k]
                    == old(self).container_names()[k],
            r matches Ok(id) ==> id == old(self).file_count() && final(self).files().contains_key(id)
                && final(self).files()[id].spec_serialized_file_id() == id,
            r is Err ==> final(self).files() == old(self).files() && final(self).cabs() == old(self).cabs()
                && final(self).containers() == old(self).containers() && final(self).container_names()
                == old(self).container_names(),
            r is Ok ==> ({
                let id = old(self).file_count();
                let lists = recorded_lists(final(self).files()[id]);
                &&& final(self).container_names() == if lists.len() == 0 {
                    old(self).container_names()
                } else {
                    old(self).container_names().insert(id, final(self).container_names()[id])
                }
                &&& lists.len() > 0 ==> names_match(final(self).container_names()[id]@, name_map(lists.last()))
                &&& forall|k: Seq<char>| #![trigger list_of(final(self).containers(), k)]
                    refs_view(list_of(final(self).containers(), k)) == refs_view(list_of(old(self).containers(), k))
                        + all_named_refs(lists, k, id)
            }),
    {
        let id = self.serialized_file_count;
        if id == i64::MAX {
            return Err(ReadError::Overflow);
        }
        self.serialized_file_count = id + 1;
        let file = SerializedFile::read(data, id, resource_search_path)?;
        let ghost start = *self;
        self.record_object(id, &file, 1, true);
        let ghost first = match file_containers(file, 1, true) {
            Some(cs) => seq![cs],
            None => Seq::<Seq<ContainerEntryView>>::empty(),
        };
        let ids = crate::keyed::id_map_keys(file.get_object_map());
        let mut i: usize = 0;
        proof {
            assert(ids@.take(0) =~= Seq::<i64>::empty());
            assert(first + manager_lists(file, ids@.take(0)) =~= first);
            if first.len() == 0 {
                lemma_records_none(start, *self, id);
            }
        }
        while i < ids.len()
            invariant
                i <= ids@.len(),
                ids@.to_set() == file.object_map_view().dom(),
                crate::keyed::increasing(ids@),
                self.wf(),
                self.file_count() == id + 1,
                self.files() == old(self).files(),
                self.cabs() == old(self).cabs(),
                self.bundles() == old(self).bundles(),
                self.bundle_count() == old(self).bundle_count(),
                self.file_bundles() == old(self).file_bundles(),
                start.containers() == old(self).containers(),
                start.container_names() == old(self).container_names(),
                records(start, *self, first + manager_lists(file, ids@.take(i as int)), id),
            decreases ids.len() - i,
        {
            let path_id = ids[i];
            let is_manager = match crate::keyed::id_map_get(file.get_object_map(), path_id) {
                Some(o) => o.class == RESOURCE_MANAGER_CLASS_ID,
                None => false,
            };
            let ghost done = first + manager_lists(file, ids@.take(i as int));
            let ghost mid = *self;
            proof {
                assert(ids@.take(i + 1).drop_last() =~= ids@.take(i as int));
                assert(ids@.take(i + 1).last() == path_id);
            }
            if is_manager {
                self.record_object(id, &file, path_id, false);
                proof {
                    match file_containers(file, path_id, false) {
                        Some(cs) => {
                            assert(first + manager_lists(file, ids@.take(i + 1)) =~= done.push(cs));
                            lemma_records_push(start, mid, *self, done, cs, id);
                        },
                        None => {
                            assert(first + manager_lists(file, ids@.take(i + 1)) =~= done);
                        },
                    }
                }
            } else {
                assert(first + manager_lists(file, ids@.take(i + 1)) =~= done);
            }
            i = i + 1;
        }
        proof {
            assert(ids@.take(ids@.len() as int) =~= ids@);
            crate::keyed::lemma_sorted_ids(ids@);
            assert(first + manager_lists(file, ids@) == recorded_lists(file));
        }
        let ghost fv = file;
        let ghost before_insert = *self;
        id_map_insert(&mut self.serialized_file_map, id, file);
        assert(self.files()[id] == fv);
        proof {
            lemma_records_same(start, before_insert, *self, recorded_lists(fv), id);
        }
        Ok(id)
    }

    /// Opens a bundle from its bytes under the next bundle id, and opens each of its
    /// cab files as a serialized file, recording its file name and the bundle it came
    /// from.
    pub fn add_bundle_file(&mut self, data: Vec<u8>, resource_search_path: Option<String>) -> (r:
        Result<i64, ReadError>)
        requires
            old(self).wf(),
        ensures
            final(self).wf(),
            match spec_unityfs_file(data@) {
                Err(e) => r == Err::<i64, ReadError>(e) && *final(self) == *old(self),
                Ok(v) => !block_starts_fit(v.blocks_info.storage_blocks) ==> r == Err::<
                    i64,
                    ReadError,
                >(ReadError::Overflow) && *final(self) == *old(self),
            },
            spec_unityfs_file(data@) is Ok && old(self).bundle_count() == i64::MAX ==> r
                == Err::<i64, ReadError>(ReadError::Overflow) && *final(self) == *old(self),
            match spec_unityfs_file(data@) {
                Ok(v) => block_starts_fit(v.blocks_info.storage_blocks) && old(self).bundle_count() < i64::MAX
                    ==> final(self).bundle_count() == old(self).bundle_count() + 1 && match cabs_error(
                    v,
                    data@,
                    cab_paths(v.blocks_info.directory_info),
                    old(self).file_count() as int,
                ) {
                    None => r == Ok::<i64, ReadError>(old(self).bundle_count()),
                    Some(e) => r == Err::<i64, ReadError>(e),
                },
                Err(_) => true,
            },
            r is Ok ==> forall|k: Seq<char>| #![trigger list_of(final(self).containers(), k)]
                refs_view(list_of(final(self).containers(), k)) == refs_view(list_of(old(self).containers(), k))
                    + files_named_refs(
                    final(self).files(),
                    old(self).file_count() as int,
                    (final(self).file_count() - old(self).file_count()) as nat,
                    k,
                ),
            r is Ok ==> files_record_names(
                old(self).container_names(),
                final(self).container_names(),
                final(self).files(),
                old(self).file_count() as int,
                final(self).file_count() - old(self).file_count(),
            ),
            match spec_unityfs_file(data@) {
                Ok(v) => block_starts_fit(v.blocks_info.storage_blocks) && old(self).bundle_count() < i64::MAX
                    && r is Err ==> final(self).bundles() == old(self).bundles() && exists|n: int|
                    0 <= n < cab_paths(v.blocks_info.directory_info).len() && cabs_error(
                        v,
                        data@,
                        cab_paths(v.blocks_info.directory_info).take(n),
                        old(self).file_count() as int,
                    ) is None && opened_first(
                        *old(self),
                        *final(self),
                        cab_paths(v.blocks_info.directory_info),
                        old(self).file_count() as int,
                        n,
                    ),
                Err(_) => true,
            },
            r matches Ok(id) ==> id == old(self).bundle_count() && final(self).bundle_count() == id
                + 1 && final(self).bundles().contains_key(id) && final(self).bundles()[id].file_bytes()
                == data@ && final(self).bundles()[id].search_path() == resource_search_path
                && final(self).file_count() == old(self).file_count() + cab_paths(
                final(self).bundles()[id].nodes(),
            ).len() && forall|k: Seq<char>| #[trigger]
                assoc_get(final(self).cabs(), k) == cab_id_after(
                    old(self).cabs(),
                    cab_paths(final(self).bundles()[id].nodes()),
                    old(self).file_count() as int,
                    k,
                ),
    {
        let fs = UnityFS::read(data, resource_search_path)?;
        let fs_id = self.unity_fs_count;
        if fs_id == i64::MAX {
            return Err(ReadError::Overflow);
        }
        self.unity_fs_count = fs_id + 1;
        let cabs = fs.get_cab_path();
        let ghost start = *self;
        match self.open_cabs(&fs, fs_id, &cabs) {
            Ok(()) => {},
            Err(e) => {
                proof {
                    let n = choose|n: int|
                        0 <= n < cabs@.len() && cabs_error(
                            fs.header(),
                            fs.file_bytes(),
                            strings_view(cabs@).take(n),
                            start.file_count() as int,
                        ) is None && opened_first(start, *self, strings_view(cabs@), start.file_count() as int, n);
                    assert(opened_first(*old(self), *self, strings_view(cabs@), old(self).file_count() as int, n));
                }
                return Err(e);
            },
        }
        let ghost fsv = fs;
        let ghost opened = *self;
        id_map_insert(&mut self.unity_fs_map, fs_id, fs);
        assert(self.bundles()[fs_id] == fsv);
        assert(self.files() == opened.files());
        assert forall|k: Seq<char>| #![trigger list_of(self.containers(), k)]
            refs_view(list_of(self.containers(), k)) == refs_view(list_of(old(self).containers(), k))
                + files_named_refs(
                self.files(),
                old(self).file_count() as int,
                (self.file_count() - old(self).file_count()) as nat,
                k,
            ) by {
            assert(list_of(self.containers(), k) == list_of(opened.containers(), k));
            assert(start.containers() == old(self).containers());
        }
        Ok(fs_id)
    }
}


impl UnityAssetViewer {
    /// Opens the cab file `path` of the bundle `fs` numbered `fs_id` as a serialized
    /// file, recording its name and its bundle.
    fn open_cab(&mut self, fs: &UnityFS, fs_id: i64, path: &String) -> (r: Result<(), ReadError>)
        requires
            old(self).wf(),
            fs.wf(),
        ensures
            final(self).wf(),
            final(self).bundles() == old(self).bundles(),
            final(self).bundle_count() == old(self).bundle_count(),
            match cab_error(fs.header(), fs.file_bytes(), path@, old(self).file_count() as int) {
                None => r is Ok,
                Some(e) => r == Err::<(), ReadError>(e),
            },
            r is Ok ==> final(self).file_count() == old(self).file_count() + 1,
            r is Err ==> final(self).files() == old(self).files() && final(self).cabs() == old(self).cabs()
                && final(self).containers() == old(self).containers() && final(self).container_names()
                == old(self).container_names(),
            r is Ok ==> final(self).files() == old(self).files().insert(
                old(self).file_count(),
                final(self).files()[old(self).file_count()],
            ),
            r is Ok ==> records(
                *old(self),
                *final(self),
                recorded_lists(final(self).files()[old(self).file_count()]),
                old(self).file_count(),
            ),
            r is Ok ==> forall|k: Seq<char>| #[trigger]
                assoc_get(final(self).cabs(), k) == if k == path@ {
                    Some(old(self).file_count())
                } else {
                    assoc_get(old(self).cabs(), k)
                },
    {
        reveal(cab_error);
        let buff = match fs.get_file_data_by_path(path) {
            Ok(b) => b,
            Err(e) => {
                assert(spec_bundle_file_data(fs.header(), fs.file_bytes(), path@) == Err::<Seq<u8>, ReadError>(e))
                    by {
                    reveal(spec_bundle_file_data);
                }
                return Err(e);
            },
        };
        assert(spec_bundle_file_data(fs.header(), fs.file_bytes(), path@) == Ok::<Seq<u8>, ReadError>(buff@))
            by {
            reveal(spec_bundle_file_data);
        }
        let ghost start = *self;
        let sid = self.add_serialized_file(buff, None)?;
        let ghost opened = *self;
        assert(records(start, opened, recorded_lists(opened.files()[sid]), sid));
        id_map_insert(&mut self.serialized_file_to_unity_fs_map, sid, fs_id);
        let ghost before = self.cabs();
        let name = path.clone();
        proof {
            lemma_assoc_put(before, name, sid);
        }
        assoc_set(&mut self.cab_maps, name, sid);
        proof {
            lemma_records_same(start, opened, *self, recorded_lists(opened.files()[sid]), sid);
        }
        Ok(())
    }

    /// Opens each of `cabs`, files of the bundle `fs` numbered `fs_id`, as a serialized
    /// file, recording its name and its bundle; stops at the first that cannot be read.
    fn open_cabs(&mut self, fs: &UnityFS, fs_id: i64, cabs: &Vec<String>) -> (r: Result<(), ReadError>)
        requires
            old(self).wf(),
            fs.wf(),
            strings_view(cabs@) == cab_paths(fs.nodes()),
        ensures
            final(self).wf(),
            final(self).bundles() == old(self).bundles(),
            final(self).bundle_count() == old(self).bundle_count(),
            match cabs_error(fs.header(), fs.file_bytes(), strings_view(cabs@), old(self).file_count() as int) {
                None => r is Ok,
                Some(e) => r == Err::<(), ReadError>(e),
            },
            r is Ok ==> final(self).file_count() == old(self).file_count() + cabs@.len(),
            r is Err ==> exists|n: int|
                0 <= n < cabs@.len() && cabs_error(
                    fs.header(),
                    fs.file_bytes(),
                    strings_view(cabs@).take(n),
                    old(self).file_count() as int,
                ) is None && opened_first(
                    *old(self),
                    *final(self),
                    strings_view(cabs@),
                    old(self).file_count() as int,
                    n,
                ),
            r is Ok ==> forall|k: Seq<char>| #![trigger list_of(final(self).containers(), k)]
                refs_view(list_of(final(self).containers(), k)) == refs_view(list_of(old(self).containers(), k))
                    + files_named_refs(final(self).files(), old(self).file_count() as int, cabs@.len(), k),
            r is Ok ==> files_record_names(
                old(self).container_names(),
                final(self).container_names(),
                final(self).files(),
                old(self).file_count() as int,
                cabs@.len() as int,
            ),
            r is Ok ==> forall|k: Seq<char>| #[trigger]
                assoc_get(final(self).cabs(), k) == cab_id_after(
                    old(self).cabs(),
                    strings_view(cabs@),
                    old(self).file_count() as int,
                    k,
                ),
    {
        let ghost names = strings_view(cabs@);
        let ghost base = old(self).file_count() as int;
        let mut i: usize = 0;
        assert(cabs_error(fs.header(), fs.file_bytes(), names.take(0), base) is None) by {
            reveal(cabs_error);
        }
        assert forall|k: Seq<char>| #![trigger list_of(self.containers(), k)]
            refs_view(list_of(self.containers(), k)) == refs_view(list_of(old(self).containers(), k))
                + files_named_refs(self.files(), base, 0, k) by {
            assert(refs_view(list_of(self.containers(), k)) + Seq::<(i64, Seq<Seq<char>>)>::empty() =~= refs_view(
                list_of(self.containers(), k),
            ));
        }
        while i < cabs.len()
            invariant
                i <= cabs@.len(),
                names == strings_view(cabs@),
                names == cab_paths(fs.nodes()),
                base == old(self).file_count() as int,
                fs.wf(),
                self.wf(),
                self.bundle_count() == old(self).bundle_count(),
                self.bundles() == old(self).bundles(),
                self.file_count() == base + i,
                forall|k: Seq<char>| #![trigger list_of(self.containers(), k)]
                    refs_view(list_of(self.containers(), k)) == refs_view(list_of(old(self).containers(), k))
                        + files_named_refs(self.files(), base, i as nat, k),
                files_record_names(old(self).container_names(), self.container_names(), self.files(), base, i as int),
                cabs_error(fs.header(), fs.file_bytes(), names.take(i as int), base) is None,
                forall|k: Seq<char>| #[trigger]
                    assoc_get(self.cabs(), k) == cab_id_after(
                        old(self).cabs(),
                        names.take(i as int),
                        base,
                        k,
                    ),
            decreases cabs.len() - i,
        {
            proof {
                assert(names.take(i + 1).drop_last() =~= names.take(i as int));
                assert(names.take(i + 1).last() == names[i as int]);
                assert(cabs@[i as int]@ == names[i as int]);
                lemma_cabs_error_next(fs.header(), fs.file_bytes(), names, base, i as int);
            }
            let ghost mid = *self;
            match self.open_cab(fs, fs_id, &cabs[i]) {
                Ok(()) => {
                    proof {
                        lemma_files_step(*old(self), mid, *self, base, i as nat);
                    }
                },
                Err(e) => {
                    proof {
                        lemma_cabs_error_prefix(fs.header(), fs.file_bytes(), names, base, i + 1);
                        assert(opened_first(*old(self), *self, names, base, i as int));
                    }
                    return Err(e);
                },
            }
            i = i + 1;
        }
        assert(names.take(names.len() as int) =~= names);
        Ok(())
    }
}


impl UnityAssetViewer {
    /// The serialized file opened under the file name `path`.
    pub fn get_serialized_file_by_path(&self, path: &String) -> (r: Option<&SerializedFile>)
        ensures
            match assoc_get(self.cabs(), path@) {
                Some(id) => match r {
                    Some(f) => self.files().contains_key(id) && *f == self.files()[id],
                    None => !self.files().contains_key(id),
                },
                None => r is None,
            },
    {
        proof {
            lemma_assoc_index(self.cab_maps@, path@);
        }
        match assoc_find(&self.cab_maps, path) {
            None => None,
            Some(i) => id_map_get(&self.serialized_file_map, self.cab_maps[i].1),
        }
    }

    /// The bundle that the cab file named `path` came from.
    pub fn get_unity_fs_by_cab_path(&self, path: &String) -> (r: Option<&UnityFS>)
        ensures
            match assoc_get(self.cabs(), path@) {
                Some(id) => self.bundle_of_file(id, r),
                None => r is None,
            },
    {
        proof {
            lemma_assoc_index(self.cab_maps@, path@);
        }
        match assoc_find(&self.cab_maps, path) {
            None => None,
            Some(i) => self.unity_fs_of(self.cab_maps[i].1),
        }
    }

    /// `r` is the bundle serialized file `id` came from, if it is kept.
    pub open spec fn bundle_of_file(&self, id: i64, r: Option<&UnityFS>) -> bool {
        if self.file_bundles().contains_key(id) && self.bundles().contains_key(self.file_bundles()[id]) {
            r matches Some(u) && *u == self.bundles()[self.file_bundles()[id]]
        } else {
            r is None
        }
    }

    fn unity_fs_of(&self, id: i64) -> (r: Option<&UnityFS>)
        ensures
            self.bundle_of_file(id, r),
    {
        match id_map_get(&self.serialized_file_to_unity_fs_map, id) {
            None => None,
            Some(fs_id) => id_map_get(&self.unity_fs_map, *fs_id),
        }
    }

    /// Where the resource file named by `path`, for the serialized file with id
    /// `serialized_file_id`, is looked for: in the bundle that file came from for an
    /// `archive:/` path, else beside that file or bundle, or in the working directory.
    pub fn get_resource_file_by_serialized_file_id_and_path(&self, serialized_file_id: i64, path: &String) -> (r:
        ResourceLocation)
        requires
            self.wf(),
        ensures
            location_matches(
                path@,
                if self.files().contains_key(serialized_file_id) {
                    Some(self.files()[serialized_file_id])
                } else {
                    None
                },
                if self.file_bundles().contains_key(serialized_file_id) && self.bundles().contains_key(
                    self.file_bundles()[serialized_file_id],
                ) {
                    Some(self.bundles()[self.file_bundles()[serialized_file_id]])
                } else {
                    None
                },
                None,
                r,
            ),
    {
        let file = id_map_get(&self.serialized_file_map, serialized_file_id);
        let fs = self.unity_fs_of(serialized_file_id);
        get_resource_location(path, file, fs, None)
    }

    /// The bundle a serialized file came from.
    pub fn get_unity_fs_by_serialized_file(&self, serialized_file: &SerializedFile) -> (r: Option<&UnityFS>)
        ensures
            self.bundle_of_file(serialized_file.spec_serialized_file_id(), r),
    {
        self.unity_fs_of(serialized_file.get_serialized_file_id())
    }

    /// The bundle an object's file came from.
    pub fn get_unity_fs_by_type_tree_object(&self, type_tree_object: &TypeTreeObject) -> (r: Option<&UnityFS>)
        ensures
            self.bundle_of_file(type_tree_object.spec_serialized_file_id(), r),
    {
        self.unity_fs_of(type_tree_object.get_serialized_file_id())
    }

    /// The bundle that the file holding the object reference `pptr` came from.
    pub fn get_unity_fs_by_pptr(&self, pptr: &TypeTreeObjectRef) -> (r: Option<&UnityFS>)
        ensures
            self.bundle_of_file(pptr.object().spec_serialized_file_id(), r),
    {
        self.unity_fs_of(pptr.get_serialized_file_id())
    }

    /// The asset name of the object that the reference `pptr` names by its `m_PathID`,
    /// among the names of the file holding the reference; `None` when the path id
    /// cannot be read.
    pub fn get_container_name_by_pptr(&self, pptr: &TypeTreeObjectRef) -> (r: Option<&String>)
        ensures
            match path_id_at(pptr.object(), strings_view(pptr.target_path())) {
                Some(p) => self.name_of(pptr.object().spec_serialized_file_id(), p, r),
                None => r is None,
            },
    {
        let m_path_id = vec!["m_PathID".to_owned()];
        proof {
            lemma_strings_view_add(pptr.target_path(), m_path_id@);
            assert(strings_view(pptr.target_path()) + seq!["m_PathID"@] =~= strings_view(pptr.target_path()).push(
                "m_PathID"@,
            ));
        }
        let ghost pp = strings_view(pptr.target_path()).push("m_PathID"@);
        assert(strings_view(m_path_id@) =~= seq!["m_PathID"@]);
        assert(strings_view(pptr.target_path() + m_path_id@) == pp);
        let got = <i64 as TryCastFrom<&TypeTreeObjectRef, &[String]>>::try_cast_from(pptr, m_path_id.as_slice());
        assert(cast_matches(got, spec_cast_at::<i64>(pptr.object(), pp)));
        let path_id: i64 = match got {
            Ok(v) => v,
            Err(_) => return None,
        };
        self.get_container_name_by_serialized_file_id_and_path_id(pptr.get_serialized_file_id(), path_id)
    }

    /// The asset name of object `path_id` of serialized file `id`.
    pub open spec fn name_of(&self, id: i64, path_id: i64, r: Option<&String>) -> bool {
        if self.container_names().contains_key(id) && self.container_names()[id]@.contains_key(path_id) {
            r matches Some(s) && *s == self.container_names()[id]@[path_id]
        } else {
            r is None
        }
    }

    pub fn get_container_name_by_serialized_file_id_and_path_id(&self, serialized_file_id: i64, path_id: i64) -> (r:
        Option<&String>)
        ensures
            self.name_of(serialized_file_id, path_id, r),
    {
        match id_map_get(&self.container_name_maps, serialized_file_id) {
            None => None,
            Some(names) => id_map_get(names, path_id),
        }
    }

    /// The asset name of object `path_id` of the file named `cab_name`.
    pub fn get_container_name_by_path_id(&self, cab_name: &String, path_id: i64) -> (r: Option<&String>)
        ensures
            match assoc_get(self.cabs(), cab_name@) {
                Some(id) => self.name_of(id, path_id, r),
                None => r is None,
            },
    {
        proof {
            lemma_assoc_index(self.cab_maps@, cab_name@);
        }
        match assoc_find(&self.cab_maps, cab_name) {
            None => None,
            Some(i) => self.get_container_name_by_serialized_file_id_and_path_id(self.cab_maps[i].1, path_id),
        }
    }

    /// The first file that gives the asset name `container_name`.
    pub fn get_serialized_file_by_container_name(&self, container_name: &String) -> (r: Option<
        &SerializedFile,
    >)
        ensures
            match assoc_get(self.containers(), container_name@) {
                Some(v) => if v@.len() > 0 {
                    match r {
                        Some(f) => self.files().contains_key(v@[0].0) && *f == self.files()[v@[0].0],
                        None => !self.files().contains_key(v@[0].0),
                    }
                } else {
                    r is None
                },
                None => r is None,
            },
    {
        proof {
            lemma_assoc_index(self.container_maps@, container_name@);
        }
        match assoc_find(&self.container_maps, container_name) {
            None => None,
            Some(i) => {
                let list = &self.container_maps[i].1;
                if list.len() == 0 {
                    None
                } else {
                    id_map_get(&self.serialized_file_map, list[0].0)
                }
            },
        }
    }

    /// The file names and their serialized file ids.
    pub fn get_cab_maps(&self) -> (r: &Vec<(String, i64)>)
        ensures
            r@ == self.cabs(),
    {
        &self.cab_maps
    }

    /// The serialized files by id.
    pub fn get_serialized_file_map(&self) -> (r: &BTreeMap<i64, SerializedFile>)
        ensures
            r@ == self.files(),
    {
        &self.serialized_file_map
    }

    /// The asset names and the files and references that give them.
    pub fn get_container_maps(&self) -> (r: &Vec<(String, Vec<(i64, TypeTreeObjectRef)>)>)
        ensures
            r@ == self.containers(),
    {
        &self.container_maps
    }

    /// Records that the file named `name` was opened as serialized file `id`.
    pub fn insert_cab(&mut self, name: String, id: i64)
        ensures
            final(self).cabs() == assoc_put(old(self).cabs(), name, id),
            final(self).files() == old(self).files(),
            final(self).file_count() == old(self).file_count(),
            final(self).bundles() == old(self).bundles(),
            final(self).bundle_count() == old(self).bundle_count(),
            final(self).file_bundles() == old(self).file_bundles(),
            final(self).containers() == old(self).containers(),
            final(self).container_names() == old(self).container_names(),
            final(self).wf() == old(self).wf(),
    {
        assoc_set(&mut self.cab_maps, name, id);
    }
}


/// An object of one of the viewer's serialized files: the file's id, the object's
/// path id and its class.
#[derive(Debug, Clone, Copy, PartialEq, Eq, Structural)]
pub struct ObjectRef {
    pub serialized_file_id: i64,
    pub path_id: i64,
    pub class_id: i32,
}

/// `a` comes before `b`: by file id, then by path id.
pub open spec fn ref_before(a: ObjectRef, b: ObjectRef) -> bool {
    a.serialized_file_id < b.serialized_file_id || (a.serialized_file_id == b.serialized_file_id
        && a.path_id < b.path_id)
}

impl UnityAssetViewer {
    /// `o` names an object of one of the viewer's files, with its class.
    pub open spec fn holds_ref(&self, o: ObjectRef) -> bool {
        &&& self.files().contains_key(o.serialized_file_id)
        &&& self.files()[o.serialized_file_id].object_map_view().contains_key(o.path_id)
        &&& self.files()[o.serialized_file_id].object_map_view()[o.path_id].class == o.class_id
    }

    /// Every object of every serialized file, ordered by file id and then path id.
    pub fn object_refs(&self) -> (r: Vec<ObjectRef>)
        ensures
            forall|i: int, j: int| 0 <= i < j < r@.len() ==> ref_before(r@[i], r@[j]),
            forall|i: int| 0 <= i < r@.len() ==> self.holds_ref(#[trigger] r@[i]),
            forall|f: i64, p: i64|
                #![trigger self.files()[f].object_map_view().contains_key(p)]
                self.files().contains_key(f) && self.files()[f].object_map_view().contains_key(p)
                    ==> exists|i: int|
                    0 <= i < r@.len() && (#[trigger] r@[i]).serialized_file_id == f && r@[i].path_id == p,
    {
        let ids = crate::keyed::id_map_keys(&self.serialized_file_map);
        let mut out: Vec<ObjectRef> = Vec::new();
        let mut i: usize = 0;
        while i < ids.len()
            invariant
                i <= ids@.len(),
                ids@.to_set() == self.files().dom(),
                forall|a: int, b: int| 0 <= a < b < ids@.len() ==> ids@[a] < ids@[b],
                forall|a: int, b: int| 0 <= a < b < out@.len() ==> ref_before(out@[a], out@[b]),
                forall|a: int| 0 <= a < out@.len() ==> self.holds_ref(#[trigger] out@[a]),
                forall|a: int|
                    0 <= a < out@.len() && i < ids@.len() ==> (#[trigger] out@[a]).serialized_file_id
                        < ids@[i as int],
                forall|k: int, p: i64|
                    #![trigger self.files()[ids@[k]].object_map_view().contains_key(p)]
                    0 <= k < i && self.files()[ids@[k]].object_map_view().contains_key(p) ==> exists|a: int|
                        0 <= a < out@.len() && (#[trigger] out@[a]).serialized_file_id == ids@[k]
                            && out@[a].path_id == p,
            decreases ids.len() - i,
        {
            let id = ids[i];
            assert(ids@.to_set().contains(id));
            let file = match id_map_get(&self.serialized_file_map, id) {
                Some(f) => f,
                None => {
                    assert(false);
                    return out;
                },
            };
            let pids = crate::keyed::id_map_keys(file.get_object_map());
            let ghost start = out@.len();
            let mut j: usize = 0;
            while j < pids.len()
                invariant
                    i < ids@.len(),
                    id == ids@[i as int],
                    *file == self.files()[id],
                    self.files().contains_key(id),
                    j <= pids@.len(),
                    start <= out@.len(),
                    pids@.to_set() == file.object_map_view().dom(),
                    forall|a: int, b: int| 0 <= a < b < pids@.len() ==> pids@[a] < pids@[b],
                    forall|a: int, b: int| 0 <= a < b < out@.len() ==> ref_before(out@[a], out@[b]),
                    forall|a: int| 0 <= a < out@.len() ==> self.holds_ref(#[trigger] out@[a]),
                    forall|a: int| 0 <= a < start ==> (#[trigger] out@[a]).serialized_file_id < id,
                    forall|a: int|
                        start <= a < out@.len() ==> (#[trigger] out@[a]).serialized_file_id == id && (j
                            < pids@.len() ==> out@[a].path_id < pids@[j as int]),
                    forall|k: int, p: i64|
                        #![trigger self.files()[ids@[k]].object_map_view().contains_key(p)]
                        0 <= k < i && self.files()[ids@[k]].object_map_view().contains_key(p) ==> exists|a: int|
                            0 <= a < out@.len() && (#[trigger] out@[a]).serialized_file_id == ids@[k]
                                && out@[a].path_id == p,
                    forall|q: int|
                        #![trigger pids@[q]]
                        0 <= q < j ==> exists|a: int|
                            0 <= a < out@.len() && (#[trigger] out@[a]).serialized_file_id == id
                                && out@[a].path_id == pids@[q],
                decreases pids.len() - j,
            {
                let pid = pids[j];
                assert(pids@.to_set().contains(pid));
                let class_id = match id_map_get(file.get_object_map(), pid) {
                    Some(o) => o.class,
                    None => {
                        assert(false);
                        return out;
                    },
                };
                let ghost before = out@;
                out.push(ObjectRef { serialized_file_id: id, path_id: pid, class_id });
                proof {
                    assert(out@[before.len() as int] == ObjectRef { serialized_file_id: id, path_id: pid, class_id });
                    assert forall|a: int| start <= a < out@.len() && j + 1 < pids@.len() implies (#[trigger] out@[a]).path_id < pids@[j + 1] by {
                        if a < before.len() {
                            assert(before[a] == out@[a]);
                        }
                    }
                    assert forall|k: int, p: i64|
                        #![trigger self.files()[ids@[k]].object_map_view().contains_key(p)]
                        0 <= k < i && self.files()[ids@[k]].object_map_view().contains_key(p) implies exists|a: int|
                            0 <= a < out@.len() && (#[trigger] out@[a]).serialized_file_id == ids@[k]
                                && out@[a].path_id == p by {
                        let a = choose|a: int| 0 <= a < before.len() && (#[trigger] before[a]).serialized_file_id == ids@[k]
                            && before[a].path_id == p;
                        assert(out@[a] == before[a]);
                    }
                    assert forall|q: int| #![trigger pids@[q]] 0 <= q < j + 1 implies exists|a: int|
                        0 <= a < out@.len() && (#[trigger] out@[a]).serialized_file_id == id
                            && out@[a].path_id == pids@[q] by {
                        if q == j {
                            assert(out@[before.len() as int].path_id == pids@[q]);
                        } else {
                            let a = choose|a: int| 0 <= a < before.len() && (#[trigger] before[a]).serialized_file_id == id
                                && before[a].path_id == pids@[q];
                            assert(out@[a] == before[a]);
                        }
                    }
                }
                j = j + 1;
            }
            proof {
                assert forall|p: i64| self.files()[id].object_map_view().contains_key(p) implies exists|a: int|
                    0 <= a < out@.len() && (#[trigger] out@[a]).serialized_file_id == id && out@[a].path_id == p by {
                    assert(pids@.to_set().contains(p));
                    let q = choose|q: int| 0 <= q < pids@.len() && pids@[q] == p;
                    assert(pids@[q] == p);
                }
            }
            i = i + 1;
        }
        proof {
            assert forall|f: i64, p: i64|
                self.files().contains_key(f) && self.files()[f].object_map_view().contains_key(p) implies exists|i: int|
                0 <= i < out@.len() && (#[trigger] out@[i]).serialized_file_id == f && out@[i].path_id == p by {
                assert(ids@.to_set().contains(f));
                let k = choose|k: int| 0 <= k < ids@.len() && ids@[k] == f;
                assert(self.files()[ids@[k]].object_map_view().contains_key(p));
            }
        }
        out
    }

    /// The asset name of the object an object reference names.
    pub fn get_container_name_by_object_ref(&self, object_ref: &ObjectRef) -> (r: Option<&String>)
        ensures
            self.name_of(object_ref.serialized_file_id, object_ref.path_id, r),
    {
        self.get_container_name_by_serialized_file_id_and_path_id(object_ref.serialized_file_id, object_ref.path_id)
    }

    /// `r` is what dereferencing `object_ref` gives: `None` when its file is not open
    /// here or holds no such object, else the object as its file reads it, as a
    /// reference to its root.
    pub open spec fn deref_result(&self, object_ref: ObjectRef, r: Result<Option<TypeTreeObjectRef>, ReadError>) -> bool {
        &&& (!self.files().contains_key(object_ref.serialized_file_id) ==> r matches Ok(None))
        &&& self.files().contains_key(object_ref.serialized_file_id) ==> tt_object_matches(
            self.files()[object_ref.serialized_file_id],
            object_ref.path_id,
            match r {
                Ok(Some(o)) => Ok(Some(o.object())),
                Ok(None) => Ok(None),
                Err(e) => Err(e),
            },
        )
        &&& (r matches Ok(Some(o)) ==> o.target_path() == Seq::<String>::empty())
    }

    /// Reads the object an object reference names; `None` when its file is not open
    /// here or holds no such object.
    pub fn deref_object_ref(&self, object_ref: &ObjectRef) -> (r: Result<Option<TypeTreeObjectRef>, ReadError>)
        ensures
            self.deref_result(*object_ref, r),
    {
        match id_map_get(&self.serialized_file_map, object_ref.serialized_file_id) {
            None => Ok(None),
            Some(file) => match file.get_tt_object_by_path_id(object_ref.path_id) {
                Ok(Some(o)) => Ok(Some(o.into_ref())),
                Ok(None) => Ok(None),
                Err(e) => Err(e),
            },
        }
    }
}

/// Every reference that `object_refs` lists names an object that is there:
/// dereferencing it gives the object or a read error, never `None`.
pub proof fn lemma_listed_ref_derefs(
    v: UnityAssetViewer,
    o: ObjectRef,
    r: Result<Option<TypeTreeObjectRef>, ReadError>,
)
    requires
        v.holds_ref(o),
        v.deref_result(o, r),
    ensures
        !(r matches Ok(None)),
{
}

} // verus!
