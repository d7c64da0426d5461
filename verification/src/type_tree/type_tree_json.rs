//! Type trees for files stored without them, taken from dumps of Unity's own type
//! information: a zstd-compressed tar archive of `InfoJson/<version>.json` files.
use vstd::prelude::*;

use super::reader::TypeTreeObjectBinReadClassArgs;
use super::{nodes_view, TypeTreeNode, TypeTreeNodeView};
use crate::error::ReadError;

verus! {

/// One string of the dump's string table.
#[derive(Debug, Clone, PartialEq, Eq)]
pub struct StringInfo {
    pub index: i32,
    pub string: String,
}

/// One node of a class's type tree in the dump, with its sub-nodes.
#[derive(Debug)]
pub struct Node {
    pub type_string: String,
    pub name: String,
    pub level: u8,
    pub byte_size: i32,
    pub index: i32,
    pub version: u16,
    pub type_flags: u8,
    pub meta_flag: i32,
    pub sub_nodes: Vec<Node>,
}

/// One class of the dump.
#[derive(Debug)]
pub struct Class {
    pub name: String,
    pub full_name: String,
    pub type_id: i32,
    pub base: String,
    pub derived: Vec<String>,
    pub descendant_count: i32,
    pub size: i32,
    pub type_index: i32,
    pub is_abstract: bool,
    pub is_sealed: bool,
    pub is_editor_only: bool,
    pub is_stripped: bool,
    pub release_root_node: Option<Node>,
    pub editor_root_node: Option<Node>,
}

/// The dump for one Unity version.
#[derive(Debug)]
pub struct InfoJson {
    pub version: String,
    pub strings: Vec<StringInfo>,
    pub classes: Vec<Class>,
}

/// The type tree node a dump node stands for.
pub open spec fn node_view(n: Node) -> TypeTreeNodeView {
    TypeTreeNodeView {
        version: n.version,
        level: n.level,
        type_flags: n.type_flags as i32,
        type_string: n.type_string@,
        name: n.name@,
        byte_size: n.byte_size,
        index: n.index,
        meta_flag: n.meta_flag,
        ref_type_hash: None,
    }
}

/// A node and its sub-nodes, in pre-order.
pub open spec fn flatten(n: Node) -> Seq<TypeTreeNodeView>
    decreases n, 1int,
{
    seq![node_view(n)] + flatten_list(n.sub_nodes@)
}

/// Several nodes with their sub-nodes, one after the other.
pub open spec fn flatten_list(ns: Seq<Node>) -> Seq<TypeTreeNodeView>
    decreases ns, 0int,
{
    if ns.len() == 0 {
        seq![]
    } else {
        flatten_list(ns.drop_last()) + flatten(ns.last())
    }
}

fn flatten_node(n: &Node, out: &mut Vec<TypeTreeNode>)
    ensures
        nodes_view(final(out)@) == nodes_view(old(out)@) + flatten(*n),
    decreases *n, 1int,
{
    let ghost start = nodes_view(out@);
    out.push(
        TypeTreeNode {
            version: n.version,
            level: n.level,
            type_flags: n.type_flags as i32,
            type_string: n.type_string.clone(),
            name: n.name.clone(),
            byte_size: n.byte_size,
            index: n.index,
            meta_flag: n.meta_flag,
            ref_type_hash: None,
        },
    );
    assert(nodes_view(out@) =~= start + seq![node_view(*n)]);
    let mut i: usize = 0;
    assert(n.sub_nodes@.take(0) =~= seq![]);
    while i < n.sub_nodes.len()
        invariant
            i <= n.sub_nodes@.len(),
            nodes_view(out@) == start + seq![node_view(*n)] + flatten_list(n.sub_nodes@.take(i as int)),
        decreases n.sub_nodes.len() - i,
    {
        let ghost before = nodes_view(out@);
        proof {
            assert(decreases_to!(*n => n.sub_nodes));
            assert(decreases_to!(n.sub_nodes => n.sub_nodes@));
            assert(decreases_to!(n.sub_nodes@ => n.sub_nodes@[i as int]));
        }
        flatten_node(&n.sub_nodes[i], out);
        proof {
            assert(n.sub_nodes@.take(i + 1).drop_last() =~= n.sub_nodes@.take(i as int));
            assert(n.sub_nodes@.take(i + 1).last() == n.sub_nodes@[i as int]);
            assert(nodes_view(out@) =~= start + seq![node_view(*n)] + flatten_list(
                n.sub_nodes@.take(i + 1),
            ));
        }
        i = i + 1;
    }
    assert(n.sub_nodes@.take(n.sub_nodes@.len() as int) =~= n.sub_nodes@);
}

/// Inserts `x` into a list ordered by index, after every node whose index is not
/// greater.
pub open spec fn insert_by_index(s: Seq<TypeTreeNodeView>, x: TypeTreeNodeView) -> Seq<TypeTreeNodeView>
    decreases s.len(),
{
    if s.len() == 0 {
        seq![x]
    } else if s.last().index <= x.index {
        s.push(x)
    } else {
        insert_by_index(s.drop_last(), x).push(s.last())
    }
}

/// The nodes ordered by index, nodes with equal index kept in their order.
pub open spec fn sort_by_index(s: Seq<TypeTreeNodeView>) -> Seq<TypeTreeNodeView>
    decreases s.len(),
{
    if s.len() == 0 {
        seq![]
    } else {
        insert_by_index(sort_by_index(s.drop_last()), s.last())
    }
}

/// Where `insert_by_index` puts `x`: after the last node whose index is not greater.
pub open spec fn insert_point(s: Seq<TypeTreeNodeView>, x: TypeTreeNodeView) -> int
    decreases s.len(),
{
    if s.len() == 0 {
        0
    } else if s.last().index <= x.index {
        s.len() as int
    } else {
        insert_point(s.drop_last(), x)
    }
}

proof fn lemma_insert_point(s: Seq<TypeTreeNodeView>, x: TypeTreeNodeView)
    ensures
        0 <= insert_point(s, x) <= s.len(),
        insert_by_index(s, x) == s.insert(insert_point(s, x), x),
    decreases s.len(),
{
    if s.len() > 0 && s.last().index > x.index {
        lemma_insert_point(s.drop_last(), x);
        let k = insert_point(s.drop_last(), x);
        assert(s.drop_last().insert(k, x).push(s.last()) =~= s.insert(k, x));
    } else if s.len() > 0 {
        assert(s.push(x) =~= s.insert(s.len() as int, x));
    }
}

/// Sorts nodes by index, keeping nodes with equal index in order.
fn sort_nodes(v: Vec<TypeTreeNode>) -> (r: Vec<TypeTreeNode>)
    ensures
        nodes_view(r@) == sort_by_index(nodes_view(v@)),
{
    let ghost vv = nodes_view(v@);
    let mut out: Vec<TypeTreeNode> = Vec::new();
    let mut rest = v;
    let mut i: usize = 0;
    let n = rest.len();
    assert(vv.take(0) =~= seq![]);
    while i < n
        invariant
            n == rest@.len(),
            i <= n,
            nodes_view(rest@) == vv,
            nodes_view(out@) == sort_by_index(vv.take(i as int)),
        decreases n - i,
    {
        let x = rest[i].clone_node();
        let ghost s = nodes_view(out@);
        proof {
            lemma_insert_point(s, x@);
            assert(vv.take(i + 1).drop_last() =~= vv.take(i as int));
            assert(vv.take(i + 1).last() == x@);
        }
        let mut k = out.len();
        assert(s.take(k as int) =~= s);
        while k > 0 && out[k - 1].index > x.index
            invariant
                k <= out@.len(),
                s == nodes_view(out@),
                insert_point(s, x@) == insert_point(s.take(k as int), x@),
            decreases k,
        {
            proof {
                assert(s.take(k as int).drop_last() =~= s.take(k - 1));
            }
            k = k - 1;
        }
        proof {
            if k > 0 {
                assert(s.take(k as int).last() == s[k - 1]);
            }
            assert(insert_point(s.take(k as int), x@) == k);
        }
        let ghost xv = x@;
        out.insert(k, x);
        proof {
            assert(nodes_view(out@) =~= s.insert(k as int, xv));
        }
        i = i + 1;
    }
    assert(vv.take(n as int) =~= vv);
    out
}

impl TypeTreeNode {
    /// A copy of this node.
    pub fn clone_node(&self) -> (r: TypeTreeNode)
        ensures
            r@ == self@,
    {
        self.copy()
    }
}

/// The node list of the class whose type id is `class_id`: its release tree,
/// flattened in pre-order and then ordered by index.
pub open spec fn spec_class_nodes(info: InfoJson, class_id: i32) -> Option<Seq<TypeTreeNodeView>> {
    match first_class(info.classes@, class_id) {
        None => None,
        Some(k) => match info.classes@[k].release_root_node {
            None => None,
            Some(root) => Some(sort_by_index(flatten(root))),
        },
    }
}

/// Index of the first class with type id `class_id`.
pub open spec fn first_class(cs: Seq<Class>, class_id: i32) -> Option<int>
    decreases cs.len(),
{
    if cs.len() == 0 {
        None
    } else if cs[0].type_id == class_id {
        Some(0)
    } else {
        match first_class(cs.drop_first(), class_id) {
            Some(i) => Some(i + 1),
            None => None,
        }
    }
}

fn find_class(cs: &Vec<Class>, class_id: i32) -> (r: Option<usize>)
    ensures
        match first_class(cs@, class_id) {
            Some(i) => r == Some(i as usize) && 0 <= i < cs@.len(),
            None => r is None,
        },
{
    let mut i: usize = 0;
    assert(cs@.skip(0) =~= cs@);
    while i < cs.len()
        invariant
            i <= cs@.len(),
            first_class(cs@, class_id) == match first_class(cs@.skip(i as int), class_id) {
                Some(k) => Some(k + i),
                None => None,
            },
        decreases cs.len() - i,
    {
        assert(cs@.skip(i as int).drop_first() =~= cs@.skip(i + 1));
        if cs[i].type_id == class_id {
            return Some(i);
        }
        i = i + 1;
    }
    None
}

/// The class and node list for objects of class `class_id`, from a dump.
pub fn class_args_from_info_json(info: &InfoJson, class_id: i32) -> (r: Option<
    TypeTreeObjectBinReadClassArgs,
>)
    ensures
        match spec_class_nodes(*info, class_id) {
            Some(ns) => r matches Some(a) && a.class_id() == class_id && a.type_fields() == ns,
            None => r is None,
        },
{
    let n = info.classes.len();
    let k = match find_class(&info.classes, class_id) {
        Some(k) => k,
        None => return None,
    };
    match &info.classes[k].release_root_node {
        None => None,
        Some(root) => {
            let mut nodes: Vec<TypeTreeNode> = Vec::new();
            flatten_node(root, &mut nodes);
            assert(nodes_view(nodes@) =~= flatten(*root));
            let sorted = sort_nodes(nodes);
            Some(TypeTreeObjectBinReadClassArgs::new(class_id, sorted))
        },
    }
}


// ---------------------------------------------------------------------------
// The archive of dumps
pub open spec fn opt_bytes_view(v: Option<Vec<u8>>) -> Option<Seq<u8>> {
    match v {
        Some(b) => Some(b@),
        None => None,
    }
}

/// One item of a tar listing: an entry's path (when it is UTF-8) and contents, or
/// `None` for an entry that could not be read.
pub type TarItemView = Option<(Option<Seq<char>>, Seq<u8>)>;

/// What `tar::Archive::entries` lists for a zstd-compressed archive read through
/// `zstd::stream::read::Decoder`: its entries in order, ending with `None` where
/// decompressing or reading one fails.
pub uninterp spec fn tar_zstd_listing(data: Seq<u8>) -> Seq<TarItemView>;

pub open spec fn tar_items_view(v: Seq<Option<(Option<String>, Vec<u8>)>>) -> Seq<TarItemView> {
    v.map_values(
        |e: Option<(Option<String>, Vec<u8>)>|
            match e {
                Some((p, d)) => Some(
                    (
                        match p {
                            Some(s) => Some(s@),
                            None => None,
                        },
                        d@,
                    ),
                ),
                None => None,
            },
    )
}

/// Calls `tar::Archive::entries` on the bytes, decompressed as they are read by
/// `zstd::stream::read::Decoder`, and reads each entry's header path and contents.
/// Claimed: the listing is a function of the bytes alone, named `tar_zstd_listing`.
/// What decompression errors look like inside it is left unsaid.
#[verifier::external_body]
fn tar_zstd_entries(data: &[u8]) -> (r: Vec<Option<(Option<String>, Vec<u8>)>>)
    ensures
        tar_items_view(r@) == tar_zstd_listing(data@),
{
    let Ok(decoder) = zstd::stream::read::Decoder::new(data) else { return vec![None] };
    let mut archive = tar::Archive::new(decoder);
    match archive.entries() {
        Ok(entries) => entries.map(|e| e.ok().and_then(|mut e| {
            let path = e.header().path().ok()?.to_str().map(|p| p.to_owned());
            let mut bytes = Vec::new();
            std::io::Read::read_to_end(&mut e, &mut bytes).ok()?;
            Some((path, bytes))
        })).collect(),
        Err(_) => vec![None],
    }
}

/// The contents of the first entry at `path`, walking the listing in order; an
/// unreadable entry before it is an error.
pub open spec fn find_tar_entry(items: Seq<TarItemView>, path: Seq<char>) -> Result<Option<Seq<u8>>, ReadError>
    decreases items.len(),
{
    if items.len() == 0 {
        Ok(None)
    } else {
        match items[0] {
            None => Err(ReadError::InvalidValue),
            Some((p, d)) => if p == Some(path) {
                Ok(Some(d))
            } else {
                find_tar_entry(items.drop_first(), path)
            },
        }
    }
}

/// The path of the dump for `version` inside the archive.
pub open spec fn info_json_path(version: Seq<char>) -> Seq<char> {
    "InfoJson/"@ + version + ".json"@
}

/// The bytes of the dump for `version`: the archive's entries, decompressed as they
/// are read, are searched in order for `InfoJson/<version>.json`; an entry that
/// cannot be read before it is an error.
pub open spec fn spec_info_json_bytes(tar: Option<Seq<u8>>, version: Seq<char>) -> Result<Seq<u8>, ReadError> {
    match tar {
        None => Err(ReadError::NotFound),
        Some(t) => match find_tar_entry(tar_zstd_listing(t), info_json_path(version)) {
            Err(e) => Err(e),
            Ok(None) => Err(ReadError::NotFound),
            Ok(Some(b)) => Ok(b),
        },
    }
}

/// The archive of dumps, and the dumps read from it so far.
#[derive(Debug)]
pub struct InfoJsonStore {
    tar: Option<Vec<u8>>,
    info_jsons: Vec<(String, InfoJson)>,
}

/// The first dump loaded for `version`.
pub open spec fn loaded_json(loaded: Seq<(String, InfoJson)>, version: Seq<char>) -> Option<InfoJson>
    decreases loaded.len(),
{
    if loaded.len() == 0 {
        None
    } else if loaded[0].0@ == version {
        Some(loaded[0].1)
    } else {
        loaded_json(loaded.drop_first(), version)
    }
}

fn find_loaded(loaded: &Vec<(String, InfoJson)>, version: &String) -> (r: Option<usize>)
    ensures
        match r {
            Some(i) => i < loaded@.len() && loaded_json(loaded@, version@) == Some(loaded@[i as int].1),
            None => loaded_json(loaded@, version@) is None,
        },
{
    let mut i: usize = 0;
    assert(loaded@.skip(0) =~= loaded@);
    while i < loaded.len()
        invariant
            i <= loaded@.len(),
            loaded_json(loaded@, version@) == loaded_json(loaded@.skip(i as int), version@),
        decreases loaded.len() - i,
    {
        assert(loaded@.skip(i as int).drop_first() =~= loaded@.skip(i + 1));
        if loaded[i].0 == *version {
            return Some(i);
        }
        i = i + 1;
    }
    None
}

impl InfoJsonStore {
    /// A store with no archive and no dumps.
    pub fn new() -> (r: InfoJsonStore)
        ensures
            r.tar_bytes() is None,
            r.loaded() == Seq::<(String, InfoJson)>::empty(),
    {
        InfoJsonStore { tar: None, info_jsons: Vec::new() }
    }

    pub closed spec fn tar_bytes(&self) -> Option<Seq<u8>> {
        opt_bytes_view(self.tar)
    }

    pub closed spec fn loaded(&self) -> Seq<(String, InfoJson)> {
        self.info_jsons@
    }

    /// The bytes of the dump for `version` in the archive.
    #[verifier::loop_isolation(false)]
    pub fn info_json_bytes(&self, version: &String) -> (r: Result<Vec<u8>, ReadError>)
        ensures
            match spec_info_json_bytes(self.tar_bytes(), version@) {
                Ok(b) => r matches Ok(v) && v@ == b,
                Err(e) => r matches Err(f) && f == e,
            },
    {
        let tar = match &self.tar {
            Some(t) => t,
            None => return Err(ReadError::NotFound),
        };
        let items = tar_zstd_entries(tar.as_slice());
        let mut path = "InfoJson/".to_owned();
        path.append(version.as_str());
        path.append(".json");
        let ghost iv = tar_items_view(items@);
        let mut i: usize = 0;
        assert(iv.skip(0) =~= iv);
        while i < items.len()
            invariant
                i <= items@.len(),
                iv == tar_items_view(items@),
                path@ == info_json_path(version@),
                find_tar_entry(iv, path@) == find_tar_entry(iv.skip(i as int), path@),
            decreases items.len() - i,
        {
            assert(iv.skip(i as int).drop_first() =~= iv.skip(i + 1));
            assert(iv.skip(i as int)[0] == iv[i as int]);
            match &items[i] {
                None => return Err(ReadError::InvalidValue),
                Some((p, d)) => {
                    if let Some(p) = p {
                        if *p == path {
                            return Ok(crate::binary::copy_vec(d));
                        }
                    }
                },
            }
            i = i + 1;
        }
        Err(ReadError::NotFound)
    }

    /// Keeps the dump for `version`, unless one is already kept.
    pub fn add_info_json(&mut self, version: String, info: InfoJson)
        ensures
            final(self).tar_bytes() == old(self).tar_bytes(),
            forall|v: Seq<char>|
                #![trigger loaded_json(final(self).loaded(), v)]
                v != version@ ==> loaded_json(final(self).loaded(), v) == loaded_json(
                    old(self).loaded(),
                    v,
                ),
            loaded_json(final(self).loaded(), version@) == match loaded_json(old(self).loaded(), version@) {
                Some(j) => Some(j),
                None => Some(info),
            },
    {
        if find_loaded(&self.info_jsons, &version).is_some() {
            return;
        }
        let ghost old_loaded = self.info_jsons@;
        let ghost vv = version@;
        let ghost entry = (version, info);
        self.info_jsons.push((version, info));
        proof {
            lemma_loaded_push(old_loaded, entry);
        }
    }

    /// Whether a dump for `version` is kept.
    pub fn has_info_json(&self, version: &String) -> (r: bool)
        ensures
            r == loaded_json(self.loaded(), version@) is Some,
    {
        find_loaded(&self.info_jsons, version).is_some()
    }
}

proof fn lemma_loaded_push(loaded: Seq<(String, InfoJson)>, e: (String, InfoJson))
    ensures
        forall|v: Seq<char>|
            #![trigger loaded_json(loaded.push(e), v)]
            loaded_json(loaded.push(e), v) == match loaded_json(loaded, v) {
                Some(j) => Some(j),
                None => if v == e.0@ {
                    Some(e.1)
                } else {
                    None
                },
            },
    decreases loaded.len(),
{
    assert forall|v: Seq<char>| #![trigger loaded_json(loaded.push(e), v)]
        loaded_json(loaded.push(e), v) == match loaded_json(loaded, v) {
            Some(j) => Some(j),
            None => if v == e.0@ {
                Some(e.1)
            } else {
                None
            },
        } by {
        let p = loaded.push(e);
        if loaded.len() > 0 {
            lemma_loaded_push(loaded.drop_first(), e);
            assert(p.drop_first() =~= loaded.drop_first().push(e));
            assert(p[0] == loaded[0]);
            if loaded[0].0@ == v {
                assert(loaded_json(p, v) == Some(loaded[0].1));
            } else {
                assert(loaded_json(p, v) == loaded_json(loaded.drop_first().push(e), v));
                assert(loaded_json(loaded, v) == loaded_json(loaded.drop_first(), v));
            }
        } else {
            assert(p.drop_first() =~= Seq::<(String, InfoJson)>::empty());
            assert(p[0] == e);
            assert(loaded_json(Seq::<(String, InfoJson)>::empty(), v) is None);
            assert(loaded_json(loaded, v) is None);
        }
    }
}

/// Keeps the archive of dumps; the dumps already read are kept too.
pub fn set_info_json_tar_reader(store: &mut InfoJsonStore, data: Vec<u8>)
    ensures
        final(store).tar_bytes() == Some(data@),
        final(store).loaded() == old(store).loaded(),
{
    store.tar = Some(data);
}

/// The class and node list for objects of class `class_id` written by Unity
/// `version`, from the dump kept for that version; `None` when no dump is kept for
/// it, it has no such class, or the class has no release tree.
pub fn get_type_object_args_by_version_class_id(
    store: &InfoJsonStore,
    version: &String,
    class_id: i32,
) -> (r: Option<TypeTreeObjectBinReadClassArgs>)
    ensures
        match loaded_json(store.loaded(), version@) {
            None => r is None,
            Some(info) => match spec_class_nodes(info, class_id) {
                Some(ns) => r matches Some(a) && a.class_id() == class_id && a.type_fields() == ns,
                None => r is None,
            },
        },
{
    match find_loaded(&store.info_jsons, version) {
        None => None,
        Some(i) => class_args_from_info_json(&store.info_jsons[i].1, class_id),
    }
}


/// Whether the nodes are ordered by index.
pub open spec fn sorted_by_index(s: Seq<TypeTreeNodeView>) -> bool {
    forall|i: int, j: int| 0 <= i < j < s.len() ==> s[i].index <= s[j].index
}

proof fn lemma_insert_by_index(s: Seq<TypeTreeNodeView>, x: TypeTreeNodeView)
    requires
        sorted_by_index(s),
    ensures
        sorted_by_index(insert_by_index(s, x)),
        insert_by_index(s, x).to_multiset() == s.to_multiset().insert(x),
    decreases s.len(),
{
    lemma_insert_point(s, x);
    vstd::seq_lib::to_multiset_insert(s, insert_point(s, x), x);
    if s.len() > 0 && s.last().index > x.index {
        lemma_insert_by_index(s.drop_last(), x);
        let t = insert_by_index(s.drop_last(), x);
        let r = t.push(s.last());
        assert(insert_by_index(s, x) == r);
        lemma_insert_point(s.drop_last(), x);
        assert forall|i: int, j: int| 0 <= i < j < r.len() implies r[i].index <= r[j].index by {
            if j == r.len() - 1 {
                let k = insert_point(s.drop_last(), x);
                assert(t == s.drop_last().insert(k, x));
                if i == k {
                    assert(r[i] == x);
                } else if i < k {
                    assert(r[i] == s[i]);
                } else {
                    assert(r[i] == s[i - 1]);
                }
            }
        }
    } else if s.len() > 0 {
        let r = s.push(x);
        assert forall|i: int, j: int| 0 <= i < j < r.len() implies r[i].index <= r[j].index by {
            if j == r.len() - 1 {
                assert(s[i].index <= s.last().index);
            }
        }
    }
}

/// The node list of a dump class is ordered by index and holds the same nodes as the
/// flattened tree.
pub proof fn lemma_sort_by_index(s: Seq<TypeTreeNodeView>)
    ensures
        sorted_by_index(sort_by_index(s)),
        sort_by_index(s).to_multiset() == s.to_multiset(),
    decreases s.len(),
{
    if s.len() > 0 {
        lemma_sort_by_index(s.drop_last());
        lemma_insert_by_index(sort_by_index(s.drop_last()), s.last());
        vstd::seq_lib::to_multiset_build(s.drop_last(), s.last());
        assert(s.drop_last().push(s.last()) =~= s);
    } else {
        assert(sort_by_index(s) =~= s);
    }
}

} // verus!
