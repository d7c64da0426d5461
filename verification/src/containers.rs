//! The named assets that asset bundles and resource managers list in their
//! containers, and what a serialized file's containers give.
use vstd::prelude::*;

use crate::error::ReadError;
use crate::keyed::sorted_ids;
use crate::serialized_file::{tt_object_matches, SerializedFile};
use crate::text::strings_view;
use crate::type_tree::convert::{
    array_len_at, entries_of, entry_key_path, entry_value_path, lemma_strings_view_add, spec_cast_at,
    spec_cast_string, EntryView, FieldCastArgs, TryCastFrom,
};
use crate::type_tree::{
    found_model, last_named, lemma_field_at_model, lemma_fields_model_index, lemma_fields_model_len,
    lemma_last_named_bounds, lemma_last_named_model, spec_field_at, Field, FieldValue,
    TypeTreeObject, TypeTreeObjectRef,
};

verus! {

/// The class id of resource managers.
pub const RESOURCE_MANAGER_CLASS_ID: i32 = 147;

/// One named asset of a container: its name, the reference to it, and its path id
/// when that can be read.
#[derive(Debug)]
pub struct ContainerEntry {
    pub name: String,
    pub pptr: TypeTreeObjectRef,
    pub path_id: Option<i64>,
}

pub type ContainerEntryView = (Seq<char>, Seq<Seq<char>>, Option<i64>);

pub open spec fn containers_view(v: Seq<ContainerEntry>) -> Seq<ContainerEntryView> {
    v.map_values(|e: ContainerEntry| (e.name@, strings_view(e.pptr.target_path()), e.path_id))
}

/// The path id of the reference at `pptr`: its `m_PathID` as a 64-bit number.
pub open spec fn path_id_at(obj: TypeTreeObject, pptr: Seq<Seq<char>>) -> Option<i64> {
    match spec_cast_at::<i64>(obj, pptr.push("m_PathID"@)) {
        Ok(v) => Some(v),
        Err(_) => None,
    }
}

/// The named assets of a container's key/value entries: in an asset bundle the
/// reference is the value's `asset` member, and an entry without one is skipped; in a
/// resource manager it is the value itself.
pub open spec fn spec_container_list(obj: TypeTreeObject, entries: Seq<EntryView>, bundle: bool) -> Seq<
    ContainerEntryView,
>
    decreases entries.len(),
{
    if entries.len() == 0 {
        seq![]
    } else {
        let prev = spec_container_list(obj, entries.drop_last(), bundle);
        let (name, vp) = entries.last();
        let pp = if bundle {
            vp.push("asset"@)
        } else {
            vp
        };
        if bundle && spec_field_at(obj.layout(), pp, None, obj.data(), obj.endian()) is None {
            prev
        } else {
            prev.push((name, pp, path_id_at(obj, pp)))
        }
    }
}

/// Where a container's entries are: the object's `m_Container/Array`.
pub open spec fn container_path(root: TypeTreeObjectRef) -> Seq<Seq<char>> {
    strings_view(root.target_path()) + seq!["m_Container"@, "Array"@]
}

/// The named assets of the container of `root`; `None` when it has none.
pub open spec fn spec_containers(root: TypeTreeObjectRef, bundle: bool) -> Option<Seq<ContainerEntryView>> {
    match array_len_at(root.object(), container_path(root)) {
        Err(_) => None,
        Ok(n) => Some(
            spec_container_list(
                root.object(),
                entries_of(root.object(), container_path(root), n as nat),
                bundle,
            ),
        ),
    }
}

/// Reads the named assets of the container of `root`.
pub fn containers_in(root: &TypeTreeObjectRef, bundle: bool) -> (r: Option<Vec<ContainerEntry>>)
    ensures
        match spec_containers(*root, bundle) {
            None => r is None,
            Some(cs) => r matches Some(v) && containers_view(v@) == cs && forall|i: int|
                0 <= i < v@.len() ==> (#[trigger] v@[i]).pptr.object() == root.object(),
        },
{
    let path = vec!["m_Container".to_owned(), "Array".to_owned()];
    proof {
        assert(strings_view(root.target_path() + path@) =~= container_path(*root));
    }
    let pairs: Vec<(String, TypeTreeObjectRef)> = match <Vec<
        (String, TypeTreeObjectRef),
    > as TryCastFrom<&TypeTreeObjectRef, &[String]>>::try_cast_from(root, path.as_slice()) {
        Ok(p) => p,
        Err(_) => return None,
    };
    let ghost obj = root.object();
    let ghost ev = crate::type_tree::convert::entries_view(pairs@);
    let asset = vec!["asset".to_owned()];
    let m_path_id = vec!["m_PathID".to_owned()];
    let mut out: Vec<ContainerEntry> = Vec::new();
    let mut i: usize = 0;
    assert(ev.take(0) =~= seq![]);
    while i < pairs.len()
        invariant
            i <= pairs@.len(),
            ev == crate::type_tree::convert::entries_view(pairs@),
            strings_view(asset@) == seq!["asset"@],
            strings_view(m_path_id@) == seq!["m_PathID"@],
            forall|j: int| 0 <= j < pairs@.len() ==> (#[trigger] pairs@[j]).1.object() == obj,
            containers_view(out@) == spec_container_list(obj, ev.take(i as int), bundle),
            forall|j: int| 0 <= j < out@.len() ==> (#[trigger] out@[j]).pptr.object() == obj,
        decreases pairs.len() - i,
    {
        let (name, value) = (&pairs[i].0, &pairs[i].1);
        proof {
            assert(ev.take(i + 1).drop_last() =~= ev.take(i as int));
            assert(ev.take(i + 1).last() == ev[i as int]);
            assert(value.object() == obj);
        }
        let pptr = if bundle {
            proof {
                lemma_strings_view_add(value.target_path(), asset@);
                assert(strings_view(value.target_path()) + seq!["asset"@] =~= strings_view(
                    value.target_path(),
                ).push("asset"@));
            }
            match <TypeTreeObjectRef as TryCastFrom<&TypeTreeObjectRef, &[String]>>::try_cast_from(
                value,
                asset.as_slice(),
            ) {
                Ok(p) => p,
                Err(_) => {
                    i = i + 1;
                    continue;
                },
            }
        } else {
            value.with_path(value.joined_path(&[]))
        };
        proof {
            lemma_strings_view_add(pptr.target_path(), m_path_id@);
            assert(strings_view(pptr.target_path()) + seq!["m_PathID"@] =~= strings_view(
                pptr.target_path(),
            ).push("m_PathID"@));
        }
        let path_id: Option<i64> = match <i64 as TryCastFrom<
            &TypeTreeObjectRef,
            &[String],
        >>::try_cast_from(&pptr, m_path_id.as_slice()) {
            Ok(v) => Some(v),
            Err(_) => None,
        };
        let ghost before = containers_view(out@);
        out.push(ContainerEntry { name: name.clone(), pptr, path_id });
        proof {
            assert(containers_view(out@) =~= before.push(containers_view(out@).last()));
        }
        i = i + 1;
    }
    assert(ev.take(pairs@.len() as int) =~= ev);
    Some(out)
}


/// Where a root object's container entries are.
pub open spec fn root_container_path() -> Seq<Seq<char>> {
    seq!["m_Container"@, "Array"@]
}

/// The named assets of the container of object `obj`; `None` when it has none.
pub open spec fn object_containers(obj: TypeTreeObject, bundle: bool) -> Option<Seq<ContainerEntryView>> {
    match array_len_at(obj, root_container_path()) {
        Err(_) => None,
        Ok(n) => Some(spec_container_list(obj, entries_of(obj, root_container_path(), n as nat), bundle)),
    }
}

/// A reference to the root of `obj` lists the containers of `obj`.
pub proof fn lemma_root_containers(root: TypeTreeObjectRef, bundle: bool)
    requires
        root.target_path() == Seq::<String>::empty(),
    ensures
        spec_containers(root, bundle) == object_containers(root.object(), bundle),
{
    assert(container_path(root) =~= root_container_path());
}

/// Two objects that read alike: the same layout, bytes and byte order.
pub open spec fn reads_alike(o1: TypeTreeObject, o2: TypeTreeObject) -> bool {
    &&& o1.layout().model() == o2.layout().model()
    &&& o1.data() == o2.data()
    &&& o1.endian() == o2.endian()
}

proof fn lemma_string_model(f1: Field, f2: Field, buff: Seq<u8>, args: FieldCastArgs)
    requires
        f1.model() == f2.model(),
    ensures
        spec_cast_string(f1, buff, args) == spec_cast_string(f2, buff, args),
{
    match (f1.data, f2.data) {
        (FieldValue::Fields(v1), FieldValue::Fields(v2)) => {
            lemma_last_named_model(v1@, v2@, "Array"@);
            lemma_last_named_bounds(v1@, "Array"@);
            lemma_fields_model_len(v1@);
            lemma_fields_model_len(v2@);
            if let Some(k) = last_named(v1@, "Array"@) {
                lemma_fields_model_index(v1@, k);
                lemma_fields_model_index(v2@, k);
            }
        },
        _ => {},
    }
}

proof fn lemma_alike_field(o1: TypeTreeObject, o2: TypeTreeObject, p: Seq<Seq<char>>)
    requires
        reads_alike(o1, o2),
    ensures
        found_model(spec_field_at(o1.layout(), p, None, o1.data(), o1.endian())) == found_model(
            spec_field_at(o2.layout(), p, None, o2.data(), o2.endian()),
        ),
        spec_field_at(o1.layout(), p, None, o1.data(), o1.endian()) is Some <==> spec_field_at(
            o2.layout(),
            p,
            None,
            o2.data(),
            o2.endian(),
        ) is Some,
        spec_cast_at::<String>(o1, p) == spec_cast_at::<String>(o2, p),
        spec_cast_at::<i64>(o1, p) == spec_cast_at::<i64>(o2, p),
        array_len_at(o1, p) == array_len_at(o2, p),
{
    lemma_field_at_model(o1.layout(), o2.layout(), p, None, o1.data(), o1.endian());
    match (
        spec_field_at(o1.layout(), p, None, o1.data(), o1.endian()),
        spec_field_at(o2.layout(), p, None, o2.data(), o2.endian()),
    ) {
        (Some((g1, off)), Some((g2, _))) => {
            lemma_string_model(g1, g2, o1.data(), FieldCastArgs { endian: o1.endian(), field_offset: off });
        },
        _ => {},
    }
}

proof fn lemma_alike_entries(o1: TypeTreeObject, o2: TypeTreeObject, p: Seq<Seq<char>>, n: nat)
    requires
        reads_alike(o1, o2),
    ensures
        entries_of(o1, p, n) == entries_of(o2, p, n),
    decreases n,
{
    if n > 0 {
        lemma_alike_entries(o1, o2, p, (n - 1) as nat);
        lemma_alike_field(o1, o2, entry_key_path(p, (n - 1) as nat));
        lemma_alike_field(o1, o2, entry_value_path(p, (n - 1) as nat));
    }
}

proof fn lemma_alike_list(o1: TypeTreeObject, o2: TypeTreeObject, es: Seq<EntryView>, bundle: bool)
    requires
        reads_alike(o1, o2),
    ensures
        spec_container_list(o1, es, bundle) == spec_container_list(o2, es, bundle),
    decreases es.len(),
{
    if es.len() > 0 {
        lemma_alike_list(o1, o2, es.drop_last(), bundle);
        let vp = es.last().1;
        lemma_alike_field(o1, o2, vp.push("asset"@));
        lemma_alike_field(o1, o2, vp.push("asset"@).push("m_PathID"@));
        lemma_alike_field(o1, o2, vp.push("m_PathID"@));
    }
}

/// Objects that read alike list the same containers.
pub proof fn lemma_alike_containers(o1: TypeTreeObject, o2: TypeTreeObject, bundle: bool)
    requires
        reads_alike(o1, o2),
    ensures
        object_containers(o1, bundle) == object_containers(o2, bundle),
{
    lemma_alike_field(o1, o2, root_container_path());
    match array_len_at(o1, root_container_path()) {
        Err(_) => {},
        Ok(n) => {
            lemma_alike_entries(o1, o2, root_container_path(), n as nat);
            lemma_alike_list(o1, o2, entries_of(o1, root_container_path(), n as nat), bundle);
        },
    }
}

/// The object with path id `p` of file `f` as reading it gives it; `None` when there is
/// none or it cannot be read.
pub open spec fn file_object(f: SerializedFile, p: i64) -> Option<TypeTreeObject> {
    if exists|o: TypeTreeObject| tt_object_matches(f, p, Ok(Some(o))) {
        Some(choose|o: TypeTreeObject| tt_object_matches(f, p, Ok(Some(o))))
    } else {
        None
    }
}

/// The named assets the container of the object with path id `p` of file `f` lists;
/// `None` when the object cannot be read or has no container.
pub open spec fn file_containers(f: SerializedFile, p: i64, bundle: bool) -> Option<Seq<ContainerEntryView>> {
    match file_object(f, p) {
        Some(o) => object_containers(o, bundle),
        None => None,
    }
}

/// What reading the object with path id `p` gave decides its containers.
pub proof fn lemma_file_containers(
    f: SerializedFile,
    p: i64,
    r: Result<Option<TypeTreeObject>, ReadError>,
    bundle: bool,
)
    requires
        tt_object_matches(f, p, r),
    ensures
        match r {
            Ok(Some(o)) => file_containers(f, p, bundle) == object_containers(o, bundle),
            _ => file_containers(f, p, bundle) is None,
        },
{
    match r {
        Ok(Some(o)) => {
            assert(tt_object_matches(f, p, Ok(Some(o))));
            let c = choose|c: TypeTreeObject| tt_object_matches(f, p, Ok(Some(c)));
            assert(reads_alike(c, o));
            lemma_alike_containers(c, o, bundle);
        },
        _ => {
            if exists|o: TypeTreeObject| tt_object_matches(f, p, Ok(Some(o))) {
                let o = choose|o: TypeTreeObject| tt_object_matches(f, p, Ok(Some(o)));
                assert(tt_object_matches(f, p, Ok(Some(o))));
                assert(false);
            }
        },
    }
}

/// The container lists of the resource managers among path ids `ids` of file `f`, in
/// the order of `ids`.
pub open spec fn manager_lists(f: SerializedFile, ids: Seq<i64>) -> Seq<Seq<ContainerEntryView>>
    decreases ids.len(),
{
    if ids.len() == 0 {
        seq![]
    } else {
        let prev = manager_lists(f, ids.drop_last());
        let p = ids.last();
        if f.object_map_view().contains_key(p) && f.object_map_view()[p].class == RESOURCE_MANAGER_CLASS_ID {
            match file_containers(f, p, false) {
                Some(cs) => prev.push(cs),
                None => prev,
            }
        } else {
            prev
        }
    }
}

/// The container lists file `f` gives, in the order they are recorded: its asset
/// bundle's (path id 1), then each resource manager's by increasing path id.
pub open spec fn recorded_lists(f: SerializedFile) -> Seq<Seq<ContainerEntryView>> {
    let first = match file_containers(f, 1, true) {
        Some(cs) => seq![cs],
        None => seq![],
    };
    first + manager_lists(f, sorted_ids(f.object_map_view().dom()))
}

/// Asset names by path id, as a list of named assets gives them: a later entry for a
/// path id replaces an earlier one, and an entry without a path id names nothing.
pub open spec fn name_map(cs: Seq<ContainerEntryView>) -> Map<i64, Seq<char>>
    decreases cs.len(),
{
    if cs.len() == 0 {
        Map::empty()
    } else {
        let prev = name_map(cs.drop_last());
        match cs.last().2 {
            Some(p) => prev.insert(p, cs.last().0),
            None => prev,
        }
    }
}

/// `m` holds the names `n` holds, under the same path ids.
pub open spec fn names_match(m: Map<i64, String>, n: Map<i64, Seq<char>>) -> bool {
    &&& m.dom() == n.dom()
    &&& forall|p: i64| #[trigger] m.contains_key(p) ==> m[p]@ == n[p]
}

/// The references, as file id and path, that a list of named assets gives the name
/// `name` for file `id`, in list order.
pub open spec fn named_refs(cs: Seq<ContainerEntryView>, name: Seq<char>, id: i64) -> Seq<(i64, Seq<Seq<char>>)>
    decreases cs.len(),
{
    if cs.len() == 0 {
        seq![]
    } else {
        let prev = named_refs(cs.drop_last(), name, id);
        if cs.last().0 == name {
            prev.push((id, cs.last().1))
        } else {
            prev
        }
    }
}

/// The references several lists give the name `name` for file `id`, list after list.
pub open spec fn all_named_refs(lists: Seq<Seq<ContainerEntryView>>, name: Seq<char>, id: i64) -> Seq<
    (i64, Seq<Seq<char>>),
>
    decreases lists.len(),
{
    if lists.len() == 0 {
        seq![]
    } else {
        all_named_refs(lists.drop_last(), name, id) + named_refs(lists.last(), name, id)
    }
}

/// One list gives its own references.
pub proof fn lemma_all_named_refs_one(cs: Seq<ContainerEntryView>, name: Seq<char>, id: i64)
    ensures
        all_named_refs(seq![cs], name, id) == named_refs(cs, name, id),
{
    let l = seq![cs];
    assert(l.drop_last() =~= Seq::<Seq<ContainerEntryView>>::empty());
    assert(l.last() == cs);
    assert(all_named_refs(l.drop_last(), name, id) == Seq::<(i64, Seq<Seq<char>>)>::empty());
    assert(Seq::<(i64, Seq<Seq<char>>)>::empty() + named_refs(cs, name, id) =~= named_refs(cs, name, id));
}

/// References by file id and path.
pub open spec fn refs_view(v: Seq<(i64, TypeTreeObjectRef)>) -> Seq<(i64, Seq<Seq<char>>)> {
    v.map_values(|e: (i64, TypeTreeObjectRef)| (e.0, strings_view(e.1.target_path())))
}

} // verus!
