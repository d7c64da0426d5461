//! What the fixed size computed from a type tree says of reading objects with it.
use vstd::prelude::*;

use super::reader::{spec_calc, spec_calc_children, spec_item_size, spec_read_children, spec_read_field};
use super::{spec_read_object, FieldModel, TypeTreeNodeView, ValueModel};

verus! {

/// The size computed from a start only grows.
pub proof fn lemma_calc_grows(ts: Seq<TypeTreeNodeView>, idx: int, rs: int)
    ensures
        spec_calc(ts, idx, rs) matches Some((l, r)) ==> r >= rs && idx <= l < ts.len(),
    decreases ts.len() - idx, 1int,
{
    if 0 <= idx < ts.len() && !ts[idx].is_array() && idx + 1 < ts.len() && ts[idx + 1].level == ts[idx].level + 1 {
        lemma_calc_children_grows(ts, ts[idx].level, idx, rs);
    }
}

pub proof fn lemma_calc_children_grows(ts: Seq<TypeTreeNodeView>, level: u8, j: int, rs: int)
    ensures
        spec_calc_children(ts, level, j, rs) matches Some((l, r)) ==> r >= rs && l >= j && (j >= 0 ==> l < ts.len()
            || j + 1 >= ts.len()),
    decreases ts.len() - j, 0int,
{
    if j >= 0 && j + 1 < ts.len() && ts[j + 1].level == level + 1 {
        lemma_calc_grows(ts, j + 1, rs);
        match spec_calc(ts, j + 1, rs) {
            Some((last, r2)) => if !(last <= j || last >= ts.len()) {
                lemma_calc_children_grows(ts, level, last, r2);
            },
            None => {},
        }
    }
}

/// Starting the size computation `d` bytes later, `d` a multiple of four, moves the
/// size by `d` and leaves the last node consumed alone, as long as the size fits in
/// a `usize`: padding goes to multiples of four.
pub proof fn lemma_calc_shift(ts: Seq<TypeTreeNodeView>, idx: int, rs: int, d: int)
    requires
        rs >= 0,
        d >= 0,
        d % 4 == 0,
    ensures
        spec_calc(ts, idx, rs + d) matches Some((l, r)) ==> spec_calc(ts, idx, rs) == Some((l, r - d)),
        match spec_calc(ts, idx, rs) {
            Some((l, r)) => r + d <= usize::MAX ==> spec_calc(ts, idx, rs + d) == Some((l, r + d)),
            None => true,
        },
    decreases ts.len() - idx, 1int,
{
    if 0 <= idx < ts.len() && !ts[idx].is_array() {
        let f = ts[idx];
        if idx + 1 < ts.len() && ts[idx + 1].level == f.level + 1 {
            lemma_calc_children_shift(ts, f.level, idx, rs, d);
            lemma_calc_children_grows(ts, f.level, idx, rs);
            lemma_calc_children_grows(ts, f.level, idx, rs + d);
        }
        let inner = |x: int|
            if idx + 1 < ts.len() && ts[idx + 1].level == f.level + 1 {
                spec_calc_children(ts, f.level, idx, x)
            } else {
                let nrs = x + ((f.byte_size as usize) as int);
                if nrs > usize::MAX {
                    None
                } else {
                    Some((idx, nrs))
                }
            };
        if let Some((_, r2)) = inner(rs) {
            lemma_mod4_shift(r2, d);
        }
        if let Some((_, r2)) = inner(rs + d) {
            lemma_mod4_shift(r2 - d, d);
        }
    }
}

proof fn lemma_mod4_shift(x: int, d: int)
    requires
        d % 4 == 0,
    ensures
        (x + d) % 4 == x % 4,
{
    assert((x + d) % 4 == x % 4) by (nonlinear_arith)
        requires
            d % 4 == 0,
    ;
}

pub proof fn lemma_calc_children_shift(ts: Seq<TypeTreeNodeView>, level: u8, j: int, rs: int, d: int)
    requires
        rs >= 0,
        d >= 0,
        d % 4 == 0,
    ensures
        spec_calc_children(ts, level, j, rs + d) matches Some((l, r)) ==> spec_calc_children(ts, level, j, rs) == Some(
            (l, r - d),
        ),
        match spec_calc_children(ts, level, j, rs) {
            Some((l, r)) => r + d <= usize::MAX ==> spec_calc_children(ts, level, j, rs + d) == Some((l, r + d)),
            None => true,
        },
    decreases ts.len() - j, 0int,
{
    if j >= 0 && j + 1 < ts.len() && ts[j + 1].level == level + 1 {
        lemma_calc_shift(ts, j + 1, rs, d);
        lemma_calc_grows(ts, j + 1, rs);
        match spec_calc(ts, j + 1, rs) {
            Some((last, r2)) => if !(last <= j || last >= ts.len()) {
                lemma_calc_children_shift(ts, level, last, r2, d);
                lemma_calc_children_grows(ts, level, last, r2);
            },
            None => {},
        }
    }
}

/// Reading a field that the size computation covers, from a position `c` bytes past
/// the computation's start (`c` a multiple of four), consumes exactly the computed
/// bytes and stops at the same node, when the buffer holds them.
pub proof fn lemma_read_follows_calc(
    nodes: Seq<TypeTreeNodeView>,
    i: int,
    buf: Seq<u8>,
    start: int,
    pos: int,
    big: bool,
    rs: int,
)
    requires
        rs >= 0,
        buf.len() <= usize::MAX,
        (pos - rs) % 4 == 0,
        spec_calc(nodes, i, rs) matches Some((_, r)) && pos - rs + r <= buf.len(),
    ensures
        spec_read_field(nodes, i, buf, start, pos, big) matches Ok((_, l, p)) && spec_calc(nodes, i, rs)
            == Some((l, p - pos + rs)),
    decreases nodes.len() - i, 1int,
{
    let f = nodes[i];
    let c = pos - rs;
    if i + 1 < nodes.len() && nodes[i + 1].level == f.level + 1 {
        lemma_read_children_follow_calc(nodes, f.level, i, buf, start, pos, big, seq![], rs);
        lemma_calc_children_grows(nodes, f.level, i, rs);
        if let Some((_, r2)) = spec_calc_children(nodes, f.level, i, rs) {
            lemma_mod4_shift(r2, c);
        }
    } else {
        let r2 = rs + ((f.byte_size as usize) as int);
        lemma_mod4_shift(r2, c);
    }
}

pub proof fn lemma_read_children_follow_calc(
    nodes: Seq<TypeTreeNodeView>,
    level: u8,
    j: int,
    buf: Seq<u8>,
    start: int,
    pos: int,
    big: bool,
    acc: Seq<FieldModel>,
    rs: int,
)
    requires
        rs >= 0,
        buf.len() <= usize::MAX,
        (pos - rs) % 4 == 0,
        spec_calc_children(nodes, level, j, rs) matches Some((_, r)) && pos - rs + r <= buf.len(),
    ensures
        spec_read_children(nodes, level, j, buf, start, pos, big, acc) matches Ok((_, l, p))
            && spec_calc_children(nodes, level, j, rs) == Some((l, p - pos + rs)),
    decreases nodes.len() - j, 0int,
{
    if j >= 0 && j + 1 < nodes.len() && nodes[j + 1].level == level + 1 {
        lemma_calc_grows(nodes, j + 1, rs);
        match spec_calc(nodes, j + 1, rs) {
            Some((last, r2)) => {
                if !(last <= j || last >= nodes.len()) {
                    lemma_calc_children_grows(nodes, level, last, r2);
                }
                lemma_read_follows_calc(nodes, j + 1, buf, start, pos, big, rs);
                if !(last <= j || last >= nodes.len()) {
                    match spec_read_field(nodes, j + 1, buf, start, pos, big) {
                        Ok((g, l2, p2)) => {
                            lemma_read_children_follow_calc(nodes, level, last, buf, start, p2, big, acc.push(g), r2);
                        },
                        Err(_) => {},
                    }
                }
            },
            None => {},
        }
    }
}

/// Reading an object whose type tree has a fixed size, from a position that is a
/// multiple of four with that many bytes left, consumes exactly that many bytes.
pub proof fn lemma_read_consumes_item_size(nodes: Seq<TypeTreeNodeView>, buf: Seq<u8>, start: int, pos: int, big: bool)
    requires
        pos >= 0,
        pos % 4 == 0,
        buf.len() <= usize::MAX,
        spec_item_size(nodes) matches Some(s) && pos + s <= buf.len(),
    ensures
        spec_read_field(nodes, 0, buf, start, pos, big) matches Ok((_, _, p)) && spec_item_size(nodes) == Some(
            p - pos,
        ),
{
    lemma_read_follows_calc(nodes, 0, buf, start, pos, big, 0);
}

/// The nodes after `from` up to `to` that sit one level below `level`, in order.
pub open spec fn child_nodes(nodes: Seq<TypeTreeNodeView>, level: u8, from: int, to: int) -> Seq<TypeTreeNodeView>
    decreases to - from,
{
    if to <= from {
        seq![]
    } else {
        let prev = child_nodes(nodes, level, from, to - 1);
        if nodes[to].level == level + 1 {
            prev.push(nodes[to])
        } else {
            prev
        }
    }
}

/// The nodes the fields were read from.
pub open spec fn field_nodes(fs: Seq<FieldModel>) -> Seq<TypeTreeNodeView> {
    fs.map_values(|f: FieldModel| f.node)
}

proof fn lemma_child_nodes_join(nodes: Seq<TypeTreeNodeView>, level: u8, from: int, mid: int, to: int)
    requires
        from <= mid <= to,
    ensures
        child_nodes(nodes, level, from, mid) + child_nodes(nodes, level, mid, to) == child_nodes(nodes, level, from, to),
    decreases to - mid,
{
    if to == mid {
        assert(child_nodes(nodes, level, from, mid) + seq![] =~= child_nodes(nodes, level, from, mid));
    } else {
        lemma_child_nodes_join(nodes, level, from, mid, to - 1);
        let a = child_nodes(nodes, level, from, mid);
        let b = child_nodes(nodes, level, mid, to - 1);
        if nodes[to].level == level + 1 {
            assert(a + b.push(nodes[to]) =~= (a + b).push(nodes[to]));
        }
    }
}

proof fn lemma_child_nodes_deeper(nodes: Seq<TypeTreeNodeView>, level: u8, from: int, to: int)
    requires
        forall|q: int| from < q <= to ==> #[trigger] nodes[q].level > level + 1,
    ensures
        child_nodes(nodes, level, from, to) == Seq::<TypeTreeNodeView>::empty(),
    decreases to - from,
{
    if to > from {
        lemma_child_nodes_deeper(nodes, level, from, to - 1);
    }
}

/// Every node after `from` up to `q` lies below `level`.
pub open spec fn deeper_run(nodes: Seq<TypeTreeNodeView>, from: int, q: int, level: int) -> bool {
    forall|r: int| from < r <= q ==> #[trigger] nodes[r].level > level
}

/// No node of the run after `from` whose levels all lie below `level` is an array.
pub open spec fn no_array_run(nodes: Seq<TypeTreeNodeView>, from: int, level: int) -> bool {
    forall|q: int| from < q < nodes.len() && #[trigger] deeper_run(nodes, from, q, level) ==> !nodes[q].is_array()
}

proof fn lemma_run_child(nodes: Seq<TypeTreeNodeView>, j: int, level: int)
    requires
        no_array_run(nodes, j, level),
        0 <= j,
        j + 1 < nodes.len(),
        nodes[j + 1].level == level + 1,
    ensures
        !nodes[j + 1].is_array(),
        no_array_run(nodes, j + 1, level + 1),
{
    assert(deeper_run(nodes, j, j + 1, level));
    assert forall|q: int| j + 1 < q < nodes.len() && #[trigger] deeper_run(nodes, j + 1, q, level + 1) implies !nodes[q].is_array() by {
        assert(deeper_run(nodes, j, q, level));
    }
}

proof fn lemma_run_after(nodes: Seq<TypeTreeNodeView>, j: int, last: int, level: int)
    requires
        no_array_run(nodes, j, level),
        j < last,
        deeper_run(nodes, j, last, level),
    ensures
        no_array_run(nodes, last, level),
{
    assert forall|q: int| last < q < nodes.len() && #[trigger] deeper_run(nodes, last, q, level) implies !nodes[q].is_array() by {
        assert(deeper_run(nodes, j, q, level)) by {
            assert forall|r: int| j < r <= q implies #[trigger] nodes[r].level > level by {
                if r <= last {
                    assert(deeper_run(nodes, j, last, level));
                } else {
                    assert(deeper_run(nodes, last, q, level));
                }
            }
        }
    }
}

/// Reading a field with no array in its own subtree reads it from its own node and
/// then from nodes below it only.
pub proof fn lemma_read_stays_below(nodes: Seq<TypeTreeNodeView>, i: int, buf: Seq<u8>, start: int, pos: int, big: bool)
    requires
        0 <= i < nodes.len() ==> !nodes[i].is_array(),
        no_array_run(nodes, i, nodes[i].level as int),
    ensures
        spec_read_field(nodes, i, buf, start, pos, big) matches Ok((m, l, _)) ==> m.node == nodes[i] && i <= l
            < nodes.len() && forall|q: int| i < q <= l ==> #[trigger] nodes[q].level > nodes[i].level,
    decreases nodes.len() - i, 1int,
{
    if 0 <= i < nodes.len() && i + 1 < nodes.len() && nodes[i + 1].level == nodes[i].level + 1 {
        lemma_children_stay_below(nodes, nodes[i].level, i, buf, start, pos, big, seq![]);
    }
}

pub proof fn lemma_children_stay_below(
    nodes: Seq<TypeTreeNodeView>,
    level: u8,
    j: int,
    buf: Seq<u8>,
    start: int,
    pos: int,
    big: bool,
    acc: Seq<FieldModel>,
)
    requires
        no_array_run(nodes, j, level as int),
        0 <= j < nodes.len(),
    ensures
        spec_read_children(nodes, level, j, buf, start, pos, big, acc) matches Ok((fs, l, _)) ==> j <= l
            < nodes.len() && (forall|q: int| j < q <= l ==> #[trigger] nodes[q].level > level) && field_nodes(fs)
            == field_nodes(acc) + child_nodes(nodes, level, j, l) && (l + 1 == nodes.len() || nodes[l + 1].level
            <= level),
    decreases nodes.len() - j, 0int,
{
    if j + 1 >= nodes.len() {
        assert(field_nodes(acc) + child_nodes(nodes, level, j, j) =~= field_nodes(acc));
    } else if nodes[j + 1].level == level + 1 {
        lemma_run_child(nodes, j, level as int);
        lemma_read_stays_below(nodes, j + 1, buf, start, pos, big);
        match spec_read_field(nodes, j + 1, buf, start, pos, big) {
            Ok((f, last, p)) => if !(last <= j || last >= nodes.len()) {
                assert(deeper_run(nodes, j, last, level as int)) by {
                    assert forall|r: int| j < r <= last implies #[trigger] nodes[r].level > level by {
                        if r > j + 1 {
                            assert(nodes[r].level > nodes[j + 1].level);
                        }
                    }
                }
                lemma_run_after(nodes, j, last, level as int);
                lemma_children_stay_below(nodes, level, last, buf, start, p, big, acc.push(f));
                match spec_read_children(nodes, level, last, buf, start, p, big, acc.push(f)) {
                    Ok((fs, l, _)) => {
                        assert forall|q: int| j + 1 < q <= last implies #[trigger] nodes[q].level > level + 1 by {
                            assert(nodes[q].level > nodes[j + 1].level);
                        }
                        lemma_child_nodes_deeper(nodes, level, j + 1, last);
                        assert(child_nodes(nodes, level, j, j + 1) =~= seq![nodes[j + 1]]) by {
                            assert(child_nodes(nodes, level, j, j) =~= Seq::<TypeTreeNodeView>::empty());
                        }
                        lemma_child_nodes_join(nodes, level, j, j + 1, last);
                        lemma_child_nodes_join(nodes, level, j, last, l);
                        assert(field_nodes(acc.push(f)) =~= field_nodes(acc).push(f.node));
                        assert(field_nodes(acc).push(nodes[j + 1]) + child_nodes(nodes, level, last, l) =~= field_nodes(
                            acc,
                        ) + (seq![nodes[j + 1]] + child_nodes(nodes, level, last, l)));
                        assert(seq![nodes[j + 1]] + Seq::<TypeTreeNodeView>::empty() =~= seq![nodes[j + 1]]);
                        assert forall|q: int| j < q <= l implies #[trigger] nodes[q].level > level by {
                            if q <= last && q > j + 1 {
                                assert(nodes[q].level > nodes[j + 1].level);
                            }
                        }
                    },
                    Err(_) => {},
                }
            },
            Err(_) => {},
        }
    } else if nodes[j + 1].level <= level {
        assert(field_nodes(acc) + child_nodes(nodes, level, j, j) =~= field_nodes(acc));
    }
}

/// The members of a structure with no array below it are read from exactly its
/// direct children, in order: the nodes one level below it up to the next node at
/// its own level or above. Arrays elsewhere in the node list do not matter.
pub proof fn lemma_struct_members(nodes: Seq<TypeTreeNodeView>, i: int, buf: Seq<u8>, start: int, pos: int, big: bool)
    requires
        0 <= i,
        i + 1 < nodes.len(),
        !nodes[i].is_array(),
        nodes[i + 1].level == nodes[i].level + 1,
        no_array_run(nodes, i, nodes[i].level as int),
    ensures
        match spec_read_field(nodes, i, buf, start, pos, big) {
            Ok((m, l, _)) => m.node == nodes[i] && (m.data matches ValueModel::Fields(fs) && field_nodes(fs)
                == child_nodes(nodes, nodes[i].level, i, l)) && (l + 1 == nodes.len() || nodes[l + 1].level
                <= nodes[i].level),
            Err(_) => true,
        },
{
    lemma_children_stay_below(nodes, nodes[i].level, i, buf, start, pos, big, seq![]);
    assert(field_nodes(Seq::<FieldModel>::empty()) =~= Seq::<TypeTreeNodeView>::empty());
    if let Ok((fs, l, _)) = spec_read_children(nodes, nodes[i].level, i, buf, start, pos, big, seq![]) {
        assert(Seq::<TypeTreeNodeView>::empty() + child_nodes(nodes, nodes[i].level, i, l) =~= child_nodes(
            nodes,
            nodes[i].level,
            i,
            l,
        ));
    }
}

/// The law for `TypeTreeObject::read_options`: an object whose type tree has a fixed
/// size `S` (what `calc_no_array_field_size` computes from node 0 and size 0), read
/// from a position that is a multiple of four with at least `S` bytes left, is read,
/// and the position after it is exactly `S` bytes on.
pub proof fn lemma_read_object_consumes_item_size(nodes: Seq<TypeTreeNodeView>, buf: Seq<u8>, start: int, big: bool)
    requires
        start >= 0,
        start % 4 == 0,
        buf.len() <= usize::MAX,
        spec_calc(nodes, 0, 0) matches Some((_, s)) && start + s <= buf.len(),
    ensures
        spec_read_object(nodes, buf, start, big) matches Ok((_, end)) && spec_calc(nodes, 0, 0) matches Some((_, s))
            && end == start + s,
{
    lemma_calc_grows(nodes, 0, 0);
    lemma_read_follows_calc(nodes, 0, buf, start, start, big, 0);
}

} // verus!
