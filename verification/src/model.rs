//! The mathematical model of a schema tree.
//!
//! Every contract about numbering and the flat codec speaks about
//! [`TreeView`], the abstraction of a [`DataType`] node: one uniform node
//! shape whose children sit in a sequence, whichever variant carries them.
use vstd::prelude::*;
use crate::data_type::{kind_of, is_char_kind, DataType, Field, ThinType, TypeKind};

verus! {

/// The abstraction of one schema node.
///
/// Parameters a kind does not carry are pinned to zero, so that two nodes
/// are equal exactly when kind, parameters, names, ids, cached arity and
/// children all agree.
#[verifier::ext_equal]
pub struct TreeView {
    pub kind: TypeKind,
    pub children: Seq<TreeView>,
    pub field_names: Seq<Seq<char>>,
    pub precision: u64,
    pub scale: u64,
    pub maximum_length: u64,
    pub column_id: Option<int>,
    pub maximum_column_id: Option<int>,
    pub subtype_count: int,
}

pub open spec fn opt_int(o: Option<usize>) -> Option<int> {
    match o {
        Some(n) => Some(n as int),
        None => None,
    }
}

/// The models of the fields of a struct, from index `i` on.
pub open spec fn model_fields(fs: Seq<Field>, i: int) -> Seq<TreeView>
    decreases fs, fs.len() - i,
{
    if 0 <= i < fs.len() {
        seq![fs[i].datatype.model()] + model_fields(fs, i + 1)
    } else {
        Seq::empty()
    }
}

/// The models of the alternatives of a union, from index `i` on.
pub open spec fn model_alternatives(cs: Seq<Box<DataType>>, i: int) -> Seq<TreeView>
    decreases cs, cs.len() - i,
{
    if 0 <= i < cs.len() {
        seq![cs[i].model()] + model_alternatives(cs, i + 1)
    } else {
        Seq::empty()
    }
}

/// The models of the direct children a parameterized type carries.
pub open spec fn model_children(t: ThinType) -> Seq<TreeView>
    decreases t, 0int,
{
    match t {
        ThinType::List(e) => seq![e.model()],
        ThinType::Mapping(k, v) => seq![k.model(), v.model()],
        ThinType::Struct(fs) => model_fields(fs@, 0),
        ThinType::Union(cs) => model_alternatives(cs@, 0),
        _ => Seq::empty(),
    }
}

impl DataType {
    /// The abstraction of this node and its subtree.
    pub open spec fn model(self) -> TreeView
        decreases self, 1int,
    {
        TreeView {
            kind: kind_of(self.thin_type),
            children: model_children(self.thin_type),
            field_names: match self.thin_type {
                ThinType::Struct(fs) => fs@.map_values(|f: Field| f.name@),
                _ => Seq::empty(),
            },
            precision: match self.thin_type {
                ThinType::Decimal(p, _) => p,
                _ => 0,
            },
            scale: match self.thin_type {
                ThinType::Decimal(_, s) => s,
                _ => 0,
            },
            maximum_length: match self.thin_type {
                ThinType::Varchar(n) => n,
                ThinType::Char(n) => n,
                _ => 0,
            },
            column_id: opt_int(self.column_id),
            maximum_column_id: opt_int(self.maximum_column_id),
            subtype_count: self.subtype_count as int,
        }
    }
}

/// The number of children each kind admits: one element for a list, key and
/// value for a mapping, any number of fields or alternatives, none else.
pub open spec fn kind_arity_ok(k: TypeKind, n: int) -> bool {
    match k {
        TypeKind::List => n == 1,
        TypeKind::Mapping => n == 2,
        TypeKind::Struct => true,
        TypeKind::Union => true,
        _ => n == 0,
    }
}

/// Well-formedness of a model node: the cached arity equals the child
/// count, the child count fits the kind, names exist exactly on structs and
/// parallel the children, unused parameters are zero, and the children are
/// well-formed in turn.
pub open spec fn wf_v(m: TreeView) -> bool
    decreases m, 1int,
{
    &&& m.subtype_count == m.children.len()
    &&& kind_arity_ok(m.kind, m.children.len() as int)
    &&& m.field_names.len() == (if m.kind == TypeKind::Struct {
        m.children.len() as int
    } else {
        0
    })
    &&& (m.kind != TypeKind::Decimal ==> m.precision == 0 && m.scale == 0)
    &&& (!is_char_kind(m.kind) ==> m.maximum_length == 0)
    &&& wf_children(m.children, 0)
}

pub open spec fn wf_children(cs: Seq<TreeView>, i: int) -> bool
    decreases cs, cs.len() - i,
{
    if 0 <= i < cs.len() {
        wf_v(cs[i]) && wf_children(cs, i + 1)
    } else {
        true
    }
}

/// The number of nodes in the subtree, the node itself included.
pub open spec fn size_v(m: TreeView) -> nat
    decreases m, 1int,
{
    1 + size_children(m.children, 0)
}

pub open spec fn size_children(cs: Seq<TreeView>, i: int) -> nat
    decreases cs, cs.len() - i,
{
    if 0 <= i < cs.len() {
        size_v(cs[i]) + size_children(cs, i + 1)
    } else {
        0
    }
}

/// Preorder numbering from `start`: the node carries `start` itself, its
/// children follow it consecutively subtree by subtree, and its maximum
/// column id is the last id its subtree uses.
pub open spec fn numbered_v(m: TreeView, start: int) -> bool
    decreases m, 1int,
{
    &&& m.column_id == Some(start)
    &&& m.maximum_column_id == Some(start + size_v(m) - 1)
    &&& numbered_children(m.children, 0, start + 1)
}

pub open spec fn numbered_children(cs: Seq<TreeView>, i: int, s: int) -> bool
    decreases cs, cs.len() - i,
{
    if 0 <= i < cs.len() {
        numbered_v(cs[i], s) && numbered_children(cs, i + 1, s + size_v(cs[i]))
    } else {
        true
    }
}

/// The numbering pass as a function: the tree with every node stamped with
/// its preorder id from `start` and its subtree's maximum id. Everything
/// else is left as it was.
pub open spec fn assign_spec(m: TreeView, start: int) -> TreeView
    decreases m, 1int,
{
    TreeView {
        column_id: Some(start),
        maximum_column_id: Some(start + size_v(m) - 1),
        children: assign_children(m.children, 0, start + 1),
        ..m
    }
}

pub open spec fn assign_children(cs: Seq<TreeView>, i: int, s: int) -> Seq<TreeView>
    decreases cs, cs.len() - i,
{
    if 0 <= i < cs.len() {
        seq![assign_spec(cs[i], s)] + assign_children(cs, i + 1, s + size_v(cs[i]))
    } else {
        Seq::empty()
    }
}

/// `model_fields(fs, i)` is the pointwise model of the fields from `i` on.
pub proof fn lemma_model_fields_index(fs: Seq<Field>, i: int)
    requires
        0 <= i <= fs.len(),
    ensures
        model_fields(fs, i).len() == fs.len() - i,
        forall|j: int|
            0 <= j < fs.len() - i ==> #[trigger] model_fields(fs, i)[j] == fs[i + j].datatype.model(),
    decreases fs.len() - i,
{
    if i < fs.len() {
        lemma_model_fields_index(fs, i + 1);
    }
}

/// `model_alternatives(cs, i)` is the pointwise model of the alternatives.
pub proof fn lemma_model_alternatives_index(cs: Seq<Box<DataType>>, i: int)
    requires
        0 <= i <= cs.len(),
    ensures
        model_alternatives(cs, i).len() == cs.len() - i,
        forall|j: int|
            0 <= j < cs.len() - i ==> #[trigger] model_alternatives(cs, i)[j] == cs[i + j].model(),
    decreases cs.len() - i,
{
    if i < cs.len() {
        lemma_model_alternatives_index(cs, i + 1);
    }
}

/// Appending a field appends its model.
pub proof fn lemma_model_fields_push(a: Seq<Field>, x: Field)
    ensures
        model_fields(a.push(x), 0) == model_fields(a, 0) + seq![x.datatype.model()],
{
    let b = a.push(x);
    lemma_model_fields_index(a, 0);
    lemma_model_fields_index(b, 0);
    assert(model_fields(b, 0) =~= model_fields(a, 0) + seq![x.datatype.model()]);
}

/// Appending an alternative appends its model.
pub proof fn lemma_model_alternatives_push(a: Seq<Box<DataType>>, x: Box<DataType>)
    ensures
        model_alternatives(a.push(x), 0) == model_alternatives(a, 0) + seq![x.model()],
{
    let b = a.push(x);
    lemma_model_alternatives_index(a, 0);
    lemma_model_alternatives_index(b, 0);
    assert(model_alternatives(b, 0) =~= model_alternatives(a, 0) + seq![x.model()]);
}

/// Stamping ids changes no sizes: the tree keeps its shape.
pub proof fn lemma_assign_size(m: TreeView, start: int)
    ensures
        size_v(assign_spec(m, start)) == size_v(m),
    decreases m, 1int,
{
    lemma_assign_children_size(m.children, 0, start + 1);
}

pub proof fn lemma_assign_children_size(cs: Seq<TreeView>, i: int, s: int)
    ensures
        size_children(assign_children(cs, i, s), 0) == size_children(cs, i),
        assign_children(cs, i, s).len() == if 0 <= i <= cs.len() {
            cs.len() - i
        } else {
            0
        },
    decreases cs, cs.len() - i,
{
    if 0 <= i < cs.len() {
        lemma_assign_size(cs[i], s);
        lemma_assign_children_size(cs, i + 1, s + size_v(cs[i]));
        let rest = assign_children(cs, i + 1, s + size_v(cs[i]));
        let whole = assign_children(cs, i, s);
        assert(whole == seq![assign_spec(cs[i], s)] + rest);
        lemma_size_children_cons(assign_spec(cs[i], s), rest);
    }
}

/// Summing sizes over a sequence one head at a time.
pub proof fn lemma_size_children_cons(head: TreeView, rest: Seq<TreeView>)
    ensures
        size_children(seq![head] + rest, 0) == size_v(head) + size_children(rest, 0),
{
    let whole = seq![head] + rest;
    assert(whole[0] == head);
    assert(size_children(whole, 0) == size_v(head) + size_children(whole, 1));
    assert(rest =~= whole.subrange(1, whole.len() as int));
    lemma_size_children_shift(whole, rest, 1);
}

/// `size_children` over a suffix agrees with the suffix taken as its own
/// sequence: `s[off..]` summed from 0 equals `s` summed from `off`.
pub proof fn lemma_size_children_shift(s: Seq<TreeView>, t: Seq<TreeView>, off: int)
    requires
        0 <= off <= s.len(),
        t =~= s.subrange(off, s.len() as int),
    ensures
        size_children(s, off) == size_children(t, 0),
    decreases s.len() - off,
{
    if off < s.len() {
        assert(t[0] == s[off]);
        let t2 = s.subrange(off + 1, s.len() as int);
        lemma_size_children_shift(s, t2, off + 1);
        assert(t2 =~= t.subrange(1, t.len() as int));
        lemma_size_children_shift(t, t2, 1);
    }
}

/// The numbering law: stamping from `start` yields a tree whose ids are the
/// dense preorder range beginning at `start`, with every node's maximum
/// column id the largest id in its own subtree.
pub proof fn lemma_assign_numbered(m: TreeView, start: int)
    ensures
        numbered_v(assign_spec(m, start), start),
    decreases m, 1int,
{
    lemma_assign_size(m, start);
    lemma_assign_children_numbered(m.children, 0, start + 1);
    let out = assign_spec(m, start);
    assert(out.children == assign_children(m.children, 0, start + 1));
    assert(numbered_children(out.children, 0, start + 1));
}

pub proof fn lemma_assign_children_numbered(cs: Seq<TreeView>, i: int, s: int)
    ensures
        numbered_children(assign_children(cs, i, s), 0, s),
    decreases cs, cs.len() - i,
{
    if 0 <= i < cs.len() {
        lemma_assign_numbered(cs[i], s);
        lemma_assign_size(cs[i], s);
        let s2 = s + size_v(cs[i]);
        lemma_assign_children_numbered(cs, i + 1, s2);
        let head = assign_spec(cs[i], s);
        let rest = assign_children(cs, i + 1, s2);
        let whole = assign_children(cs, i, s);
        assert(whole == seq![head] + rest);
        assert(whole[0] == head);
        assert(rest =~= whole.subrange(1, whole.len() as int));
        lemma_numbered_children_shift(whole, rest, 1, s2);
        assert(numbered_children(whole, 0, s) == (numbered_v(whole[0], s) && numbered_children(
            whole,
            1,
            s + size_v(whole[0]),
        )));
    }
}

/// Stamping ids preserves well-formedness: it changes nothing that
/// well-formedness speaks about.
pub proof fn lemma_assign_wf(m: TreeView, start: int)
    requires
        wf_v(m),
    ensures
        wf_v(assign_spec(m, start)),
    decreases m, 1int,
{
    lemma_assign_children_size(m.children, 0, start + 1);
    lemma_assign_children_wf(m.children, 0, start + 1);
}

pub proof fn lemma_assign_children_wf(cs: Seq<TreeView>, i: int, s: int)
    requires
        wf_children(cs, i),
    ensures
        wf_children(assign_children(cs, i, s), 0),
    decreases cs, cs.len() - i,
{
    if 0 <= i < cs.len() {
        let s2 = s + size_v(cs[i]);
        let head = assign_spec(cs[i], s);
        let rest = assign_children(cs, i + 1, s2);
        let out = assign_children(cs, i, s);
        assert(out == seq![head] + rest);
        lemma_assign_wf(cs[i], s);
        lemma_assign_children_wf(cs, i + 1, s2);
        assert(out[0] == head);
        assert(rest =~= out.subrange(1, out.len() as int));
        lemma_wf_children_shift(out, rest, 1);
        assert(wf_children(out, 0) == (wf_v(out[0]) && wf_children(out, 1)));
    }
}

/// `wf_children` over a suffix agrees with the suffix taken as its own
/// sequence.
pub proof fn lemma_wf_children_shift(s: Seq<TreeView>, t: Seq<TreeView>, off: int)
    requires
        0 <= off <= s.len(),
        t =~= s.subrange(off, s.len() as int),
    ensures
        wf_children(s, off) == wf_children(t, 0),
    decreases s.len() - off,
{
    if off < s.len() {
        assert(t[0] == s[off]);
        let t2 = s.subrange(off + 1, s.len() as int);
        lemma_wf_children_shift(s, t2, off + 1);
        assert(t2 =~= t.subrange(1, t.len() as int));
        lemma_wf_children_shift(t, t2, 1);
    }
}

/// Re-running the numbering pass re-derives the same ids: stamping reads
/// only the tree's shape, never the ids already present.
pub proof fn lemma_assign_idempotent(m: TreeView, start: int)
    ensures
        assign_spec(assign_spec(m, start), start) == assign_spec(m, start),
    decreases m, 1int,
{
    lemma_assign_size(m, start);
    lemma_assign_children_idempotent(m.children, 0, start + 1);
    assert(assign_spec(assign_spec(m, start), start) =~~= assign_spec(m, start));
}

pub proof fn lemma_assign_children_idempotent(cs: Seq<TreeView>, i: int, s: int)
    ensures
        assign_children(assign_children(cs, i, s), 0, s) == assign_children(cs, i, s),
    decreases cs, cs.len() - i,
{
    if 0 <= i < cs.len() {
        let s2 = s + size_v(cs[i]);
        let head = assign_spec(cs[i], s);
        let rest = assign_children(cs, i + 1, s2);
        let out = assign_children(cs, i, s);
        assert(out == seq![head] + rest);
        lemma_assign_idempotent(cs[i], s);
        lemma_assign_size(cs[i], s);
        lemma_assign_children_idempotent(cs, i + 1, s2);
        assert(out[0] == head);
        assert(rest =~= out.subrange(1, out.len() as int));
        lemma_assign_children_shift(out, rest, 1, s2);
        assert(assign_children(out, 0, s) =~= out);
    } else {
        assert(assign_children(assign_children(cs, i, s), 0, s) =~= assign_children(cs, i, s));
    }
}

/// `assign_children` over a suffix agrees with the suffix taken as its own
/// sequence.
pub proof fn lemma_assign_children_shift(s: Seq<TreeView>, t: Seq<TreeView>, off: int, start: int)
    requires
        0 <= off <= s.len(),
        t =~= s.subrange(off, s.len() as int),
    ensures
        assign_children(s, off, start) == assign_children(t, 0, start),
    decreases s.len() - off,
{
    if off < s.len() {
        assert(t[0] == s[off]);
        let t2 = s.subrange(off + 1, s.len() as int);
        lemma_assign_children_shift(s, t2, off + 1, start + size_v(s[off]));
        assert(t2 =~= t.subrange(1, t.len() as int));
        lemma_assign_children_shift(t, t2, 1, start + size_v(t[0]));
        assert(assign_children(s, off, start) =~= assign_children(t, 0, start));
    } else {
        assert(assign_children(s, off, start) =~= assign_children(t, 0, start));
    }
}

/// `numbered_children` over a suffix agrees with the suffix taken as its
/// own sequence.
pub proof fn lemma_numbered_children_shift(s: Seq<TreeView>, t: Seq<TreeView>, off: int, start: int)
    requires
        0 <= off <= s.len(),
        t =~= s.subrange(off, s.len() as int),
    ensures
        numbered_children(s, off, start) == numbered_children(t, 0, start),
    decreases s.len() - off,
{
    if off < s.len() {
        assert(t[0] == s[off]);
        let t2 = s.subrange(off + 1, s.len() as int);
        lemma_numbered_children_shift(s, t2, off + 1, start + size_v(s[off]));
        assert(t2 =~= t.subrange(1, t.len() as int));
        lemma_numbered_children_shift(t, t2, 1, start + size_v(t[0]));
    }
}

} // verus!
