//! The flat type codec: between the schema tree and the index-referenced
//! type array stored in a file's footer.
//!
//! One array slot per node, the slot's position being the node's column id;
//! composite slots reference their children by integer index into the same
//! array. The array order is therefore the preorder of the tree.
use vstd::prelude::*;
use crate::data_type::{is_char_kind, DataType, Field, ThinType, TypeKind};
use crate::error::Error;
use crate::model::{
    kind_arity_ok, model_alternatives, model_children, model_fields, numbered_children, numbered_v,
    size_children, size_v, wf_children, wf_v, TreeView,
};

verus! {

/// One slot of the flat type array, as read from or written to a footer.
///
/// `subtypes` lists the column ids of the direct children; `field_names`
/// parallels it on `Struct` slots; the remaining parameters are present
/// exactly on the kinds that carry them.
#[derive(Debug, PartialEq, Eq)]
pub struct FlatType {
    pub kind: TypeKind,
    pub subtypes: Vec<usize>,
    pub field_names: Vec<String>,
    pub precision: Option<u64>,
    pub scale: Option<u64>,
    pub maximum_length: Option<u64>,
}

/// The abstraction of one flat slot.
#[verifier::ext_equal]
pub struct FlatSpec {
    pub kind: TypeKind,
    pub subtypes: Seq<int>,
    pub field_names: Seq<Seq<char>>,
    pub precision: Option<u64>,
    pub scale: Option<u64>,
    pub maximum_length: Option<u64>,
}

impl FlatType {
    pub open spec fn model(self) -> FlatSpec {
        FlatSpec {
            kind: self.kind,
            subtypes: self.subtypes@.map_values(|x: usize| x as int),
            field_names: self.field_names@.map_values(|s: String| s@),
            precision: self.precision,
            scale: self.scale,
            maximum_length: self.maximum_length,
        }
    }
}

/// The abstraction of a whole flat array.
pub open spec fn flats(v: Seq<FlatType>) -> Seq<FlatSpec> {
    v.map_values(|e: FlatType| e.model())
}

/// The slot a numbered node writes: its kind, its children's column ids,
/// its names on structs, and the parameters its kind carries.
pub open spec fn entry_of(m: TreeView) -> FlatSpec {
    FlatSpec {
        kind: m.kind,
        subtypes: m.children.map_values(|c: TreeView| c.column_id->Some_0),
        field_names: m.field_names,
        precision: if m.kind == TypeKind::Decimal {
            Some(m.precision)
        } else {
            None
        },
        scale: if m.kind == TypeKind::Decimal {
            Some(m.scale)
        } else {
            None
        },
        maximum_length: if is_char_kind(m.kind) {
            Some(m.maximum_length)
        } else {
            None
        },
    }
}

/// The flat array of a numbered tree: the node's slot, then its children's
/// subtrees in order — preorder, matching the dense numbering.
pub open spec fn flatten(m: TreeView) -> Seq<FlatSpec>
    decreases m, 1int,
{
    seq![entry_of(m)] + flatten_children(m.children, 0)
}

pub open spec fn flatten_children(cs: Seq<TreeView>, i: int) -> Seq<FlatSpec>
    decreases cs, cs.len() - i,
{
    if 0 <= i < cs.len() {
        flatten(cs[i]) + flatten_children(cs, i + 1)
    } else {
        Seq::empty()
    }
}

/// A flat array spans one slot per node.
pub proof fn lemma_flatten_len(m: TreeView)
    ensures
        flatten(m).len() == size_v(m),
    decreases m, 1int,
{
    lemma_flatten_children_len(m.children, 0);
}

pub proof fn lemma_flatten_children_len(cs: Seq<TreeView>, i: int)
    ensures
        flatten_children(cs, i).len() == size_children(cs, i),
    decreases cs, cs.len() - i,
{
    if 0 <= i < cs.len() {
        lemma_flatten_len(cs[i]);
        lemma_flatten_children_len(cs, i + 1);
    }
}

/// The checks one slot must pass before its children are even looked at:
/// the child count fits the kind, names parallel the children exactly on
/// structs, and each parameter is present exactly when the kind carries it.
pub open spec fn entry_shape_ok(e: FlatSpec) -> bool {
    &&& kind_arity_ok(e.kind, e.subtypes.len() as int)
    &&& e.field_names.len() == (if e.kind == TypeKind::Struct {
        e.subtypes.len() as int
    } else {
        0
    })
    &&& (e.kind == TypeKind::Decimal <==> e.precision is Some)
    &&& (e.kind == TypeKind::Decimal <==> e.scale is Some)
    &&& (is_char_kind(e.kind) <==> e.maximum_length is Some)
}

/// The meaning of the flat array from slot `i` on: the subtree it encodes,
/// with its column ids recovered from the decode order, and the first slot
/// after that subtree. Nothing when the array is malformed there: an index
/// out of range, a backward or non-preorder child reference (which rules
/// out every cycle), a shape violation.
pub open spec fn parse_at(s: Seq<FlatSpec>, i: int) -> Option<(TreeView, int)>
    decreases s.len() - i, 0int,
{
    if 0 <= i < s.len() {
        let e = s[i];
        if entry_shape_ok(e) {
            match parse_children(s, e.subtypes, i + 1, 0) {
                Some((cs, n)) => Some(
                    (
                        TreeView {
                            kind: e.kind,
                            children: cs,
                            field_names: e.field_names,
                            precision: if e.kind == TypeKind::Decimal {
                                e.precision->Some_0
                            } else {
                                0
                            },
                            scale: if e.kind == TypeKind::Decimal {
                                e.scale->Some_0
                            } else {
                                0
                            },
                            maximum_length: if is_char_kind(e.kind) {
                                e.maximum_length->Some_0
                            } else {
                                0
                            },
                            column_id: Some(i),
                            maximum_column_id: Some(n - 1),
                            subtype_count: e.subtypes.len() as int,
                        },
                        n,
                    ),
                ),
                None => None,
            }
        } else {
            None
        }
    } else {
        None
    }
}

/// The children a slot's subtype list describes, starting at slot `j` with
/// list position `idx`: each listed index must be exactly the next unread
/// slot, so that the numbering invariant is re-validated while decoding.
pub open spec fn parse_children(s: Seq<FlatSpec>, subs: Seq<int>, j: int, idx: int) -> Option<
    (Seq<TreeView>, int),
>
    decreases s.len() - j, subs.len() - idx + 1,
{
    if idx == subs.len() {
        Some((Seq::empty(), j))
    } else if 0 <= idx < subs.len() && subs[idx] == j && 0 <= j < s.len() {
        match parse_at(s, j) {
            Some((c, n)) => if j < n <= s.len() {
                match parse_children(s, subs, n, idx + 1) {
                    Some((cs, m)) => Some((seq![c] + cs, m)),
                    None => None,
                }
            } else {
                None
            },
            None => None,
        }
    } else {
        None
    }
}

/// The meaning of a whole flat array: its root subtree at slot 0, covering
/// every slot; anything else is malformed.
pub open spec fn parse(s: Seq<FlatSpec>) -> Option<TreeView> {
    match parse_at(s, 0) {
        Some((m, n)) => if n == s.len() {
            Some(m)
        } else {
            None
        },
        None => None,
    }
}

/// Parsing at slot `i` of an array that carries the flat encoding of the
/// well-formed tree `m`, numbered from `i`, recovers exactly `m`.
pub proof fn lemma_parse_flatten_at(m: TreeView, s: Seq<FlatSpec>, i: int)
    requires
        wf_v(m),
        numbered_v(m, i),
        0 <= i,
        i + size_v(m) <= s.len(),
        forall|q: int| 0 <= q < size_v(m) ==> s[i + q] == flatten(m)[q],
    ensures
        parse_at(s, i) == Some((m, i + size_v(m))),
    decreases m, 1int,
{
    lemma_flatten_len(m);
    lemma_flatten_children_len(m.children, 0);
    assert(flatten(m)[0] == entry_of(m));
    assert(s[i] == entry_of(m));
    let e = entry_of(m);
    assert(e.subtypes.len() == m.children.len());
    assert(entry_shape_ok(e));
    assert(forall|q: int|
        0 <= q < size_children(m.children, 0) ==> s[i + 1 + q] == flatten_children(m.children, 0)[q])
        by {
        assert(forall|q: int|
            0 <= q < size_children(m.children, 0) ==> flatten(m)[1 + q] == flatten_children(
                m.children,
                0,
            )[q]);
    };
    assert(forall|q: int|
        0 <= q < m.children.len() ==> e.subtypes[q] == m.children[q].column_id->Some_0);
    lemma_parse_children_flatten(m.children, e.subtypes, s, i + 1, 0);
    assert(m.children.subrange(0, m.children.len() as int) =~= m.children);
    let n = i + size_v(m);
    match parse_at(s, i) {
        Some((tv, nn)) => {
            assert(nn == n);
            assert(tv.children == m.children);
            assert(tv =~~= m);
        },
        None => {
            assert(false);
        },
    }
}

pub proof fn lemma_parse_children_flatten(
    cs: Seq<TreeView>,
    subs: Seq<int>,
    s: Seq<FlatSpec>,
    j: int,
    idx: int,
)
    requires
        0 <= idx <= cs.len(),
        subs.len() == cs.len(),
        wf_children(cs, idx),
        numbered_children(cs, idx, j),
        forall|q: int| idx <= q < cs.len() ==> subs[q] == cs[q].column_id->Some_0,
        0 <= j,
        j + size_children(cs, idx) <= s.len(),
        forall|q: int| 0 <= q < size_children(cs, idx) ==> s[j + q] == flatten_children(cs, idx)[q],
    ensures
        parse_children(s, subs, j, idx) == Some(
            (cs.subrange(idx, cs.len() as int), j + size_children(cs, idx)),
        ),
    decreases cs, cs.len() - idx,
{
    if idx < cs.len() {
        let c = cs[idx];
        assert(numbered_v(c, j) && numbered_children(cs, idx + 1, j + size_v(c)));
        assert(size_children(cs, idx) == size_v(c) + size_children(cs, idx + 1));
        lemma_flatten_len(c);
        lemma_flatten_children_len(cs, idx + 1);
        assert(flatten_children(cs, idx) == flatten(c) + flatten_children(cs, idx + 1));
        assert(forall|q: int| 0 <= q < size_v(c) ==> s[j + q] == #[trigger] flatten(c)[q]) by {
            assert(forall|q: int|
                0 <= q < size_v(c) ==> flatten_children(cs, idx)[q] == #[trigger] flatten(c)[q]);
        };
        lemma_parse_flatten_at(c, s, j);
        let n = j + size_v(c);
        assert(subs[idx] == j);
        assert(forall|q: int|
            0 <= q < size_children(cs, idx + 1) ==> s[n + q] == #[trigger] flatten_children(
                cs,
                idx + 1,
            )[q]) by {
            assert(forall|q: int|
                0 <= q < size_children(cs, idx + 1) ==> flatten_children(cs, idx)[size_v(c) + q]
                    == #[trigger] flatten_children(cs, idx + 1)[q]);
        };
        lemma_parse_children_flatten(cs, subs, s, n, idx + 1);
        assert(seq![c] + cs.subrange(idx + 1, cs.len() as int) =~= cs.subrange(
            idx,
            cs.len() as int,
        ));
    } else {
        assert(cs.subrange(idx, cs.len() as int) =~= Seq::<TreeView>::empty());
    }
}

/// Writes the slot of `t` and then the slots of its subtree, in preorder.
#[verifier::loop_isolation(false)]
#[verifier::rlimit(100)]
fn encode_node(t: &DataType, start: Ghost<int>, out: &mut Vec<FlatType>)
    requires
        wf_v(t.model()),
        numbered_v(t.model(), start@),
    ensures
        flats(final(out)@) == flats(old(out)@) + flatten(t.model()),
    decreases *t,
{
    let ghost m0 = t.model();
    let ghost cs_full = model_children(t.thin_type);
    let kind = t.thin_type.get_kind();
    let mut subtypes: Vec<usize> = Vec::new();
    let mut field_names: Vec<String> = Vec::new();
    let mut precision: Option<u64> = None;
    let mut scale: Option<u64> = None;
    let mut maximum_length: Option<u64> = None;
    match &t.thin_type {
        ThinType::List(e) => {
            proof {
                assert(cs_full =~= seq![e.model()]);
                assert(numbered_children(cs_full, 0, start@ + 1));
                assert(numbered_v(cs_full[0], start@ + 1));
                assert(cs_full[0] == e.model());
            }
            let id = match e.column_id {
                Some(id) => id,
                None => {
                    proof {
                        assert(false);
                    }
                    0
                },
            };
            subtypes.push(id);
        },
        ThinType::Mapping(k, v) => {
            proof {
                assert(cs_full =~= seq![k.model(), v.model()]);
                assert(numbered_children(cs_full, 0, start@ + 1));
                assert(numbered_v(cs_full[0], start@ + 1));
                assert(numbered_children(cs_full, 1, start@ + 1 + size_v(cs_full[0])));
                assert(numbered_v(cs_full[1], start@ + 1 + size_v(cs_full[0])));
                assert(cs_full[0] == k.model());
                assert(cs_full[1] == v.model());
            }
            let idk = match k.column_id {
                Some(id) => id,
                None => {
                    proof {
                        assert(false);
                    }
                    0
                },
            };
            let idv = match v.column_id {
                Some(id) => id,
                None => {
                    proof {
                        assert(false);
                    }
                    0
                },
            };
            subtypes.push(idk);
            subtypes.push(idv);
        },
        ThinType::Struct(fs) => {
            proof {
                assert(cs_full == model_fields(fs@, 0));
                crate::model::lemma_model_fields_index(fs@, 0);
            }
            let mut i: usize = 0;
            let ghost ns: int = start@ + 1;
            while i < fs.len()
                invariant
                    0 <= i <= fs.len(),
                    subtypes@.len() == i,
                    field_names@.len() == i,
                    ns == start@ + 1 + size_children(cs_full, 0) - size_children(
                        cs_full,
                        i as int,
                    ),
                    numbered_children(cs_full, i as int, ns),
                    forall|q: int|
                        0 <= q < i ==> #[trigger] subtypes@[q] as int == cs_full[q].column_id->Some_0,
                    forall|q: int| 0 <= q < i ==> #[trigger] field_names@[q]@ == fs@[q].name@,
                decreases fs.len() - i,
            {
                proof {
                    assert(numbered_v(cs_full[i as int], ns));
                    assert(size_children(cs_full, i as int) == size_v(cs_full[i as int])
                        + size_children(cs_full, i + 1));
                }
                let id = match fs[i].datatype.column_id {
                    Some(id) => id,
                    None => {
                        proof {
                            assert(false);
                        }
                        0
                    },
                };
                subtypes.push(id);
                field_names.push(fs[i].name.clone());
                proof {
                    ns = ns + size_v(cs_full[i as int]);
                }
                i = i + 1;
            }
        },
        ThinType::Union(cs) => {
            proof {
                assert(cs_full == model_alternatives(cs@, 0));
                crate::model::lemma_model_alternatives_index(cs@, 0);
            }
            let mut i: usize = 0;
            let ghost ns: int = start@ + 1;
            while i < cs.len()
                invariant
                    0 <= i <= cs.len(),
                    subtypes@.len() == i,
                    ns == start@ + 1 + size_children(cs_full, 0) - size_children(
                        cs_full,
                        i as int,
                    ),
                    numbered_children(cs_full, i as int, ns),
                    forall|q: int|
                        0 <= q < i ==> #[trigger] subtypes@[q] as int == cs_full[q].column_id->Some_0,
                decreases cs.len() - i,
            {
                proof {
                    assert(numbered_v(cs_full[i as int], ns));
                    assert(size_children(cs_full, i as int) == size_v(cs_full[i as int])
                        + size_children(cs_full, i + 1));
                }
                let id = match cs[i].column_id {
                    Some(id) => id,
                    None => {
                        proof {
                            assert(false);
                        }
                        0
                    },
                };
                subtypes.push(id);
                proof {
                    ns = ns + size_v(cs_full[i as int]);
                }
                i = i + 1;
            }
        },
        ThinType::Decimal(p, s) => {
            precision = Some(*p);
            scale = Some(*s);
        },
        ThinType::Varchar(n) => {
            maximum_length = Some(*n);
        },
        ThinType::Char(n) => {
            maximum_length = Some(*n);
        },
        _ => {},
    }
    let entry = FlatType { kind, subtypes, field_names, precision, scale, maximum_length };
    proof {
        assert(entry.model().subtypes =~= entry_of(m0).subtypes);
        assert(entry.model().field_names =~~= entry_of(m0).field_names);
        assert(entry.model() =~~= entry_of(m0));
    }
    let ghost out0 = out@;
    out.push(entry);
    proof {
        assert(flats(out@) =~= flats(out0) + seq![entry_of(m0)]);
    }
    match &t.thin_type {
        ThinType::List(e) => {
            proof {
                assert(cs_full =~= seq![e.model()]);
                assert(numbered_children(cs_full, 0, start@ + 1));
                assert(numbered_v(cs_full[0], start@ + 1));
                assert(wf_children(cs_full, 0));
                assert(wf_v(cs_full[0]));
            }
            encode_node(&**e, Ghost(start@ + 1), out);
            proof {
                assert(flatten_children(cs_full, 1) =~= Seq::<FlatSpec>::empty());
                assert(flatten_children(cs_full, 0) == flatten(cs_full[0]) + flatten_children(
                    cs_full,
                    1,
                ));
                assert(flats(out@) =~= flats(out0) + flatten(m0));
            }
        },
        ThinType::Mapping(k, v) => {
            proof {
                assert(cs_full =~= seq![k.model(), v.model()]);
                assert(numbered_children(cs_full, 0, start@ + 1));
                assert(numbered_v(cs_full[0], start@ + 1));
                assert(numbered_children(cs_full, 1, start@ + 1 + size_v(cs_full[0])));
                assert(numbered_v(cs_full[1], start@ + 1 + size_v(cs_full[0])));
                assert(wf_children(cs_full, 0));
                assert(wf_v(cs_full[0]));
                assert(wf_children(cs_full, 1));
                assert(wf_v(cs_full[1]));
            }
            encode_node(&**k, Ghost(start@ + 1), out);
            encode_node(&**v, Ghost(start@ + 1 + size_v(cs_full[0])), out);
            proof {
                assert(flatten_children(cs_full, 2) =~= Seq::<FlatSpec>::empty());
                assert(flatten_children(cs_full, 1) == flatten(cs_full[1]) + flatten_children(
                    cs_full,
                    2,
                ));
                assert(flatten_children(cs_full, 0) == flatten(cs_full[0]) + flatten_children(
                    cs_full,
                    1,
                ));
                assert(flats(out@) =~= flats(out0) + flatten(m0));
            }
        },
        ThinType::Struct(fs) => {
            let mut i: usize = 0;
            let ghost ns: int = start@ + 1;
            proof {
                assert(flats(out@) + flatten_children(cs_full, 0) =~= flats(out0) + flatten(m0));
            }
            while i < fs.len()
                invariant
                    0 <= i <= fs.len(),
                    ns == start@ + 1 + size_children(cs_full, 0) - size_children(
                        cs_full,
                        i as int,
                    ),
                    numbered_children(cs_full, i as int, ns),
                    wf_children(cs_full, i as int),
                    flats(out@) + flatten_children(cs_full, i as int) == flats(out0) + flatten(m0),
                decreases fs.len() - i,
            {
                proof {
                    assert(numbered_v(cs_full[i as int], ns));
                    assert(wf_v(cs_full[i as int]));
                    assert(decreases_to!(fs@ => fs@[i as int]));
                }
                let ghost pre = out@;
                encode_node(&*fs[i].datatype, Ghost(ns), out);
                proof {
                    assert(flatten_children(cs_full, i as int) == flatten(cs_full[i as int])
                        + flatten_children(cs_full, i + 1));
                    assert((flats(pre) + flatten(cs_full[i as int])) + flatten_children(
                        cs_full,
                        i + 1,
                    ) =~= flats(pre) + (flatten(cs_full[i as int]) + flatten_children(
                        cs_full,
                        i + 1,
                    )));
                    ns = ns + size_v(cs_full[i as int]);
                }
                i = i + 1;
            }
            proof {
                assert(flatten_children(cs_full, fs@.len() as int) =~= Seq::<FlatSpec>::empty());
                assert(flats(out@) + flatten_children(cs_full, fs@.len() as int) =~= flats(out@));
            }
        },
        ThinType::Union(cs) => {
            let mut i: usize = 0;
            let ghost ns: int = start@ + 1;
            proof {
                assert(flats(out@) + flatten_children(cs_full, 0) =~= flats(out0) + flatten(m0));
            }
            while i < cs.len()
                invariant
                    0 <= i <= cs.len(),
                    ns == start@ + 1 + size_children(cs_full, 0) - size_children(
                        cs_full,
                        i as int,
                    ),
                    numbered_children(cs_full, i as int, ns),
                    wf_children(cs_full, i as int),
                    flats(out@) + flatten_children(cs_full, i as int) == flats(out0) + flatten(m0),
                decreases cs.len() - i,
            {
                proof {
                    assert(numbered_v(cs_full[i as int], ns));
                    assert(wf_v(cs_full[i as int]));
                    assert(decreases_to!(cs@ => cs@[i as int]));
                }
                let ghost pre = out@;
                encode_node(&**(&cs[i]), Ghost(ns), out);
                proof {
                    assert(flatten_children(cs_full, i as int) == flatten(cs_full[i as int])
                        + flatten_children(cs_full, i + 1));
                    assert((flats(pre) + flatten(cs_full[i as int])) + flatten_children(
                        cs_full,
                        i + 1,
                    ) =~= flats(pre) + (flatten(cs_full[i as int]) + flatten_children(
                        cs_full,
                        i + 1,
                    )));
                    ns = ns + size_v(cs_full[i as int]);
                }
                i = i + 1;
            }
            proof {
                assert(flatten_children(cs_full, cs@.len() as int) =~= Seq::<FlatSpec>::empty());
                assert(flats(out@) + flatten_children(cs_full, cs@.len() as int) =~= flats(out@));
            }
        },
        _ => {
            proof {
                assert(cs_full =~= Seq::<TreeView>::empty());
                assert(flatten_children(cs_full, 0) =~= Seq::<FlatSpec>::empty());
                assert(flats(out@) =~= flats(out0) + flatten(m0));
            }
        },
    }
}

/// Encodes a well-formed, numbered tree into its flat type array: one slot
/// per node, ordered by column id.
pub fn encode(tree: &DataType) -> (r: Vec<FlatType>)
    requires
        wf_v(tree.model()),
        numbered_v(tree.model(), 0),
    ensures
        flats(r@) == flatten(tree.model()),
{
    let mut out: Vec<FlatType> = Vec::new();
    proof {
        assert(flats(out@) =~= Seq::<FlatSpec>::empty());
    }
    encode_node(tree, Ghost(0int), &mut out);
    proof {
        assert(Seq::<FlatSpec>::empty() + flatten(tree.model()) =~= flatten(tree.model()));
    }
    out
}

/// The models of a run of decoded children.
pub open spec fn models_of(cs: Seq<DataType>) -> Seq<TreeView> {
    cs.map_values(|c: DataType| c.model())
}

/// Rebuilds the subtree at slot `i` of an untrusted flat array, exactly as
/// [`parse_at`] gives it meaning, and the first slot after that subtree.
/// Malformed input fails with a parse error, never a panic.
#[verifier::loop_isolation(false)]
#[verifier::rlimit(100)]
fn decode_at(flat: &Vec<FlatType>, i: usize) -> (r: Result<(DataType, usize), Error>)
    ensures
        match r {
            Ok((t, n)) => parse_at(flats(flat@), i as int) == Some((t.model(), n as int)) && i < n
                <= flat@.len(),
            Err(e) => parse_at(flats(flat@), i as int) is None && e matches Error::ParseError(_),
        },
    decreases flat.len() - i,
{
    let ghost s = flats(flat@);
    if i >= flat.len() {
        return Err(Error::ParseError("type index out of range".to_string()));
    }
    let e = &flat[i];
    let ghost es = s[i as int];
    proof {
        assert(es == e.model());
    }
    let nsubs = e.subtypes.len();
    let arity_ok = match e.kind {
        TypeKind::List => nsubs == 1,
        TypeKind::Mapping => nsubs == 2,
        TypeKind::Struct => true,
        TypeKind::Union => true,
        _ => nsubs == 0,
    };
    let names_ok = if matches!(e.kind, TypeKind::Struct) {
        e.field_names.len() == nsubs
    } else {
        e.field_names.len() == 0
    };
    let prec_ok = matches!(e.kind, TypeKind::Decimal) == e.precision.is_some();
    let scale_ok = matches!(e.kind, TypeKind::Decimal) == e.scale.is_some();
    let len_ok = e.kind.is_char() == e.maximum_length.is_some();
    if !(arity_ok && names_ok && prec_ok && scale_ok && len_ok) {
        proof {
            assert(!entry_shape_ok(es));
        }
        return Err(Error::ParseError("malformed type entry".to_string()));
    }
    proof {
        assert(entry_shape_ok(es));
    }
    let mut children: Vec<DataType> = Vec::new();
    let mut j: usize = i + 1;
    let mut idx: usize = 0;
    proof {
        assert(models_of(children@) =~= Seq::<TreeView>::empty());
        assert(forall|cs2: Seq<TreeView>| models_of(children@) + cs2 =~= cs2);
    }
    while idx < nsubs
        invariant
            i + 1 <= j <= flat@.len(),
            0 <= idx <= nsubs,
            children@.len() == idx,
            parse_children(s, es.subtypes, i + 1, 0) == (match parse_children(
                s,
                es.subtypes,
                j as int,
                idx as int,
            ) {
                Some((cs2, n2)) => Some((models_of(children@) + cs2, n2)),
                None => None::<(Seq<TreeView>, int)>,
            }),
        decreases nsubs - idx,
    {
        let sub = e.subtypes[idx];
        proof {
            assert(es.subtypes[idx as int] == sub as int);
        }
        if sub != j {
            proof {
                assert(parse_children(s, es.subtypes, j as int, idx as int) is None);
            }
            return Err(Error::ParseError(
                "subtype index does not reference the next column id".to_string(),
            ));
        }
        if j >= flat.len() {
            proof {
                assert(parse_children(s, es.subtypes, j as int, idx as int) is None);
            }
            return Err(Error::ParseError("subtype index out of range".to_string()));
        }
        match decode_at(flat, j) {
            Ok((c, n)) => {
                let ghost ch0 = children@;
                children.push(c);
                proof {
                    assert(parse_at(s, j as int) == Some((c.model(), n as int)));
                    assert(models_of(children@) =~= models_of(ch0) + seq![c.model()]);
                    assert(forall|cs2: Seq<TreeView>|
                        (models_of(ch0) + seq![c.model()]) + cs2 =~= models_of(ch0) + (seq![
                            c.model(),
                        ] + cs2));
                }
                j = n;
                idx = idx + 1;
            },
            Err(err) => {
                proof {
                    assert(parse_at(s, j as int) is None);
                    assert(parse_children(s, es.subtypes, j as int, idx as int) is None);
                }
                return Err(err);
            },
        }
    }
    let ghost ch_all = children@;
    proof {
        assert(parse_children(s, es.subtypes, j as int, idx as int) == Some(
            (Seq::<TreeView>::empty(), j as int),
        ));
        assert(models_of(ch_all) + Seq::<TreeView>::empty() =~= models_of(ch_all));
        assert(parse_children(s, es.subtypes, i + 1, 0) == Some((models_of(ch_all), j as int)));
    }
    let thin: ThinType = match e.kind {
        TypeKind::Boolean => ThinType::Boolean,
        TypeKind::Byte => ThinType::Byte,
        TypeKind::Short => ThinType::Short,
        TypeKind::Int => ThinType::Int,
        TypeKind::Long => ThinType::Long,
        TypeKind::Float => ThinType::Float,
        TypeKind::Double => ThinType::Double,
        TypeKind::String => ThinType::String,
        TypeKind::Binary => ThinType::Binary,
        TypeKind::Timestamp => ThinType::Timestamp,
        TypeKind::Date => ThinType::Date,
        TypeKind::TimestampInstant => ThinType::TimestampInstant,
        TypeKind::Decimal => {
            let p = match e.precision {
                Some(p) => p,
                None => {
                    proof {
                        assert(false);
                    }
                    0
                },
            };
            let sc = match e.scale {
                Some(sc) => sc,
                None => {
                    proof {
                        assert(false);
                    }
                    0
                },
            };
            ThinType::Decimal(p, sc)
        },
        TypeKind::Varchar => {
            let n = match e.maximum_length {
                Some(n) => n,
                None => {
                    proof {
                        assert(false);
                    }
                    0
                },
            };
            ThinType::Varchar(n)
        },
        TypeKind::Char => {
            let n = match e.maximum_length {
                Some(n) => n,
                None => {
                    proof {
                        assert(false);
                    }
                    0
                },
            };
            ThinType::Char(n)
        },
        TypeKind::List => {
            let c = match children.pop() {
                Some(c) => c,
                None => {
                    proof {
                        assert(false);
                    }
                    DataType::new(ThinType::Boolean)
                },
            };
            proof {
                assert(c == ch_all[0]);
            }
            ThinType::List(Box::new(c))
        },
        TypeKind::Mapping => {
            let cv = match children.pop() {
                Some(c) => c,
                None => {
                    proof {
                        assert(false);
                    }
                    DataType::new(ThinType::Boolean)
                },
            };
            let ck = match children.pop() {
                Some(c) => c,
                None => {
                    proof {
                        assert(false);
                    }
                    DataType::new(ThinType::Boolean)
                },
            };
            proof {
                assert(ck == ch_all[0] && cv == ch_all[1]);
            }
            ThinType::Mapping(Box::new(ck), Box::new(cv))
        },
        TypeKind::Struct => {
            let mut fields: Vec<Field> = Vec::new();
            let mut q: usize = 0;
            while q < nsubs
                invariant
                    0 <= q <= nsubs,
                    fields@.len() == q,
                    children@.len() == nsubs - q,
                    forall|w: int| 0 <= w < nsubs - q ==> children@[w] == ch_all[q + w],
                    forall|w: int| 0 <= w < q ==> #[trigger] fields@[w].datatype == ch_all[w],
                    forall|w: int| 0 <= w < q ==> #[trigger] fields@[w].name@ == es.field_names[w],
                decreases nsubs - q,
            {
                let c = children.remove(0);
                fields.push(Field { name: e.field_names[q].clone(), datatype: Box::new(c) });
                q = q + 1;
            }
            ThinType::Struct(fields)
        },
        TypeKind::Union => {
            let mut alts: Vec<Box<DataType>> = Vec::new();
            let mut q: usize = 0;
            while q < nsubs
                invariant
                    0 <= q <= nsubs,
                    alts@.len() == q,
                    children@.len() == nsubs - q,
                    forall|w: int| 0 <= w < nsubs - q ==> children@[w] == ch_all[q + w],
                    forall|w: int| 0 <= w < q ==> #[trigger] alts@[w] == ch_all[w],
                decreases nsubs - q,
            {
                let c = children.remove(0);
                alts.push(Box::new(c));
                q = q + 1;
            }
            ThinType::Union(alts)
        },
    };
    let node = DataType {
        thin_type: thin,
        column_id: Some(i),
        maximum_column_id: Some(j - 1),
        subtype_count: nsubs,
    };
    proof {
        match node.thin_type {
            ThinType::Struct(ref fields) => {
                crate::model::lemma_model_fields_index(fields@, 0);
                assert(model_children(node.thin_type) =~= models_of(ch_all));
                assert(node.model().field_names.len() == es.field_names.len());
                assert(forall|w: int|
                    0 <= w < fields@.len() ==> #[trigger] fields@[w].name@ == es.field_names[w]);
                assert(forall|w: int|
                    0 <= w < fields@.len() ==> #[trigger] node.model().field_names[w]
                        == fields@[w].name@);
                assert(node.model().field_names =~= es.field_names);
            },
            ThinType::Union(ref alts) => {
                crate::model::lemma_model_alternatives_index(alts@, 0);
                assert(model_children(node.thin_type) =~= models_of(ch_all));
            },
            ThinType::List(ref c) => {
                assert(model_children(node.thin_type) =~= models_of(ch_all));
            },
            ThinType::Mapping(ref ck, ref cv) => {
                assert(model_children(node.thin_type) =~= models_of(ch_all));
            },
            _ => {
                assert(models_of(ch_all) =~= Seq::<TreeView>::empty());
                assert(model_children(node.thin_type) =~= models_of(ch_all));
            },
        }
        match parse_at(s, i as int) {
            Some((tv, n2)) => {
                assert(n2 == j as int);
                assert(tv.children == models_of(ch_all));
                assert(node.model() =~~= tv);
            },
            None => {
                assert(false);
            },
        }
    }
    Ok((node, j))
}

/// Rebuilds the schema tree from an untrusted flat type array, resolving
/// every child index, re-deriving each node's arity from its resolved
/// children, recovering column ids as the decode order, and re-validating
/// the dense preorder numbering; any out-of-range index, backward or
/// non-preorder reference (and so any cycle), shape violation, or slot not
/// reachable from the root fails with a parse error.
pub fn decode(flat: &Vec<FlatType>) -> (r: Result<Box<DataType>, Error>)
    ensures
        match r {
            Ok(t) => parse(flats(flat@)) == Some(t.model()),
            Err(e) => parse(flats(flat@)) is None && e matches Error::ParseError(_),
        },
{
    match decode_at(flat, 0) {
        Ok((t, n)) => {
            if n == flat.len() {
                Ok(Box::new(t))
            } else {
                Err(Error::ParseError("unreachable entries in the type array".to_string()))
            }
        },
        Err(e) => Err(e),
    }
}

/// The round-trip law: the flat encoding of any well-formed tree numbered
/// from zero decodes to that very tree — same kinds, same shapes, same
/// column ids, same parameters.
pub proof fn lemma_codec_round_trip(m: TreeView)
    requires
        wf_v(m),
        numbered_v(m, 0),
    ensures
        parse(flatten(m)) == Some(m),
{
    lemma_flatten_len(m);
    lemma_parse_flatten_at(m, flatten(m), 0);
}

} // verus!
