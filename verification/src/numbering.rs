//! The column-id assigner: one preorder pass that stamps every node.
use vstd::prelude::*;
use crate::data_type::{DataType, Field, ThinType};
use crate::model::{
    assign_children, assign_spec, lemma_model_alternatives_index, lemma_model_alternatives_push,
    lemma_model_fields_index, lemma_model_fields_push, model_alternatives, model_children,
    model_fields, size_children, size_v, TreeView,
};

verus! {

/// Stamps the subtree rooted at `t` with preorder column ids beginning at
/// `next_id`, backfilling every node's maximum column id once its subtree
/// is complete; returns the stamped tree and the first unused id.
#[verifier::loop_isolation(false)]
#[verifier::rlimit(60)]
fn assign_node(t: DataType, next_id: usize) -> (r: (DataType, usize))
    requires
        next_id + size_v(t.model()) <= usize::MAX,
    ensures
        r.0.model() == assign_spec(t.model(), next_id as int),
        r.1 == next_id + size_v(t.model()),
    decreases t,
{
    let ghost t0 = t;
    let ghost m0 = t0.model();
    let ghost cs_full = model_children(t0.thin_type);
    assert(size_v(m0) == 1 + size_children(cs_full, 0));
    let DataType { thin_type, column_id: _, maximum_column_id: _, subtype_count } = t;
    let (new_thin, next): (ThinType, usize) = match thin_type {
        ThinType::List(e) => {
            proof {
                assert(cs_full =~= seq![e.model()]);
                assert(size_children(cs_full, 0) == size_v(e.model()) + size_children(cs_full, 1));
            }
            let (c, n) = assign_node(*e, next_id + 1);
            proof {
                assert(model_children(ThinType::List(Box::new(c))) =~= seq![c.model()]);
                assert(assign_children(cs_full, 1, next_id + 1 + size_v(cs_full[0]))
                    =~= Seq::<TreeView>::empty());
                assert(assign_children(cs_full, 0, next_id + 1) =~= seq![
                    assign_spec(cs_full[0], next_id + 1),
                ]);
            }
            (ThinType::List(Box::new(c)), n)
        },
        ThinType::Mapping(k, v) => {
            proof {
                assert(cs_full =~= seq![k.model(), v.model()]);
                assert(size_children(cs_full, 1) == size_v(v.model()) + size_children(cs_full, 2));
                assert(size_children(cs_full, 0) == size_v(k.model()) + size_children(cs_full, 1));
            }
            let (ck, n1) = assign_node(*k, next_id + 1);
            let (cv, n2) = assign_node(*v, n1);
            proof {
                assert(model_children(ThinType::Mapping(Box::new(ck), Box::new(cv))) =~= seq![
                    ck.model(),
                    cv.model(),
                ]);
                assert(assign_children(cs_full, 2, n1 + size_v(cs_full[1]))
                    =~= Seq::<TreeView>::empty());
                assert(assign_children(cs_full, 1, n1 as int) =~= seq![
                    assign_spec(cs_full[1], n1 as int),
                ]);
                assert(assign_children(cs_full, 0, next_id + 1) =~= seq![
                    assign_spec(cs_full[0], next_id + 1),
                ] + assign_children(cs_full, 1, n1 as int));
            }
            (ThinType::Mapping(Box::new(ck), Box::new(cv)), n2)
        },
        ThinType::Struct(fs) => {
            let ghost fsv0 = fs;
            let ghost fs0 = fs@;
            proof {
                assert(cs_full == model_fields(fs0, 0));
                lemma_model_fields_index(fs0, 0);
            }
            let mut fs = fs;
            let mut out: Vec<Field> = Vec::new();
            let mut n: usize = next_id + 1;
            proof {
                assert(model_fields(out@, 0) =~= Seq::<TreeView>::empty());
                assert(model_fields(out@, 0) + assign_children(cs_full, 0, next_id + 1)
                    =~= assign_children(cs_full, 0, next_id + 1));
            }
            while fs.len() > 0
                invariant
                    out@.len() + fs@.len() == fs0.len(),
                    fs0.len() == cs_full.len(),
                    fs@ =~= fs0.subrange(out@.len() as int, fs0.len() as int),
                    forall|j: int| 0 <= j < out@.len() ==> #[trigger] out@[j].name == fs0[j].name,
                    forall|j: int|
                        0 <= j < cs_full.len() ==> #[trigger] cs_full[j] == fs0[j].datatype.model(),
                    n as int == next_id + 1 + size_children(cs_full, 0) - size_children(
                        cs_full,
                        out@.len() as int,
                    ),
                    next_id + 1 + size_children(cs_full, 0) <= usize::MAX,
                    model_fields(out@, 0) + assign_children(cs_full, out@.len() as int, n as int)
                        == assign_children(cs_full, 0, next_id + 1),
                decreases fs@.len(),
            {
                let ghost k = out@.len() as int;
                let f = fs.remove(0);
                proof {
                    assert(fs0 == fsv0@);
                    assert(f == fs0[k]);
                    assert(size_children(cs_full, k) == size_v(cs_full[k]) + size_children(
                        cs_full,
                        k + 1,
                    ));
                    assert(decreases_to!(t0 => t0.thin_type));
                    assert(t0.thin_type == ThinType::Struct(fsv0));
                    assert(decreases_to!(t0.thin_type => fsv0));
                    assert(decreases_to!(fsv0 => fsv0[k]));
                    assert(decreases_to!(fsv0[k] => fs0[k].datatype));
                }
                let (c, n2) = assign_node(*f.datatype, n);
                let ghost out_before = out@;
                out.push(Field { name: f.name, datatype: Box::new(c) });
                n = n2;
                proof {
                    lemma_model_fields_push(out_before, out@[k as int]);
                    assert(assign_children(cs_full, k, (next_id + 1 + size_children(cs_full, 0)
                        - size_children(cs_full, k)) as int) == seq![
                        assign_spec(cs_full[k], next_id + 1 + size_children(cs_full, 0)
                            - size_children(cs_full, k)),
                    ] + assign_children(cs_full, k + 1, next_id + 1 + size_children(cs_full, 0)
                        - size_children(cs_full, k + 1)));
                    assert((model_fields(out_before, 0) + seq![c.model()]) + assign_children(
                        cs_full,
                        k + 1,
                        n as int,
                    ) =~= model_fields(out_before, 0) + (seq![c.model()] + assign_children(
                        cs_full,
                        k + 1,
                        n as int,
                    )));
                    assert(fs@ =~= fs0.subrange(out@.len() as int, fs0.len() as int));
                }
            }
            proof {
                assert(out@.len() == fs0.len());
                assert(size_children(cs_full, cs_full.len() as int) == 0);
                assert(assign_children(cs_full, cs_full.len() as int, n as int)
                    =~= Seq::<TreeView>::empty());
                assert(model_fields(out@, 0) + assign_children(cs_full, cs_full.len() as int, n as int)
                    =~= model_fields(out@, 0));
                assert(out@.map_values(|ff: Field| ff.name@) =~= fs0.map_values(
                    |ff: Field| ff.name@,
                ));
            }
            (ThinType::Struct(out), n)
        },
        ThinType::Union(cs) => {
            let ghost csv0 = cs;
            let ghost cs0 = cs@;
            proof {
                assert(cs_full == model_alternatives(cs0, 0));
                lemma_model_alternatives_index(cs0, 0);
            }
            let mut cs = cs;
            let mut out: Vec<Box<DataType>> = Vec::new();
            let mut n: usize = next_id + 1;
            proof {
                assert(model_alternatives(out@, 0) =~= Seq::<TreeView>::empty());
                assert(model_alternatives(out@, 0) + assign_children(cs_full, 0, next_id + 1)
                    =~= assign_children(cs_full, 0, next_id + 1));
            }
            while cs.len() > 0
                invariant
                    out@.len() + cs@.len() == cs0.len(),
                    cs0.len() == cs_full.len(),
                    cs@ =~= cs0.subrange(out@.len() as int, cs0.len() as int),
                    forall|j: int|
                        0 <= j < cs_full.len() ==> #[trigger] cs_full[j] == cs0[j].model(),
                    n as int == next_id + 1 + size_children(cs_full, 0) - size_children(
                        cs_full,
                        out@.len() as int,
                    ),
                    next_id + 1 + size_children(cs_full, 0) <= usize::MAX,
                    model_alternatives(out@, 0) + assign_children(
                        cs_full,
                        out@.len() as int,
                        n as int,
                    ) == assign_children(cs_full, 0, next_id + 1),
                decreases cs@.len(),
            {
                let ghost k = out@.len() as int;
                let b = cs.remove(0);
                proof {
                    assert(cs0 == csv0@);
                    assert(b == cs0[k]);
                    assert(size_children(cs_full, k) == size_v(cs_full[k]) + size_children(
                        cs_full,
                        k + 1,
                    ));
                    assert(decreases_to!(t0 => t0.thin_type));
                    assert(t0.thin_type == ThinType::Union(csv0));
                    assert(decreases_to!(t0.thin_type => csv0));
                    assert(decreases_to!(csv0 => csv0[k]));
                }
                let (c, n2) = assign_node(*b, n);
                let ghost out_before = out@;
                out.push(Box::new(c));
                n = n2;
                proof {
                    lemma_model_alternatives_push(out_before, out@[k as int]);
                    assert(assign_children(cs_full, k, (next_id + 1 + size_children(cs_full, 0)
                        - size_children(cs_full, k)) as int) == seq![
                        assign_spec(cs_full[k], next_id + 1 + size_children(cs_full, 0)
                            - size_children(cs_full, k)),
                    ] + assign_children(cs_full, k + 1, next_id + 1 + size_children(cs_full, 0)
                        - size_children(cs_full, k + 1)));
                    assert((model_alternatives(out_before, 0) + seq![c.model()]) + assign_children(
                        cs_full,
                        k + 1,
                        n as int,
                    ) =~= model_alternatives(out_before, 0) + (seq![c.model()] + assign_children(
                        cs_full,
                        k + 1,
                        n as int,
                    )));
                    assert(cs@ =~= cs0.subrange(out@.len() as int, cs0.len() as int));
                }
            }
            proof {
                assert(out@.len() == cs0.len());
                assert(size_children(cs_full, cs_full.len() as int) == 0);
                assert(assign_children(cs_full, cs_full.len() as int, n as int)
                    =~= Seq::<TreeView>::empty());
                assert(model_alternatives(out@, 0) + assign_children(
                    cs_full,
                    cs_full.len() as int,
                    n as int,
                ) =~= model_alternatives(out@, 0));
            }
            (ThinType::Union(out), n)
        },
        other => {
            proof {
                assert(cs_full =~= Seq::<TreeView>::empty());
                assert(size_children(cs_full, 0) == 0);
                assert(assign_children(cs_full, 0, next_id + 1) =~= Seq::<TreeView>::empty());
            }
            (other, next_id + 1)
        },
    };
    let out = DataType {
        thin_type: new_thin,
        column_id: Some(next_id),
        maximum_column_id: Some(next - 1),
        subtype_count,
    };
    proof {
        assert(next == next_id + size_v(m0));
        assert(out.model().kind == assign_spec(m0, next_id as int).kind);
        assert(out.model().children == assign_spec(m0, next_id as int).children);
        assert(out.model().field_names =~~= assign_spec(m0, next_id as int).field_names);
        assert(out.model().precision == assign_spec(m0, next_id as int).precision);
        assert(out.model().scale == assign_spec(m0, next_id as int).scale);
        assert(out.model().maximum_length == assign_spec(m0, next_id as int).maximum_length);
        assert(out.model().column_id == assign_spec(m0, next_id as int).column_id);
        assert(out.model().maximum_column_id == assign_spec(m0, next_id as int).maximum_column_id);
        assert(out.model().subtype_count == assign_spec(m0, next_id as int).subtype_count);
        assert(out.model() =~~= assign_spec(m0, next_id as int));
    }
    (out, next)
}

impl DataType {
    /// Runs the numbering pass over this tree: assigns dense preorder
    /// column ids beginning at `first_id` and backfills every node's
    /// maximum column id. Returns the first id not used by the tree.
    /// Re-running the pass on a numbered tree re-derives the same ids.
    pub fn assign_column_ids(&mut self, first_id: usize) -> (next: usize)
        requires
            first_id + size_v(old(self).model()) <= usize::MAX,
        ensures
            final(self).model() == assign_spec(old(self).model(), first_id as int),
            next == first_id + size_v(old(self).model()),
    {
        let mut tmp = DataType::new(ThinType::Boolean);
        core::mem::swap(&mut tmp, self);
        let (out, next) = assign_node(tmp, first_id);
        *self = out;
        next
    }
}

} // verus!
