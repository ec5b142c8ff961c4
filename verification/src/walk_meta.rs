//! Type-preserving rewrite targeting the metadata mapping.
//!
//! `walk_meta` applies a caller-supplied function to every metadata mapping
//! within a value, bottom-up: mappings nested inside metadata values are
//! rewritten first, then the function is applied to the enclosing mapping
//! itself. Runs of text-level nodes and sequences of structural nodes held
//! in metadata values contain no metadata mappings and are left untouched.
use vstd::prelude::*;
use crate::definition::{Meta, MetaValue};
use crate::model::{
    lemma_meta_entries_view_push, lemma_meta_values_view_push, meta_entries_view, meta_value_view,
    meta_values_view, meta_view, SpecMeta, SpecMetaValue,
};

verus! {

/// The caller's function can be applied to every metadata mapping.
pub open spec fn meta_fn_callable<F: Fn(Meta) -> Meta>(f: F) -> bool {
    forall|a: Meta| #[trigger] f.requires((a,))
}

/// `g` is the mathematical meaning of the caller's function `f`.
pub open spec fn meta_fn_models<F: Fn(Meta) -> Meta>(f: F, g: spec_fn(SpecMeta) -> SpecMeta) -> bool {
    &&& meta_fn_callable(f)
    &&& forall|a: Meta, r: Meta| #[trigger] f.ensures((a,), r) ==> meta_view(r) == g(meta_view(a))
}

/// Postorder rewrite of a metadata mapping: nested mappings inside the
/// entries first, then `g` on the rebuilt mapping itself.
pub open spec fn spec_walk_meta(m: SpecMeta, g: spec_fn(SpecMeta) -> SpecMeta) -> SpecMeta
    decreases m, 1int,
{
    g(spec_walk_meta_entries(m, g))
}

/// The entries of a mapping with every nested mapping rewritten: the
/// argument handed to the caller's function for this mapping.
pub open spec fn spec_walk_meta_entries(m: SpecMeta, g: spec_fn(SpecMeta) -> SpecMeta) -> SpecMeta
    decreases m, 0int,
{
    if m.len() == 0 {
        Seq::empty()
    } else {
        spec_walk_meta_entries(m.drop_last(), g).push(
            (m.last().0, spec_walk_meta_in_meta_value(m.last().1, g)),
        )
    }
}

/// Rewrite of the metadata mappings inside one metadata value.
pub open spec fn spec_walk_meta_in_meta_value(
    v: SpecMetaValue,
    g: spec_fn(SpecMeta) -> SpecMeta,
) -> SpecMetaValue
    decreases v, 0int,
{
    match v {
        SpecMetaValue::MetaMap(m) => SpecMetaValue::MetaMap(spec_walk_meta(m, g)),
        SpecMetaValue::MetaList(vs) => SpecMetaValue::MetaList(
            spec_walk_meta_in_meta_values(vs, g),
        ),
        SpecMetaValue::MetaBool(b) => SpecMetaValue::MetaBool(b),
        SpecMetaValue::MetaString(s) => SpecMetaValue::MetaString(s),
        SpecMetaValue::MetaInlines(ils) => SpecMetaValue::MetaInlines(ils),
        SpecMetaValue::MetaBlocks(bs) => SpecMetaValue::MetaBlocks(bs),
    }
}

/// Rewrite of the metadata mappings inside a sequence of metadata values.
pub open spec fn spec_walk_meta_in_meta_values(
    s: Seq<SpecMetaValue>,
    g: spec_fn(SpecMeta) -> SpecMeta,
) -> Seq<SpecMetaValue>
    decreases s, 0int,
{
    if s.len() == 0 {
        Seq::empty()
    } else {
        spec_walk_meta_in_meta_values(s.drop_last(), g).push(
            spec_walk_meta_in_meta_value(s.last(), g),
        )
    }
}

pub proof fn lemma_spec_walk_meta_entries_push(
    m: SpecMeta,
    x: (Seq<char>, SpecMetaValue),
    g: spec_fn(SpecMeta) -> SpecMeta,
)
    ensures
        spec_walk_meta_entries(m.push(x), g) == spec_walk_meta_entries(m, g).push(
            (x.0, spec_walk_meta_in_meta_value(x.1, g)),
        ),
{
    assert(m.push(x).drop_last() =~= m);
}

pub proof fn lemma_spec_walk_meta_in_meta_values_push(
    s: Seq<SpecMetaValue>,
    x: SpecMetaValue,
    g: spec_fn(SpecMeta) -> SpecMeta,
)
    ensures
        spec_walk_meta_in_meta_values(s.push(x), g) == spec_walk_meta_in_meta_values(s, g).push(
            spec_walk_meta_in_meta_value(x, g),
        ),
{
    assert(s.push(x).drop_last() =~= s);
}

/// Apply `f` to every metadata mapping within this mapping, bottom-up:
/// nested mappings first, then `f` on the rebuilt mapping itself.
pub fn walk_meta<F: Fn(Meta) -> Meta>(m: Meta, f: &F) -> (r: Meta)
    requires
        meta_fn_callable(*f),
    ensures
        forall|g: spec_fn(SpecMeta) -> SpecMeta|
            #[trigger] meta_fn_models(*f, g) ==> meta_view(r) == spec_walk_meta(meta_view(m), g),
    decreases m,
{
    let Meta { entries } = m;
    proof {
        assert(m == Meta { entries });
        assert(decreases_to!(m => entries));
    }
    let ghost orig: Seq<(String, MetaValue)> = entries@;
    proof {
        assert(decreases_to!(entries => orig));
    }
    let mut rest = entries;
    let mut out: Vec<(String, MetaValue)> = Vec::new();
    let ghost mut i: int = 0;
    while rest.len() > 0
        invariant
            meta_fn_callable(*f),
            0 <= i <= orig.len(),
            rest@ == orig.subrange(i, orig.len() as int),
            decreases_to!(m => orig),
            forall|g: spec_fn(SpecMeta) -> SpecMeta|
                #[trigger] meta_fn_models(*f, g) ==> meta_entries_view(out@)
                    == spec_walk_meta_entries(meta_entries_view(orig.subrange(0, i)), g),
        decreases rest@.len(),
    {
        let x = rest.remove(0);
        proof {
            assert(x == orig[i]);
            assert(decreases_to!(orig => orig[i]));
        }
        let (k, val) = x;
        proof {
            assert(x == (k, val));
            assert(decreases_to!(orig[i] => val));
        }
        let ghost out_before = out@;
        let y = (k, walk_meta_in_meta_value(val, f));
        out.push(y);
        proof {
            assert forall|g: spec_fn(SpecMeta) -> SpecMeta| #[trigger] meta_fn_models(
                *f,
                g,
            ) implies meta_entries_view(out@) == spec_walk_meta_entries(
                meta_entries_view(orig.subrange(0, i + 1)),
                g,
            ) by {
                assert(orig.subrange(0, i + 1) =~= orig.subrange(0, i).push(orig[i]));
                lemma_meta_entries_view_push(orig.subrange(0, i), orig[i]);
                lemma_spec_walk_meta_entries_push(
                    meta_entries_view(orig.subrange(0, i)),
                    (orig[i].0@, meta_value_view(orig[i].1)),
                    g,
                );
                assert(out@ == out_before.push(y));
                lemma_meta_entries_view_push(out_before, y);
            }
            i = i + 1;
            assert(rest@ == orig.subrange(i, orig.len() as int));
        }
    }
    proof {
        assert(orig.subrange(0, i) =~= orig);
    }
    let rebuilt = Meta { entries: out };
    let r = f(rebuilt);
    proof {
        assert forall|g: spec_fn(SpecMeta) -> SpecMeta| #[trigger] meta_fn_models(
            *f,
            g,
        ) implies meta_view(r) == spec_walk_meta(meta_view(m), g) by {
            assert(f.ensures((rebuilt,), r));
            assert(meta_view(rebuilt) == spec_walk_meta_entries(meta_view(m), g));
        }
    }
    r
}

/// Apply `f` to every metadata mapping within one metadata value.
pub fn walk_meta_in_meta_value<F: Fn(Meta) -> Meta>(v: MetaValue, f: &F) -> (r: MetaValue)
    requires
        meta_fn_callable(*f),
    ensures
        forall|g: spec_fn(SpecMeta) -> SpecMeta|
            #[trigger] meta_fn_models(*f, g) ==> meta_value_view(r)
                == spec_walk_meta_in_meta_value(meta_value_view(v), g),
    decreases v,
{
    match v {
        MetaValue::MetaMap(m) => {
            proof {
                assert(v == MetaValue::MetaMap(m));
                assert(decreases_to!(MetaValue::MetaMap(m) => m));
            }
            MetaValue::MetaMap(walk_meta(m, f))
        }
        MetaValue::MetaList(vs) => {
            proof {
                assert(v == MetaValue::MetaList(vs));
                assert(decreases_to!(MetaValue::MetaList(vs) => vs));
            }
            MetaValue::MetaList(walk_meta_in_meta_values(vs, f))
        }
        MetaValue::MetaBool(b) => {
            proof {
                assert(v == MetaValue::MetaBool(b));
            }
            MetaValue::MetaBool(b)
        }
        MetaValue::MetaString(s) => {
            proof {
                assert(v == MetaValue::MetaString(s));
            }
            MetaValue::MetaString(s)
        }
        MetaValue::MetaInlines(ils) => {
            proof {
                assert(v == MetaValue::MetaInlines(ils));
            }
            MetaValue::MetaInlines(ils)
        }
        MetaValue::MetaBlocks(bs) => {
            proof {
                assert(v == MetaValue::MetaBlocks(bs));
            }
            MetaValue::MetaBlocks(bs)
        }
    }
}

/// Apply `f` to every metadata mapping within a sequence of metadata values.
pub fn walk_meta_in_meta_values<F: Fn(Meta) -> Meta>(v: Vec<MetaValue>, f: &F) -> (r: Vec<
    MetaValue,
>)
    requires
        meta_fn_callable(*f),
    ensures
        forall|g: spec_fn(SpecMeta) -> SpecMeta|
            #[trigger] meta_fn_models(*f, g) ==> meta_values_view(r@)
                == spec_walk_meta_in_meta_values(meta_values_view(v@), g),
    decreases v,
{
    let ghost orig: Seq<MetaValue> = v@;
    proof {
        assert(decreases_to!(v => orig));
    }
    let mut rest = v;
    let mut out: Vec<MetaValue> = Vec::new();
    let ghost mut i: int = 0;
    while rest.len() > 0
        invariant
            meta_fn_callable(*f),
            0 <= i <= orig.len(),
            rest@ == orig.subrange(i, orig.len() as int),
            decreases_to!(v => orig),
            forall|g: spec_fn(SpecMeta) -> SpecMeta|
                #[trigger] meta_fn_models(*f, g) ==> meta_values_view(out@)
                    == spec_walk_meta_in_meta_values(meta_values_view(orig.subrange(0, i)), g),
        decreases rest@.len(),
    {
        let x = rest.remove(0);
        proof {
            assert(x == orig[i]);
            assert(decreases_to!(orig => orig[i]));
        }
        let ghost out_before = out@;
        let y = walk_meta_in_meta_value(x, f);
        out.push(y);
        proof {
            assert forall|g: spec_fn(SpecMeta) -> SpecMeta| #[trigger] meta_fn_models(
                *f,
                g,
            ) implies meta_values_view(out@) == spec_walk_meta_in_meta_values(
                meta_values_view(orig.subrange(0, i + 1)),
                g,
            ) by {
                assert(orig.subrange(0, i + 1) =~= orig.subrange(0, i).push(orig[i]));
                lemma_meta_values_view_push(orig.subrange(0, i), orig[i]);
                lemma_spec_walk_meta_in_meta_values_push(
                    meta_values_view(orig.subrange(0, i)),
                    meta_value_view(orig[i]),
                    g,
                );
                assert(out@ == out_before.push(y));
                lemma_meta_values_view_push(out_before, y);
            }
            i = i + 1;
            assert(rest@ == orig.subrange(i, orig.len() as int));
        }
    }
    proof {
        assert(orig.subrange(0, i) =~= orig);
    }
    out
}

} // verus!
