//! What holds of every expansion: completeness and order of the injected
//! fields, correctness of the accessors, the failures on an empty field list
//! and on positional fields, and what is carried over unchanged.

use vstd::prelude::*;
use crate::accessor::{access, constructed, lookup, value_names, variant_named, Instance};
use crate::error::ErrorView;
use crate::expand::{duplicate_from, expansion_of};
use crate::inject::{
    clash_from, conflict_from, injected, injected_all, own_fields, positional_from,
};
use crate::model::{names_of, FieldView, ItemKindView, ItemView, PayloadView, VariantView};

verus! {

proof fn lemma_positional_from(vs: Seq<VariantView>, i: int)
    requires
        0 <= i,
    ensures
        positional_from(vs, i) matches Some(p) ==> i <= p < vs.len() && vs[p].payload is Positional
            && forall|q: int| i <= q < p ==> !(vs[q].payload is Positional),
        positional_from(vs, i) is None ==> forall|q: int|
            i <= q < vs.len() ==> !(vs[q].payload is Positional),
    decreases vs.len() - i,
{
    if i < vs.len() {
        lemma_positional_from(vs, i + 1);
    }
}

proof fn lemma_clash_from(own: Seq<FieldView>, names: Seq<Seq<char>>, j: int)
    requires
        0 <= j,
    ensures
        clash_from(own, names, j) is None ==> forall|c: int|
            j <= c < own.len() ==> !names.contains(own[c].name),
    decreases own.len() - j,
{
    if j < own.len() {
        lemma_clash_from(own, names, j + 1);
    }
}

proof fn lemma_conflict_from(vs: Seq<VariantView>, sh: Seq<FieldView>, i: int)
    requires
        0 <= i,
    ensures
        conflict_from(vs, sh, i) is None ==> forall|m: int, c: int|
            i <= m < vs.len() && 0 <= c < own_fields(vs[m].payload).len() ==> !names_of(
                sh,
            ).contains(#[trigger] own_fields(vs[m].payload)[c].name),
    decreases vs.len() - i,
{
    if i < vs.len() {
        lemma_clash_from(own_fields(vs[i].payload), names_of(sh), 0);
        lemma_conflict_from(vs, sh, i + 1);
    }
}

proof fn lemma_duplicate_from(fs: Seq<FieldView>, i: int)
    requires
        0 <= i,
    ensures
        duplicate_from(fs, i) is None ==> forall|a: int, b: int|
            0 <= a < b < fs.len() && i <= b ==> fs[a].name != fs[b].name,
    decreases fs.len() - i,
{
    if i < fs.len() {
        lemma_duplicate_from(fs, i + 1);
        if duplicate_from(fs, i) is None {
            assert forall|a: int| 0 <= a < i implies fs[a].name != fs[i].name by {
                assert(names_of(fs.take(i))[a] == fs[a].name);
            }
        }
    }
}

proof fn lemma_variant_named(vs: Seq<VariantView>, name: Seq<char>, i: int)
    requires
        0 <= i,
    ensures
        variant_named(vs, name, i) matches Some(r) ==> i <= r < vs.len() && vs[r].name == name,
    decreases vs.len() - i,
{
    if i < vs.len() {
        lemma_variant_named(vs, name, i + 1);
    }
}

proof fn lemma_lookup_first<V>(vals: Seq<(String, V)>, name: Seq<char>, i: int, j: int)
    requires
        0 <= i <= j < vals.len(),
        vals[j].0@ == name,
        forall|m: int| i <= m < j ==> vals[m].0@ != name,
    ensures
        lookup(vals, name, i) == Some(vals[j].1),
    decreases j - i,
{
    if i < j {
        lemma_lookup_first(vals, name, i + 1, j);
    }
}

/// Every variant of a successful expansion has named fields, among which is
/// an exact copy (attributes, name and type) of each shared field. An
/// expansion succeeds whenever the shared list is non-empty without repeated
/// names, the item is an enum whose variants have named fields or none, and
/// no variant already declares a shared field's name.
pub proof fn lemma_injection_complete(shared: Seq<FieldView>, item: ItemView)
    requires
        shared.len() > 0,
        duplicate_from(shared, 0) is None,
        item.kind matches ItemKindView::Enum(vs) && (forall|i: int|
            0 <= i < vs.len() ==> !(#[trigger] vs[i].payload is Positional)) && conflict_from(
            vs,
            shared,
            0,
        ) is None,
    ensures
        expansion_of(Ok(shared), Ok(item)) matches Ok(e) && e.union.variants.len()
            == item.kind->Enum_0.len() && forall|i: int, k: int|
            0 <= i < e.union.variants.len() && 0 <= k < shared.len() ==> {
                &&& e.union.variants[i].payload is Named
                &&& own_fields(e.union.variants[i].payload).contains(shared[k])
                &&& names_of(own_fields(e.union.variants[i].payload)).contains(shared[k].name)
            },
{
    let vs = item.kind->Enum_0;
    lemma_positional_from(vs, 0);
    let e = expansion_of(Ok(shared), Ok(item))->Ok_0;
    assert forall|i: int, k: int|
        0 <= i < e.union.variants.len() && 0 <= k < shared.len() implies {
            &&& e.union.variants[i].payload is Named
            &&& own_fields(e.union.variants[i].payload).contains(shared[k])
            &&& names_of(own_fields(e.union.variants[i].payload)).contains(shared[k].name)
        } by {
        let fs = own_fields(vs[i].payload) + shared;
        assert(e.union.variants[i] == injected(vs[i], shared));
        let at = own_fields(vs[i].payload).len() + k;
        assert(fs[at] == shared[k]);
        assert(names_of(fs)[at] == shared[k].name);
    }
}

/// In a successful expansion, a variant that declared named fields keeps them
/// first, in their order, followed by the shared fields in theirs; a variant
/// without payload gets exactly the shared fields.
pub proof fn lemma_order_preserved(
    shared: Seq<FieldView>,
    item: ItemView,
    i: int,
)
    requires
        expansion_of(Ok(shared), Ok(item)) is Ok,
        item.kind is Enum,
        0 <= i < item.kind->Enum_0.len(),
    ensures
        ({
            let e = expansion_of(Ok(shared), Ok(item))->Ok_0;
            let v = item.kind->Enum_0[i];
            &&& v.payload matches PayloadView::Named(own) ==> e.union.variants[i].payload
                == PayloadView::Named(own + shared)
            &&& v.payload is NoPayload ==> e.union.variants[i].payload == PayloadView::Named(
                shared,
            )
        }),
{
    let v = item.kind->Enum_0[i];
    if v.payload is NoPayload {
        assert(Seq::<FieldView>::empty() + shared =~= shared);
    }
}

/// On any value built from a successful expansion's enum, the accessor of
/// a shared field yields exactly the value given to that field, whatever
/// the variant.
pub proof fn lemma_accessor_reads_assigned<V>(
    shared: Seq<FieldView>,
    item: ItemView,
    inst: Instance<V>,
    k: int,
    j: int,
)
    requires
        expansion_of(Ok(shared), Ok(item)) is Ok,
        constructed(inst, expansion_of(Ok(shared), Ok(item))->Ok_0.union.variants),
        0 <= k < shared.len(),
        0 <= j < inst.values@.len(),
        inst.values@[j].0@ == shared[k].name,
    ensures
        access(expansion_of(Ok(shared), Ok(item))->Ok_0.accessors[k], inst) == Some(
            inst.values@[j].1,
        ),
{
    let e = expansion_of(Ok(shared), Ok(item))->Ok_0;
    let vs = item.kind->Enum_0;
    let out = e.union.variants;
    let vals = inst.values@;
    let name = shared[k].name;
    lemma_variant_named(out, inst.variant@, 0);
    let i = variant_named(out, inst.variant@, 0)->Some_0;
    let own = own_fields(vs[i].payload);
    assert(out[i] == injected(vs[i], shared));
    assert(own_fields(out[i].payload) == own + shared);
    let n = own.len();
    assert(value_names(vals) == names_of(own + shared));
    assert(vals.len() == value_names(vals).len());
    assert(vals.len() == n + shared.len());
    lemma_conflict_from(vs, shared, 0);
    lemma_duplicate_from(shared, 0);
    // The accessor has an arm for the value's variant.
    let acc = e.accessors[k];
    assert(acc.arms[i] == inst.variant@);
    // Only the position of the shared field carries its name.
    assert forall|m: int| 0 <= m < vals.len() && m != n + k implies vals[m].0@ != name by {
        assert(value_names(vals)[m] == vals[m].0@);
        if m < n {
            assert(names_of(own + shared)[m] == own[m].name);
            assert(!names_of(shared).contains(own[m].name));
            assert(names_of(shared)[k] == name);
        } else {
            assert(names_of(own + shared)[m] == shared[m - n].name);
            if m - n < k {
                assert(shared[m - n].name != shared[k].name);
            } else {
                assert(shared[k].name != shared[m - n].name);
            }
        }
    }
    assert(value_names(vals)[j] == vals[j].0@);
    assert(names_of(own + shared)[n + k] == name);
    assert(j == n + k);
    lemma_lookup_first(vals, name, 0, j);
}

/// An empty shared-field list is refused, whatever the item.
pub proof fn lemma_empty_shared_refused(item: Result<ItemView, Seq<char>>)
    ensures
        expansion_of(Ok(Seq::empty()), item) == Err::<
            crate::expand::ExpansionView,
            ErrorView,
        >(ErrorView::EmptySharedFields),
{
}

/// An enum with a variant of positional fields is refused, naming the first
/// such variant, whenever the shared list parsed and is not empty.
pub proof fn lemma_positional_refused(shared: Seq<FieldView>, item: ItemView, m: int)
    requires
        shared.len() > 0,
        item.kind is Enum,
        0 <= m < item.kind->Enum_0.len(),
        item.kind->Enum_0[m].payload is Positional,
    ensures
        ({
            let vs = item.kind->Enum_0;
            exists|p: int|
                0 <= p <= m && vs[p].payload is Positional && (forall|q: int|
                    0 <= q < p ==> !(vs[q].payload is Positional)) && expansion_of(
                    Ok(shared),
                    Ok(item),
                ) == Err::<crate::expand::ExpansionView, ErrorView>(
                    ErrorView::PositionalFieldConflict(vs[p].name),
                )
        }),
{
    let vs = item.kind->Enum_0;
    lemma_positional_from(vs, 0);
    let p = positional_from(vs, 0)->Some_0;
    assert(p <= m);
}

/// Injection keeps every variant's attributes, name and discriminant and
/// its own fields, in order, and gives it an exact copy of each shared
/// field (attributes, visibility, name and type) after them.
pub proof fn lemma_injection_pass_through(vs: Seq<VariantView>, shared: Seq<FieldView>)
    ensures
        injected_all(vs, shared).len() == vs.len(),
        forall|i: int|
            0 <= i < vs.len() ==> {
                let out = #[trigger] injected_all(vs, shared)[i];
                &&& out.attrs == vs[i].attrs
                &&& out.name == vs[i].name
                &&& out.discriminant == vs[i].discriminant
                &&& out.payload == PayloadView::Named(own_fields(vs[i].payload) + shared)
            },
{
}

/// A successful expansion keeps the item's attributes, visibility, name and
/// generics, and each variant's attributes, name and discriminant; every
/// copy of a shared field carries that field's attributes and visibility.
pub proof fn lemma_pass_through(shared: Seq<FieldView>, item: ItemView)
    requires
        expansion_of(Ok(shared), Ok(item)) is Ok,
    ensures
        ({
            let e = expansion_of(Ok(shared), Ok(item))->Ok_0;
            let vs = item.kind->Enum_0;
            &&& e.union.attrs == item.attrs
            &&& e.union.vis == item.vis
            &&& e.union.name == item.name
            &&& e.union.generics == item.generics
            &&& e.union.variants.len() == vs.len()
            &&& forall|i: int|
                0 <= i < vs.len() ==> {
                    &&& e.union.variants[i].attrs == vs[i].attrs
                    &&& e.union.variants[i].name == vs[i].name
                    &&& e.union.variants[i].discriminant == vs[i].discriminant
                    &&& forall|k: int|
                        0 <= k < shared.len() ==> own_fields(e.union.variants[i].payload)[own_fields(
                            vs[i].payload,
                        ).len() + k] == shared[k]
                }
        }),
{
    let e = expansion_of(Ok(shared), Ok(item))->Ok_0;
    let vs = item.kind->Enum_0;
    assert forall|i: int| 0 <= i < vs.len() implies {
        &&& e.union.variants[i].attrs == vs[i].attrs
        &&& e.union.variants[i].name == vs[i].name
        &&& e.union.variants[i].discriminant == vs[i].discriminant
        &&& forall|k: int|
            0 <= k < shared.len() ==> own_fields(e.union.variants[i].payload)[own_fields(
                vs[i].payload,
            ).len() + k] == shared[k]
    } by {
        assert(e.union.variants[i] == injected(vs[i], shared));
    }
}

} // verus!
