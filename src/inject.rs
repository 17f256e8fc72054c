//! Injection of the shared fields into every variant of an enum.

use vstd::prelude::*;
use crate::model::{
    copy_texts, fields_view, has_field, names_of, opt_text, variants_view, FieldDecl,
    FieldView, Payload, PayloadView, VariantDef, VariantView,
};

verus! {

/// The named fields that a payload declares of its own.
pub open spec fn own_fields(p: PayloadView) -> Seq<FieldView> {
    match p {
        PayloadView::Named(f) => f,
        _ => Seq::empty(),
    }
}

/// A variant with the shared fields appended after its own.
pub open spec fn injected(v: VariantView, shared: Seq<FieldView>) -> VariantView {
    VariantView {
        attrs: v.attrs,
        name: v.name,
        payload: PayloadView::Named(own_fields(v.payload) + shared),
        discriminant: v.discriminant,
    }
}

pub open spec fn injected_all(vs: Seq<VariantView>, shared: Seq<FieldView>) -> Seq<VariantView> {
    vs.map_values(|v: VariantView| injected(v, shared))
}

/// The first variant at or after `i` whose fields are positional.
pub open spec fn positional_from(vs: Seq<VariantView>, i: int) -> Option<int>
    decreases vs.len() - i,
{
    if i < 0 || i >= vs.len() {
        None
    } else if vs[i].payload is Positional {
        Some(i)
    } else {
        positional_from(vs, i + 1)
    }
}

/// The first own field at or after `j` whose name is among `names`.
pub open spec fn clash_from(own: Seq<FieldView>, names: Seq<Seq<char>>, j: int) -> Option<int>
    decreases own.len() - j,
{
    if j < 0 || j >= own.len() {
        None
    } else if names.contains(own[j].name) {
        Some(j)
    } else {
        clash_from(own, names, j + 1)
    }
}

/// The first variant at or after `i` that declares a field named like a
/// shared one, with the index of that field.
pub open spec fn conflict_from(vs: Seq<VariantView>, shared: Seq<FieldView>, i: int) -> Option<
    (int, int),
>
    decreases vs.len() - i,
{
    if i < 0 || i >= vs.len() {
        None
    } else {
        match clash_from(own_fields(vs[i].payload), names_of(shared), 0) {
            Some(j) => Some((i, j)),
            None => conflict_from(vs, shared, i + 1),
        }
    }
}

pub fn copy_fields(fs: &Vec<FieldDecl>) -> (r: Vec<FieldDecl>)
    ensures
        fields_view(r@) == fields_view(fs@),
{
    let mut r: Vec<FieldDecl> = Vec::new();
    let mut i: usize = 0;
    while i < fs.len()
        invariant
            i <= fs.len(),
            r@.len() == i,
            forall|k: int| 0 <= k < i ==> r@[k]@ == fs@[k]@,
        decreases fs.len() - i,
    {
        let c = fs[i].copy();
        r.push(c);
        i = i + 1;
    }
    assert(fields_view(r@) =~= fields_view(fs@));
    r
}

/// Appends a copy of each of `shared` to `fs`.
fn append_fields(fs: &mut Vec<FieldDecl>, shared: &Vec<FieldDecl>)
    ensures
        fields_view(final(fs)@) == fields_view(old(fs)@) + fields_view(shared@),
{
    let ghost start = fs@;
    let mut i: usize = 0;
    while i < shared.len()
        invariant
            i <= shared.len(),
            fs@.len() == start.len() + i,
            forall|k: int| 0 <= k < start.len() ==> fs@[k]@ == start[k]@,
            forall|k: int| 0 <= k < i ==> fs@[start.len() + k]@ == shared@[k]@,
        decreases shared.len() - i,
    {
        let c = shared[i].copy();
        fs.push(c);
        i = i + 1;
    }
    assert(fields_view(fs@) =~= fields_view(start) + fields_view(shared@));
}

/// The variant with the shared fields injected: a variant without payload
/// gets exactly the shared fields, one with named fields gets them after its
/// own.
pub fn inject_variant(v: &VariantDef, shared: &Vec<FieldDecl>) -> (r: VariantDef)
    requires
        !(v@.payload is Positional),
    ensures
        r@ == injected(v@, fields_view(shared@)),
{
    let mut fields = match &v.payload {
        Payload::Named(own) => copy_fields(own),
        _ => Vec::new(),
    };
    assert(fields_view(fields@) =~= own_fields(v@.payload));
    append_fields(&mut fields, shared);
    let discriminant = match &v.discriminant {
        Some(d) => Some(d.clone()),
        None => None,
    };
    let r = VariantDef {
        attrs: copy_texts(&v.attrs),
        name: v.name.clone(),
        payload: Payload::Named(fields),
        discriminant,
    };
    assert(opt_text(r.discriminant) == opt_text(v.discriminant));
    r
}

/// The index of the first variant with positional fields.
pub fn find_positional(vs: &Vec<VariantDef>) -> (r: Option<usize>)
    ensures
        match r {
            Some(i) => i < vs.len() && positional_from(variants_view(vs@), 0) == Some(i as int),
            None => positional_from(variants_view(vs@), 0) is None,
        },
{
    let ghost vv = variants_view(vs@);
    let mut i: usize = 0;
    while i < vs.len()
        invariant
            i <= vs.len(),
            vv == variants_view(vs@),
            positional_from(vv, 0) == positional_from(vv, i as int),
        decreases vs.len() - i,
    {
        if let Payload::Positional(_) = &vs[i].payload {
            return Some(i);
        }
        i = i + 1;
    }
    None
}

/// The first own field of `own` whose name is that of a shared field.
fn find_clash(own: &Vec<FieldDecl>, shared: &Vec<FieldDecl>) -> (r: Option<usize>)
    ensures
        match r {
            Some(j) => clash_from(fields_view(own@), names_of(fields_view(shared@)), 0) == Some(
                j as int,
            ),
            None => clash_from(fields_view(own@), names_of(fields_view(shared@)), 0) is None,
        },
{
    let ghost ov = fields_view(own@);
    let ghost names = names_of(fields_view(shared@));
    let mut j: usize = 0;
    while j < own.len()
        invariant
            j <= own.len(),
            ov == fields_view(own@),
            names == names_of(fields_view(shared@)),
            clash_from(ov, names, 0) == clash_from(ov, names, j as int),
        decreases own.len() - j,
    {
        assert(ov[j as int].name == own@[j as int].name@);
        if has_field(shared, &own[j].name) {
            return Some(j);
        }
        j = j + 1;
    }
    None
}

/// The first variant that declares a field named like a shared one, with
/// the index of that field.
pub fn find_conflict(vs: &Vec<VariantDef>, shared: &Vec<FieldDecl>) -> (r: Option<(usize, usize)>)
    ensures
        match r {
            Some((i, j)) => i < vs.len() && conflict_from(variants_view(vs@), fields_view(shared@), 0) == Some(
                (i as int, j as int),
            ),
            None => conflict_from(variants_view(vs@), fields_view(shared@), 0) is None,
        },
{
    let ghost vv = variants_view(vs@);
    let ghost sv = fields_view(shared@);
    let mut i: usize = 0;
    while i < vs.len()
        invariant
            i <= vs.len(),
            vv == variants_view(vs@),
            sv == fields_view(shared@),
            conflict_from(vv, sv, 0) == conflict_from(vv, sv, i as int),
        decreases vs.len() - i,
    {
        if let Payload::Named(own) = &vs[i].payload {
            if let Some(j) = find_clash(own, shared) {
                return Some((i, j));
            }
        } else {
            assert(own_fields(vv[i as int].payload) =~= Seq::<FieldView>::empty());
        }
        i = i + 1;
    }
    None
}

/// Every variant with the shared fields injected, in the original order.
pub fn inject_all(vs: &Vec<VariantDef>, shared: &Vec<FieldDecl>) -> (r: Vec<VariantDef>)
    requires
        positional_from(variants_view(vs@), 0) is None,
    ensures
        variants_view(r@) == injected_all(variants_view(vs@), fields_view(shared@)),
{
    let ghost vv = variants_view(vs@);
    let ghost sv = fields_view(shared@);
    let mut r: Vec<VariantDef> = Vec::new();
    let mut i: usize = 0;
    while i < vs.len()
        invariant
            i <= vs.len(),
            vv == variants_view(vs@),
            sv == fields_view(shared@),
            positional_from(vv, 0) == positional_from(vv, i as int),
            positional_from(vv, i as int) is None,
            r@.len() == i,
            forall|k: int| 0 <= k < i ==> r@[k]@ == injected(vv[k], sv),
        decreases vs.len() - i,
    {
        assert(!(vv[i as int].payload is Positional));
        let v = inject_variant(&vs[i], shared);
        r.push(v);
        i = i + 1;
    }
    assert(variants_view(r@) =~= injected_all(vv, sv));
    r
}

} // verus!
