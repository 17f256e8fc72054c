//! Read-only accessors for the shared fields, and the model of an enum value
//! that an accessor reads.

use vstd::prelude::*;
use crate::inject::own_fields;
use crate::model::{names_of, fields_view, variants_view, FieldDecl, FieldView, VariantDef, VariantView};

verus! {

/// The accessor of one shared field: its name and type, and one match arm
/// per variant, by variant name, each binding the field by reference.
#[derive(Debug)]
pub struct Accessor {
    pub name: String,
    pub ty: String,
    pub arms: Vec<String>,
}

pub ghost struct AccessorView {
    pub name: Seq<char>,
    pub ty: Seq<char>,
    pub arms: Seq<Seq<char>>,
}

impl View for Accessor {
    type V = AccessorView;

    open spec fn view(&self) -> AccessorView {
        AccessorView { name: self.name@, ty: self.ty@, arms: self.arms@.map_values(|s: String| s@) }
    }
}

pub open spec fn accessors_view(s: Seq<Accessor>) -> Seq<AccessorView> {
    s.map_values(|a: Accessor| a@)
}

/// The accessor of field `f` on an enum with variants `vs`.
pub open spec fn accessor_for(f: FieldView, vs: Seq<VariantView>) -> AccessorView {
    AccessorView { name: f.name, ty: f.ty, arms: vs.map_values(|v: VariantView| v.name) }
}

/// One accessor per shared field, in the order of the shared fields.
pub open spec fn accessors_for(shared: Seq<FieldView>, vs: Seq<VariantView>) -> Seq<AccessorView> {
    shared.map_values(|f: FieldView| accessor_for(f, vs))
}

/// The accessor of `f`, with an arm for each of `variants` in their order.
pub fn accessor_of(f: &FieldDecl, variants: &Vec<VariantDef>) -> (r: Accessor)
    ensures
        r@ == accessor_for(f@, variants_view(variants@)),
{
    let mut arms: Vec<String> = Vec::new();
    let mut i: usize = 0;
    while i < variants.len()
        invariant
            i <= variants.len(),
            arms@.len() == i,
            forall|k: int| 0 <= k < i ==> arms@[k]@ == variants@[k].name@,
        decreases variants.len() - i,
    {
        let n = variants[i].name.clone();
        arms.push(n);
        i = i + 1;
    }
    let r = Accessor { name: f.name.clone(), ty: f.ty.clone(), arms };
    assert(r@.arms =~= accessor_for(f@, variants_view(variants@)).arms);
    r
}

/// The accessors of all shared fields, in the order of the shared fields.
pub fn generate_accessors(shared: &Vec<FieldDecl>, variants: &Vec<VariantDef>) -> (r: Vec<Accessor>)
    ensures
        accessors_view(r@) == accessors_for(fields_view(shared@), variants_view(variants@)),
{
    let mut r: Vec<Accessor> = Vec::new();
    let mut i: usize = 0;
    while i < shared.len()
        invariant
            i <= shared.len(),
            r@.len() == i,
            forall|k: int|
                0 <= k < i ==> r@[k]@ == accessor_for(shared@[k]@, variants_view(variants@)),
        decreases shared.len() - i,
    {
        let a = accessor_of(&shared[i], variants);
        r.push(a);
        i = i + 1;
    }
    assert(accessors_view(r@) =~= accessors_for(fields_view(shared@), variants_view(variants@)));
    r
}

/// A value of an enum: the name of its variant and the value given to each
/// field, by field name, in declaration order.
#[derive(Debug)]
pub struct Instance<V> {
    pub variant: String,
    pub values: Vec<(String, V)>,
}

/// The names that an instance gives values to, in order.
pub open spec fn value_names<V>(vals: Seq<(String, V)>) -> Seq<Seq<char>> {
    vals.map_values(|p: (String, V)| p.0@)
}

/// The first value at or after `i` given to a field called `name`.
pub open spec fn lookup<V>(vals: Seq<(String, V)>, name: Seq<char>, i: int) -> Option<V>
    decreases vals.len() - i,
{
    if i < 0 || i >= vals.len() {
        None
    } else if vals[i].0@ == name {
        Some(vals[i].1)
    } else {
        lookup(vals, name, i + 1)
    }
}

/// What the accessor `a` yields on `inst`: the arm of its variant binds the
/// field of the accessor's name.
pub open spec fn access<V>(a: AccessorView, inst: Instance<V>) -> Option<V> {
    if a.arms.contains(inst.variant@) {
        lookup(inst.values@, a.name, 0)
    } else {
        None
    }
}

/// The first variant at or after `i` called `name`: the one a value of that
/// name is built from.
pub open spec fn variant_named(vs: Seq<VariantView>, name: Seq<char>, i: int) -> Option<int>
    decreases vs.len() - i,
{
    if i < 0 || i >= vs.len() {
        None
    } else if vs[i].name == name {
        Some(i)
    } else {
        variant_named(vs, name, i + 1)
    }
}

/// `inst` is a value of an enum with variants `vs`: it names a variant and
/// gives a value to each of that variant's fields, in declaration order.
pub open spec fn constructed<V>(inst: Instance<V>, vs: Seq<VariantView>) -> bool {
    match variant_named(vs, inst.variant@, 0) {
        Some(i) => value_names(inst.values@) == names_of(own_fields(vs[i].payload)),
        None => false,
    }
}

impl Accessor {
    /// Runs the accessor on `inst`: `None` where no arm matches its variant
    /// or it holds no field of this name.
    pub fn get<'a, V>(&self, inst: &'a Instance<V>) -> (r: Option<&'a V>)
        ensures
            match r {
                Some(x) => access(self@, *inst) == Some(*x),
                None => access(self@, *inst) is None,
            },
    {
        let mut matched = false;
        let mut i: usize = 0;
        while i < self.arms.len() && !matched
            invariant
                i <= self.arms.len(),
                !matched ==> forall|k: int| 0 <= k < i ==> self.arms@[k]@ != inst.variant@,
                matched ==> self@.arms.contains(inst.variant@),
            decreases self.arms.len() - i,
        {
            if self.arms[i] == inst.variant {
                assert(self@.arms[i as int] == inst.variant@);
                matched = true;
            }
            i = i + 1;
        }
        if !matched {
            assert(forall|k: int| 0 <= k < self@.arms.len() ==> self@.arms[k] != inst.variant@);
            return None;
        }
        let mut j: usize = 0;
        while j < inst.values.len()
            invariant
                j <= inst.values.len(),
                self@.arms.contains(inst.variant@),
                access(self@, *inst) == lookup(inst.values@, self@.name, j as int),
            decreases inst.values.len() - j,
        {
            if inst.values[j].0 == self.name {
                return Some(&inst.values[j].1);
            }
            j = j + 1;
        }
        None
    }
}

} // verus!
