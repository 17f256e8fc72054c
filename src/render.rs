//! Printing of the rewritten enum and of the accessors as Rust source text.

use vstd::prelude::*;
use vstd::string::StringExecFns;
use crate::accessor::{Accessor, AccessorView, accessors_view};
use crate::expand::{Expansion, ExpansionView};
use crate::model::{
    texts, fields_view, variants_view, FieldDecl, FieldView, Payload, PayloadView, UnionDef,
    UnionView, VariantDef, VariantView,
};

verus! {

/// The parts written one after another.
pub open spec fn joined(p: Seq<Seq<char>>) -> Seq<char>
    decreases p.len(),
{
    if p.len() == 0 {
        Seq::empty()
    } else {
        joined(p.drop_last()) + p.last()
    }
}

pub open spec fn attrs_text(a: Seq<Seq<char>>) -> Seq<char> {
    joined(a.map_values(|x: Seq<char>| x + " "@))
}

/// A visibility, followed by a space unless it is empty.
pub open spec fn vis_text(v: Seq<char>) -> Seq<char> {
    if v.len() == 0 {
        Seq::empty()
    } else {
        v + " "@
    }
}

pub open spec fn field_text(f: FieldView) -> Seq<char> {
    attrs_text(f.attrs) + vis_text(f.vis) + f.name + ": "@ + f.ty
}

pub open spec fn fields_text(fs: Seq<FieldView>) -> Seq<char> {
    "{ "@ + joined(fs.map_values(|f: FieldView| field_text(f) + ", "@)) + "}"@
}

pub open spec fn types_text(ts: Seq<Seq<char>>) -> Seq<char> {
    "("@ + joined(ts.map_values(|t: Seq<char>| t + ", "@)) + ")"@
}

pub open spec fn payload_text(p: PayloadView) -> Seq<char> {
    match p {
        PayloadView::NoPayload => Seq::empty(),
        PayloadView::Named(fs) => " "@ + fields_text(fs),
        PayloadView::Positional(ts) => types_text(ts),
    }
}

pub open spec fn discriminant_text(d: Option<Seq<char>>) -> Seq<char> {
    match d {
        Some(e) => " = "@ + e,
        None => Seq::empty(),
    }
}

pub open spec fn variant_text(v: VariantView) -> Seq<char> {
    attrs_text(v.attrs) + v.name + payload_text(v.payload) + discriminant_text(v.discriminant)
}

/// The enum declaration, attributes first.
pub open spec fn union_text(u: UnionView) -> Seq<char> {
    attrs_text(u.attrs) + vis_text(u.vis) + "enum "@ + u.name + u.generics + " { "@ + joined(
        u.variants.map_values(|v: VariantView| variant_text(v) + ", "@),
    ) + "}"@
}

/// The match arm of `variant` in the accessor of `field`.
pub open spec fn arm_text(enum_name: Seq<char>, variant: Seq<char>, field: Seq<char>) -> Seq<char> {
    enum_name + "::"@ + variant + " { ref "@ + field + ", .. } => "@ + field + ", "@
}

pub open spec fn accessor_text(a: AccessorView, enum_name: Seq<char>) -> Seq<char> {
    "#[inline] #[allow(dead_code)] pub fn "@ + a.name + "(&self) -> &"@ + a.ty
        + " { match self { "@ + joined(
        a.arms.map_values(|v: Seq<char>| arm_text(enum_name, v, a.name)),
    ) + "} } "@
}

/// The inherent impl that holds the accessors.
pub open spec fn impl_text(enum_name: Seq<char>, accs: Seq<AccessorView>) -> Seq<char> {
    "impl "@ + enum_name + " { "@ + joined(
        accs.map_values(|a: AccessorView| accessor_text(a, enum_name)),
    ) + "}"@
}

/// The enum followed by the impl of its accessors.
pub open spec fn code_text(e: ExpansionView) -> Seq<char> {
    union_text(e.union) + "\n"@ + impl_text(e.union.name, e.accessors)
}

proof fn lemma_joined_step(p: Seq<Seq<char>>, i: int)
    requires
        0 <= i < p.len(),
    ensures
        joined(p.take(i + 1)) == joined(p.take(i)) + p[i],
{
    assert(p.take(i + 1).drop_last() =~= p.take(i));
}

proof fn lemma_joined_all(p: Seq<Seq<char>>)
    ensures
        joined(p.take(p.len() as int)) == joined(p),
{
    assert(p.take(p.len() as int) =~= p);
}

fn push_attrs(out: &mut String, attrs: &Vec<String>)
    ensures
        final(out)@ == old(out)@ + attrs_text(texts(attrs@)),
{
    let ghost start = out@;
    let ghost parts = texts(attrs@).map_values(|x: Seq<char>| x + " "@);
    let mut i: usize = 0;
    while i < attrs.len()
        invariant
            i <= attrs.len(),
            parts == texts(attrs@).map_values(|x: Seq<char>| x + " "@),
            out@ == start + joined(parts.take(i as int)),
        decreases attrs.len() - i,
    {
        out.append(attrs[i].as_str());
        out.append(" ");
        proof {
            lemma_joined_step(parts, i as int);
            assert(out@ =~= start + joined(parts.take(i + 1)));
        }
        i = i + 1;
    }
    proof {
        lemma_joined_all(parts);
    }
}

fn push_vis(out: &mut String, vis: &String)
    ensures
        final(out)@ == old(out)@ + vis_text(vis@),
{
    if !vis.as_str().is_empty() {
        out.append(vis.as_str());
        out.append(" ");
    } else {
        assert(out@ =~= old(out)@ + vis_text(vis@));
    }
}

fn push_field(out: &mut String, f: &FieldDecl)
    ensures
        final(out)@ == old(out)@ + field_text(f@),
{
    let ghost start = out@;
    push_attrs(out, &f.attrs);
    push_vis(out, &f.vis);
    out.append(f.name.as_str());
    out.append(": ");
    out.append(f.ty.as_str());
    assert(out@ =~= start + field_text(f@));
}

fn push_fields(out: &mut String, fs: &Vec<FieldDecl>)
    ensures
        final(out)@ == old(out)@ + fields_text(fields_view(fs@)),
{
    let ghost start = out@;
    let ghost parts = fields_view(fs@).map_values(|f: FieldView| field_text(f) + ", "@);
    out.append("{ ");
    let ghost mid = out@;
    let mut i: usize = 0;
    while i < fs.len()
        invariant
            i <= fs.len(),
            parts == fields_view(fs@).map_values(|f: FieldView| field_text(f) + ", "@),
            out@ == mid + joined(parts.take(i as int)),
        decreases fs.len() - i,
    {
        push_field(out, &fs[i]);
        out.append(", ");
        proof {
            lemma_joined_step(parts, i as int);
            assert(out@ =~= mid + joined(parts.take(i + 1)));
        }
        i = i + 1;
    }
    proof {
        lemma_joined_all(parts);
    }
    out.append("}");
    assert(out@ =~= start + fields_text(fields_view(fs@)));
}

fn push_types(out: &mut String, ts: &Vec<String>)
    ensures
        final(out)@ == old(out)@ + types_text(texts(ts@)),
{
    let ghost start = out@;
    let ghost parts = texts(ts@).map_values(|t: Seq<char>| t + ", "@);
    out.append("(");
    let ghost mid = out@;
    let mut i: usize = 0;
    while i < ts.len()
        invariant
            i <= ts.len(),
            parts == texts(ts@).map_values(|t: Seq<char>| t + ", "@),
            out@ == mid + joined(parts.take(i as int)),
        decreases ts.len() - i,
    {
        out.append(ts[i].as_str());
        out.append(", ");
        proof {
            lemma_joined_step(parts, i as int);
            assert(out@ =~= mid + joined(parts.take(i + 1)));
        }
        i = i + 1;
    }
    proof {
        lemma_joined_all(parts);
    }
    out.append(")");
    assert(out@ =~= start + types_text(texts(ts@)));
}

fn push_variant(out: &mut String, v: &VariantDef)
    ensures
        final(out)@ == old(out)@ + variant_text(v@),
{
    let ghost start = out@;
    push_attrs(out, &v.attrs);
    out.append(v.name.as_str());
    let ghost before_payload = out@;
    match &v.payload {
        Payload::NoPayload => {},
        Payload::Named(fs) => {
            out.append(" ");
            push_fields(out, fs);
        },
        Payload::Positional(ts) => {
            push_types(out, ts);
        },
    }
    assert(out@ =~= before_payload + payload_text(v@.payload));
    let ghost before_disc = out@;
    match &v.discriminant {
        Some(d) => {
            out.append(" = ");
            out.append(d.as_str());
        },
        None => {},
    }
    assert(out@ =~= before_disc + discriminant_text(v@.discriminant));
    assert(out@ =~= start + variant_text(v@));
}

impl UnionDef {
    /// The enum declaration as source text.
    pub fn to_code(&self) -> (r: String)
        ensures
            r@ == union_text(self@),
    {
        let mut out = String::new();
        push_attrs(&mut out, &self.attrs);
        push_vis(&mut out, &self.vis);
        out.append("enum ");
        out.append(self.name.as_str());
        out.append(self.generics.as_str());
        out.append(" { ");
        let ghost mid = out@;
        let ghost parts = variants_view(self.variants@).map_values(
            |v: VariantView| variant_text(v) + ", "@,
        );
        let mut i: usize = 0;
        while i < self.variants.len()
            invariant
                i <= self.variants.len(),
                parts == variants_view(self.variants@).map_values(
                    |v: VariantView| variant_text(v) + ", "@,
                ),
                out@ == mid + joined(parts.take(i as int)),
            decreases self.variants.len() - i,
        {
            push_variant(&mut out, &self.variants[i]);
            out.append(", ");
            proof {
                lemma_joined_step(parts, i as int);
                assert(out@ =~= mid + joined(parts.take(i + 1)));
            }
            i = i + 1;
        }
        proof {
            lemma_joined_all(parts);
        }
        out.append("}");
        assert(out@ =~= union_text(self@));
        out
    }
}

fn push_accessor(out: &mut String, a: &Accessor, enum_name: &String)
    ensures
        final(out)@ == old(out)@ + accessor_text(a@, enum_name@),
{
    let ghost start = out@;
    out.append("#[inline] #[allow(dead_code)] pub fn ");
    out.append(a.name.as_str());
    out.append("(&self) -> &");
    out.append(a.ty.as_str());
    out.append(" { match self { ");
    let ghost mid = out@;
    let ghost parts = a@.arms.map_values(|v: Seq<char>| arm_text(enum_name@, v, a@.name));
    let mut i: usize = 0;
    while i < a.arms.len()
        invariant
            i <= a.arms.len(),
            parts == a@.arms.map_values(|v: Seq<char>| arm_text(enum_name@, v, a@.name)),
            out@ == mid + joined(parts.take(i as int)),
        decreases a.arms.len() - i,
    {
        let ghost before = out@;
        out.append(enum_name.as_str());
        out.append("::");
        out.append(a.arms[i].as_str());
        out.append(" { ref ");
        out.append(a.name.as_str());
        out.append(", .. } => ");
        out.append(a.name.as_str());
        out.append(", ");
        proof {
            assert(out@ =~= before + parts[i as int]);
            lemma_joined_step(parts, i as int);
            assert(out@ =~= mid + joined(parts.take(i + 1)));
        }
        i = i + 1;
    }
    proof {
        lemma_joined_all(parts);
    }
    out.append("} } ");
    assert(out@ =~= start + accessor_text(a@, enum_name@));
}

/// The impl block of the accessors of the enum `enum_name`, in their order.
pub fn accessors_to_code(enum_name: &String, accs: &Vec<Accessor>) -> (r: String)
    ensures
        r@ == impl_text(enum_name@, accessors_view(accs@)),
{
    let mut out = String::new();
    out.append("impl ");
    out.append(enum_name.as_str());
    out.append(" { ");
    let ghost mid = out@;
    let ghost parts = accessors_view(accs@).map_values(
        |a: AccessorView| accessor_text(a, enum_name@),
    );
    let mut i: usize = 0;
    while i < accs.len()
        invariant
            i <= accs.len(),
            parts == accessors_view(accs@).map_values(
                |a: AccessorView| accessor_text(a, enum_name@),
            ),
            out@ == mid + joined(parts.take(i as int)),
        decreases accs.len() - i,
    {
        push_accessor(&mut out, &accs[i], enum_name);
        proof {
            lemma_joined_step(parts, i as int);
            assert(out@ =~= mid + joined(parts.take(i + 1)));
        }
        i = i + 1;
    }
    proof {
        lemma_joined_all(parts);
    }
    out.append("}");
    assert(out@ =~= impl_text(enum_name@, accessors_view(accs@)));
    out
}

impl Expansion {
    /// The rewritten enum followed by the impl of its accessors, as source
    /// text.
    pub fn to_code(&self) -> (r: String)
        ensures
            r@ == code_text(self@),
    {
        let mut out = self.union.to_code();
        out.append("\n");
        let accessors = accessors_to_code(&self.union.name, &self.accessors);
        out.append(accessors.as_str());
        assert(out@ =~= code_text(self@));
        out
    }
}

} // verus!
