//! The syntax model that the transformation works on: fields, variants and
//! item declarations, with source fragments (types, attributes, visibility)
//! held as text.

use vstd::prelude::*;

verus! {

/// A named field: outer attributes, visibility, name and type.
#[derive(Debug)]
pub struct FieldDecl {
    pub attrs: Vec<String>,
    pub vis: String,
    pub name: String,
    pub ty: String,
}

/// What a variant carries.
#[derive(Debug)]
pub enum Payload {
    NoPayload,
    Named(Vec<FieldDecl>),
    /// The types of the positional fields.
    Positional(Vec<String>),
}

#[derive(Debug)]
pub struct VariantDef {
    pub attrs: Vec<String>,
    pub name: String,
    pub payload: Payload,
    /// The explicit discriminant expression, if any.
    pub discriminant: Option<String>,
}

/// The data kind of an annotated item.
#[derive(Debug)]
pub enum ItemKind {
    Enum(Vec<VariantDef>),
    Struct,
    Union,
}

/// An item that the transformation is attached to. `generics` holds the
/// parameter list and the where clause as written.
#[derive(Debug)]
pub struct ItemDef {
    pub attrs: Vec<String>,
    pub vis: String,
    pub name: String,
    pub generics: String,
    pub kind: ItemKind,
}

/// An enum declaration after the shared fields have been injected.
#[derive(Debug)]
pub struct UnionDef {
    pub attrs: Vec<String>,
    pub vis: String,
    pub name: String,
    pub generics: String,
    pub variants: Vec<VariantDef>,
}

pub ghost struct FieldView {
    pub attrs: Seq<Seq<char>>,
    pub vis: Seq<char>,
    pub name: Seq<char>,
    pub ty: Seq<char>,
}

pub ghost enum PayloadView {
    NoPayload,
    Named(Seq<FieldView>),
    Positional(Seq<Seq<char>>),
}

pub ghost struct VariantView {
    pub attrs: Seq<Seq<char>>,
    pub name: Seq<char>,
    pub payload: PayloadView,
    pub discriminant: Option<Seq<char>>,
}

pub ghost enum ItemKindView {
    Enum(Seq<VariantView>),
    Struct,
    Union,
}

pub ghost struct ItemView {
    pub attrs: Seq<Seq<char>>,
    pub vis: Seq<char>,
    pub name: Seq<char>,
    pub generics: Seq<char>,
    pub kind: ItemKindView,
}

pub ghost struct UnionView {
    pub attrs: Seq<Seq<char>>,
    pub vis: Seq<char>,
    pub name: Seq<char>,
    pub generics: Seq<char>,
    pub variants: Seq<VariantView>,
}

pub open spec fn texts(s: Seq<String>) -> Seq<Seq<char>> {
    s.map_values(|x: String| x@)
}

pub open spec fn fields_view(s: Seq<FieldDecl>) -> Seq<FieldView> {
    s.map_values(|f: FieldDecl| f@)
}

pub open spec fn variants_view(s: Seq<VariantDef>) -> Seq<VariantView> {
    s.map_values(|v: VariantDef| v@)
}

pub open spec fn opt_text(o: Option<String>) -> Option<Seq<char>> {
    match o {
        Some(s) => Some(s@),
        None => None,
    }
}

impl View for FieldDecl {
    type V = FieldView;

    open spec fn view(&self) -> FieldView {
        FieldView { attrs: texts(self.attrs@), vis: self.vis@, name: self.name@, ty: self.ty@ }
    }
}

impl View for Payload {
    type V = PayloadView;

    open spec fn view(&self) -> PayloadView {
        match self {
            Payload::NoPayload => PayloadView::NoPayload,
            Payload::Named(f) => PayloadView::Named(fields_view(f@)),
            Payload::Positional(t) => PayloadView::Positional(texts(t@)),
        }
    }
}

impl View for VariantDef {
    type V = VariantView;

    open spec fn view(&self) -> VariantView {
        VariantView {
            attrs: texts(self.attrs@),
            name: self.name@,
            payload: self.payload@,
            discriminant: opt_text(self.discriminant),
        }
    }
}

impl View for ItemKind {
    type V = ItemKindView;

    open spec fn view(&self) -> ItemKindView {
        match self {
            ItemKind::Enum(v) => ItemKindView::Enum(variants_view(v@)),
            ItemKind::Struct => ItemKindView::Struct,
            ItemKind::Union => ItemKindView::Union,
        }
    }
}

impl View for ItemDef {
    type V = ItemView;

    open spec fn view(&self) -> ItemView {
        ItemView {
            attrs: texts(self.attrs@),
            vis: self.vis@,
            name: self.name@,
            generics: self.generics@,
            kind: self.kind@,
        }
    }
}

impl View for UnionDef {
    type V = UnionView;

    open spec fn view(&self) -> UnionView {
        UnionView {
            attrs: texts(self.attrs@),
            vis: self.vis@,
            name: self.name@,
            generics: self.generics@,
            variants: variants_view(self.variants@),
        }
    }
}

/// The names of a field list, in order.
pub open spec fn names_of(fields: Seq<FieldView>) -> Seq<Seq<char>> {
    fields.map_values(|f: FieldView| f.name)
}

pub fn copy_texts(s: &Vec<String>) -> (r: Vec<String>)
    ensures
        texts(r@) == texts(s@),
{
    let mut r: Vec<String> = Vec::new();
    let mut i: usize = 0;
    while i < s.len()
        invariant
            i <= s.len(),
            r@.len() == i,
            forall|k: int| 0 <= k < i ==> r@[k]@ == s@[k]@,
        decreases s.len() - i,
    {
        let c = s[i].clone();
        r.push(c);
        i = i + 1;
    }
    assert(texts(r@) =~= texts(s@));
    r
}

impl FieldDecl {
    /// An independent copy of this declaration.
    pub fn copy(&self) -> (r: FieldDecl)
        ensures
            r@ == self@,
    {
        FieldDecl {
            attrs: copy_texts(&self.attrs),
            vis: self.vis.clone(),
            name: self.name.clone(),
            ty: self.ty.clone(),
        }
    }
}

/// Whether `fields` declares a field called `name`.
pub fn has_field(fields: &Vec<FieldDecl>, name: &String) -> (r: bool)
    ensures
        r == names_of(fields_view(fields@)).contains(name@),
{
    let mut i: usize = 0;
    while i < fields.len()
        invariant
            i <= fields.len(),
            forall|j: int| 0 <= j < i ==> fields@[j].name@ != name@,
        decreases fields.len() - i,
    {
        if fields[i].name == *name {
            assert(names_of(fields_view(fields@))[i as int] == name@);
            return true;
        }
        i = i + 1;
    }
    false
}

} // verus!
