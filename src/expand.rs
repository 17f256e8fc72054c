//! The whole transformation: checks the shared fields and the annotated
//! item, injects the fields and generates the accessors, stopping at the
//! first problem found.

use vstd::prelude::*;
use crate::accessor::{accessors_for, accessors_view, generate_accessors, Accessor, AccessorView};
use crate::error::{ErrorView, ExpandError};
use crate::inject::{
    clash_from, conflict_from, find_conflict, find_positional, inject_all, injected_all, own_fields,
    positional_from,
};
use crate::model::{
    copy_texts, fields_view, names_of, variants_view, FieldDecl, FieldView, ItemDef,
    ItemKind, ItemKindView, ItemView, Payload, UnionDef, UnionView, VariantView,
};

verus! {

/// The rewritten enum and the accessors of its shared fields.
#[derive(Debug)]
pub struct Expansion {
    pub union: UnionDef,
    pub accessors: Vec<Accessor>,
}

pub ghost struct ExpansionView {
    pub union: UnionView,
    pub accessors: Seq<AccessorView>,
}

impl View for Expansion {
    type V = ExpansionView;

    open spec fn view(&self) -> ExpansionView {
        ExpansionView { union: self.union@, accessors: accessors_view(self.accessors@) }
    }
}

/// The first field at or after `i` whose name an earlier field already has.
pub open spec fn duplicate_from(fs: Seq<FieldView>, i: int) -> Option<int>
    decreases fs.len() - i,
{
    if i < 0 || i >= fs.len() {
        None
    } else if names_of(fs.take(i)).contains(fs[i].name) {
        Some(i)
    } else {
        duplicate_from(fs, i + 1)
    }
}

/// The outcome of the transformation on a parsed shared-field list (or the
/// parser's message) and a parsed item (or the parser's message).
pub open spec fn expansion_of(
    shared: Result<Seq<FieldView>, Seq<char>>,
    item: Result<ItemView, Seq<char>>,
) -> Result<ExpansionView, ErrorView> {
    match shared {
        Err(m) => Err(ErrorView::MalformedSharedFields(m)),
        Ok(sh) => if sh.len() == 0 {
            Err(ErrorView::EmptySharedFields)
        } else {
            match item {
                Err(m) => Err(ErrorView::NotAnItem(m)),
                Ok(it) => match it.kind {
                    ItemKindView::Enum(vs) => if let Some(p) = positional_from(vs, 0) {
                        Err(ErrorView::PositionalFieldConflict(vs[p].name))
                    } else if let Some(d) = duplicate_from(sh, 0) {
                        Err(ErrorView::DuplicateSharedField(sh[d].name))
                    } else if let Some((i, j)) = conflict_from(vs, sh, 0) {
                        Err(
                            ErrorView::FieldConflict {
                                variant: vs[i].name,
                                field: own_fields(vs[i].payload)[j].name,
                            },
                        )
                    } else {
                        Ok(
                            ExpansionView {
                                union: UnionView {
                                    attrs: it.attrs,
                                    vis: it.vis,
                                    name: it.name,
                                    generics: it.generics,
                                    variants: injected_all(vs, sh),
                                },
                                accessors: accessors_for(sh, injected_all(vs, sh)),
                            },
                        )
                    },
                    _ => Err(ErrorView::NotAnEnum),
                },
            }
        },
    }
}

pub open spec fn shared_view(shared: Result<Vec<FieldDecl>, String>) -> Result<
    Seq<FieldView>,
    Seq<char>,
> {
    match shared {
        Ok(f) => Ok(fields_view(f@)),
        Err(m) => Err(m@),
    }
}

pub open spec fn item_view(item: Result<ItemDef, String>) -> Result<ItemView, Seq<char>> {
    match item {
        Ok(i) => Ok(i@),
        Err(m) => Err(m@),
    }
}

pub open spec fn outcome_view(r: Result<Expansion, ExpandError>) -> Result<
    ExpansionView,
    ErrorView,
> {
    match r {
        Ok(e) => Ok(e@),
        Err(e) => Err(e@),
    }
}

/// The index of the first shared field whose name an earlier one has.
pub fn find_duplicate(fs: &Vec<FieldDecl>) -> (r: Option<usize>)
    ensures
        match r {
            Some(i) => i < fs.len() && duplicate_from(fields_view(fs@), 0) == Some(i as int),
            None => duplicate_from(fields_view(fs@), 0) is None,
        },
{
    let ghost fv = fields_view(fs@);
    let mut i: usize = 0;
    while i < fs.len()
        invariant
            i <= fs.len(),
            fv == fields_view(fs@),
            duplicate_from(fv, 0) == duplicate_from(fv, i as int),
        decreases fs.len() - i,
    {
        let mut j: usize = 0;
        while j < i
            invariant
                j <= i < fs.len(),
                fv == fields_view(fs@),
                duplicate_from(fv, 0) == duplicate_from(fv, i as int),
                forall|k: int| 0 <= k < j ==> fv[k].name != fv[i as int].name,
            decreases i - j,
        {
            if fs[j].name == fs[i].name {
                assert(fv[j as int].name == fv[i as int].name);
                assert(names_of(fv.take(i as int))[j as int] == fv[i as int].name);
                assert(names_of(fv.take(i as int)).contains(fv[i as int].name));
                return Some(i);
            }
            j = j + 1;
        }
        assert(forall|k: int|
            0 <= k < i ==> names_of(fv.take(i as int))[k] != fv[i as int].name);
        i = i + 1;
    }
    None
}

/// Injects `shared` into every variant of the enum `item` and generates
/// an accessor per shared field. Each argument is the parser's output, or
/// its message where the tokens did not parse. The checks run in this
/// order, and the first that fails decides the error: the shared list
/// parsed and is not empty; the item parsed and is an enum; no variant has
/// positional fields; no two shared fields share a name; no variant
/// declares a field named like a shared one.
pub fn common_fields(shared: Result<Vec<FieldDecl>, String>, item: Result<ItemDef, String>) -> (r:
    Result<Expansion, ExpandError>)
    ensures
        outcome_view(r) == expansion_of(shared_view(shared), item_view(item)),
{
    let shared = match shared {
        Ok(f) => f,
        Err(m) => {
            return Err(ExpandError::MalformedSharedFields(m));
        },
    };
    if shared.len() == 0 {
        return Err(ExpandError::EmptySharedFields);
    }
    let item = match item {
        Ok(i) => i,
        Err(m) => {
            return Err(ExpandError::NotAnItem(m));
        },
    };
    let variants = match &item.kind {
        ItemKind::Enum(vs) => vs,
        _ => {
            return Err(ExpandError::NotAnEnum);
        },
    };
    if let Some(p) = find_positional(variants) {
        return Err(ExpandError::PositionalFieldConflict(variants[p].name.clone()));
    }
    if let Some(d) = find_duplicate(&shared) {
        return Err(ExpandError::DuplicateSharedField(shared[d].name.clone()));
    }
    if let Some((i, j)) = find_conflict(variants, &shared) {
        proof {
            lemma_conflict_is_named(variants_view(variants@), fields_view(shared@), 0);
        }
        let field = match &variants[i].payload {
            Payload::Named(own) => own[j].name.clone(),
            _ => String::new(),
        };
        return Err(ExpandError::FieldConflict { variant: variants[i].name.clone(), field });
    }
    let injected = inject_all(variants, &shared);
    let accessors = generate_accessors(&shared, &injected);
    let union = UnionDef {
        attrs: copy_texts(&item.attrs),
        vis: item.vis.clone(),
        name: item.name.clone(),
        generics: item.generics.clone(),
        variants: injected,
    };
    Ok(Expansion { union, accessors })
}

/// A conflict is only ever found in a variant with named fields, at an index
/// of those fields.
proof fn lemma_conflict_is_named(vs: Seq<VariantView>, sh: Seq<FieldView>, i: int)
    requires
        0 <= i,
    ensures
        conflict_from(vs, sh, i) matches Some((a, b)) ==> 0 <= a < vs.len() && vs[a].payload is Named
            && 0 <= b < own_fields(vs[a].payload).len(),
    decreases vs.len() - i,
{
    if i < vs.len() {
        lemma_clash_in_range(own_fields(vs[i].payload), names_of(sh), 0);
        lemma_conflict_is_named(vs, sh, i + 1);
    }
}

proof fn lemma_clash_in_range(own: Seq<FieldView>, names: Seq<Seq<char>>, j: int)
    requires
        0 <= j,
    ensures
        clash_from(own, names, j) matches Some(b) ==> j <= b < own.len(),
    decreases own.len() - j,
{
    if j < own.len() {
        lemma_clash_in_range(own, names, j + 1);
    }
}

} // verus!
