//! The checks that the inputs of one bindings project must pass: builds of
//! one library, for different platforms, with identical descriptors.

use vstd::prelude::*;
use crate::descriptor::{
    desc_view, BindgenExportDescriptor, BindgenFunctionArgumentDescriptor,
    BindgenStructFieldDescriptor, BindgenTypeDescriptor, DescView,
};
use crate::text::str_eq;

verus! {

broadcast use vstd::std_specs::vec::group_vec_axioms, vstd::seq::group_seq_axioms;

/// Why a set of binaries cannot make one project.
#[derive(Debug, Clone, Copy, PartialEq, Eq, Structural)]
pub enum InputError {
    NoBinaries,
    DifferentBaseNames,
    DifferentDescriptors,
}

impl InputError {
    pub fn message(&self) -> (r: &'static str) {
        match self {
            InputError::NoBinaries => "Must have at least one binary to generate bindings for",
            InputError::DifferentBaseNames => "The given source binaries have different base names",
            InputError::DifferentDescriptors => "The given source binaries expose different descriptors",
        }
    }
}

/// The model of an export: its names and the views of its types.
pub enum ExportView {
    Function(Seq<char>, Seq<char>, Seq<(Seq<char>, DescView)>, DescView),
    Struct(Seq<char>, Seq<(Seq<char>, DescView)>),
}

pub open spec fn args_view(a: Seq<BindgenFunctionArgumentDescriptor>) -> Seq<(Seq<char>, DescView)> {
    a.map_values(|x: BindgenFunctionArgumentDescriptor| (x.name@, desc_view(x.ty)))
}

pub open spec fn fields_view(f: Seq<BindgenStructFieldDescriptor>) -> Seq<(Seq<char>, DescView)> {
    f.map_values(|x: BindgenStructFieldDescriptor| (x.name@, desc_view(x.ty)))
}

pub open spec fn export_view(d: BindgenExportDescriptor) -> ExportView {
    match d {
        BindgenExportDescriptor::Function(f) => ExportView::Function(
            f.real_name@,
            f.thunk_name@,
            args_view(f.arguments@),
            desc_view(f.return_ty),
        ),
        BindgenExportDescriptor::Struct(s) => ExportView::Struct(s.name@, fields_view(s.fields@)),
    }
}

pub open spec fn exports_view(ds: Seq<BindgenExportDescriptor>) -> Seq<ExportView> {
    ds.map_values(|d: BindgenExportDescriptor| export_view(d))
}

/// Whether two descriptor types cross the boundary alike.
pub fn same_type(a: &BindgenTypeDescriptor, b: &BindgenTypeDescriptor) -> (r: bool)
    ensures
        r == (desc_view(*a) == desc_view(*b)),
    decreases a,
{
    match (a, b) {
        (BindgenTypeDescriptor::Void, BindgenTypeDescriptor::Void) => true,
        (BindgenTypeDescriptor::Bool, BindgenTypeDescriptor::Bool) => true,
        (
            BindgenTypeDescriptor::Int { width: w1, signed: s1 },
            BindgenTypeDescriptor::Int { width: w2, signed: s2 },
        ) => *w1 == *w2 && *s1 == *s2,
        (BindgenTypeDescriptor::Slice { elem_type: e1 }, BindgenTypeDescriptor::Slice { elem_type: e2 }) => {
            same_type(e1, e2)
        },
        (BindgenTypeDescriptor::Struct(s1), BindgenTypeDescriptor::Struct(s2)) => str_eq(
            s1.name.as_str(),
            s2.name.as_str(),
        ),
        _ => false,
    }
}

fn same_args(a: &Vec<BindgenFunctionArgumentDescriptor>, b: &Vec<BindgenFunctionArgumentDescriptor>) -> (r: bool)
    ensures
        r == (args_view(a@) == args_view(b@)),
{
    if a.len() != b.len() {
        proof {
            if args_view(a@) == args_view(b@) {
                assert(args_view(a@).len() == args_view(b@).len());
            }
        }
        return false;
    }
    let mut i: usize = 0;
    while i < a.len()
        invariant
            a@.len() == b@.len(),
            i <= a@.len(),
            forall|k: int| 0 <= k < i ==> #[trigger] args_view(a@)[k] == args_view(b@)[k],
        decreases a.len() - i,
    {
        if !str_eq(a[i].name.as_str(), b[i].name.as_str()) || !same_type(&a[i].ty, &b[i].ty) {
            assert(args_view(a@)[i as int] != args_view(b@)[i as int]);
            return false;
        }
        i = i + 1;
    }
    assert(args_view(a@) =~= args_view(b@));
    true
}

fn same_fields(a: &Vec<BindgenStructFieldDescriptor>, b: &Vec<BindgenStructFieldDescriptor>) -> (r: bool)
    ensures
        r == (fields_view(a@) == fields_view(b@)),
{
    if a.len() != b.len() {
        proof {
            if fields_view(a@) == fields_view(b@) {
                assert(fields_view(a@).len() == fields_view(b@).len());
            }
        }
        return false;
    }
    let mut i: usize = 0;
    while i < a.len()
        invariant
            a@.len() == b@.len(),
            i <= a@.len(),
            forall|k: int| 0 <= k < i ==> #[trigger] fields_view(a@)[k] == fields_view(b@)[k],
        decreases a.len() - i,
    {
        if !str_eq(a[i].name.as_str(), b[i].name.as_str()) || !same_type(&a[i].ty, &b[i].ty) {
            assert(fields_view(a@)[i as int] != fields_view(b@)[i as int]);
            return false;
        }
        i = i + 1;
    }
    assert(fields_view(a@) =~= fields_view(b@));
    true
}

/// Whether two exports are the same.
pub fn same_export(a: &BindgenExportDescriptor, b: &BindgenExportDescriptor) -> (r: bool)
    ensures
        r == (export_view(*a) == export_view(*b)),
{
    match (a, b) {
        (BindgenExportDescriptor::Function(f), BindgenExportDescriptor::Function(g)) => {
            str_eq(f.real_name.as_str(), g.real_name.as_str()) && str_eq(
                f.thunk_name.as_str(),
                g.thunk_name.as_str(),
            ) && same_args(&f.arguments, &g.arguments) && same_type(&f.return_ty, &g.return_ty)
        },
        (BindgenExportDescriptor::Struct(s), BindgenExportDescriptor::Struct(t)) => {
            str_eq(s.name.as_str(), t.name.as_str()) && same_fields(&s.fields, &t.fields)
        },
        _ => false,
    }
}

/// Whether two descriptor lists are the same, in the same order.
pub fn same_exports(a: &Vec<BindgenExportDescriptor>, b: &Vec<BindgenExportDescriptor>) -> (r: bool)
    ensures
        r == (exports_view(a@) == exports_view(b@)),
{
    if a.len() != b.len() {
        proof {
            if exports_view(a@) == exports_view(b@) {
                assert(exports_view(a@).len() == exports_view(b@).len());
            }
        }
        return false;
    }
    let mut i: usize = 0;
    while i < a.len()
        invariant
            a@.len() == b@.len(),
            i <= a@.len(),
            forall|k: int| 0 <= k < i ==> #[trigger] exports_view(a@)[k] == exports_view(b@)[k],
        decreases a.len() - i,
    {
        if !same_export(&a[i], &b[i]) {
            assert(exports_view(a@)[i as int] != exports_view(b@)[i as int]);
            return false;
        }
        i = i + 1;
    }
    assert(exports_view(a@) =~= exports_view(b@));
    true
}

/// The check of a project's inputs, one base name and one descriptor list
/// per binary: there must be a binary, all base names must be equal, and
/// all descriptor lists must equal the first.
pub fn check_binaries(base_names: &Vec<String>, descriptor_sets: &Vec<Vec<BindgenExportDescriptor>>) -> (r:
    Result<(), InputError>)
    requires
        base_names@.len() == descriptor_sets@.len(),
    ensures
        base_names@.len() == 0 ==> r == Err::<(), InputError>(InputError::NoBinaries),
        base_names@.len() > 0 ==> {
            let names_ok = forall|i: int| 0 <= i < base_names@.len() ==> #[trigger] base_names@[i]@ == base_names@[0]@;
            let sets_ok = forall|i: int|
                0 <= i < descriptor_sets@.len() ==> exports_view(#[trigger] descriptor_sets@[i]@)
                    == exports_view(descriptor_sets@[0]@);
            &&& !names_ok ==> r == Err::<(), InputError>(InputError::DifferentBaseNames)
            &&& names_ok && !sets_ok ==> r == Err::<(), InputError>(InputError::DifferentDescriptors)
            &&& names_ok && sets_ok ==> r is Ok
        },
{
    if base_names.len() == 0 {
        return Err(InputError::NoBinaries);
    }
    let mut i: usize = 0;
    while i < base_names.len()
        invariant
            i <= base_names@.len(),
            base_names@.len() > 0,
            forall|k: int| 0 <= k < i ==> #[trigger] base_names@[k]@ == base_names@[0]@,
        decreases base_names.len() - i,
    {
        if !str_eq(base_names[i].as_str(), base_names[0].as_str()) {
            return Err(InputError::DifferentBaseNames);
        }
        i = i + 1;
    }
    let mut j: usize = 0;
    while j < descriptor_sets.len()
        invariant
            j <= descriptor_sets@.len(),
            descriptor_sets@.len() > 0,
            base_names@.len() == descriptor_sets@.len(),
            forall|k: int| 0 <= k < base_names@.len() ==> #[trigger] base_names@[k]@ == base_names@[0]@,
            forall|k: int|
                0 <= k < j ==> exports_view(#[trigger] descriptor_sets@[k]@) == exports_view(
                    descriptor_sets@[0]@,
                ),
        decreases descriptor_sets.len() - j,
    {
        if !same_exports(&descriptor_sets[j], &descriptor_sets[0]) {
            assert(exports_view(descriptor_sets@[j as int]@) != exports_view(descriptor_sets@[0]@));
            return Err(InputError::DifferentDescriptors);
        }
        j = j + 1;
    }
    Ok(())
}

} // verus!
