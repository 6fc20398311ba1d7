//! Laws of type classification and resolution.

use crate::capture::generic_capture;
use crate::ir::{delegate_of, primitive_of, TypeView};
use crate::model::{
    fn_fault, fn_ok, param_type, reached_struct_fault, resolvable, struct_fault, type_of,
    ErrorView,
};
use crate::parser::{describes, fault_in};
use crate::text::strip_spaces;
use crate::ir::ApiFile;
use crate::source::{find_struct, FieldLayout, SrcFn, SrcStruct};
use vstd::prelude::*;

verus! {

/// A list of scalars is a scalar list; a list of anything else that resolves is a
/// general list of that element's category; a list whose element fails, fails
/// with it.
pub proof fn lemma_list_category(structs: Seq<SrcStruct>, ty: Seq<char>)
    requires
        generic_capture("Vec"@, ty) is Some,
        delegate_of(ty) is None,
    ensures
        ({
            let inner = generic_capture("Vec"@, ty)->Some_0;
            match type_of(structs, inner) {
                Ok(TypeView::Primitive(p)) => type_of(structs, ty) == Ok::<TypeView, Seq<char>>(
                    TypeView::PrimitiveList(p),
                ),
                Ok(t) => type_of(structs, ty) == Ok::<TypeView, Seq<char>>(
                    TypeView::GeneralList(Box::new(t)),
                ),
                Err(s) => type_of(structs, ty) == Err::<TypeView, Seq<char>>(s),
            }
        }),
{
    reveal_strlit("u8");
    reveal_strlit("i8");
    reveal_strlit("u16");
    reveal_strlit("i16");
    reveal_strlit("u32");
    reveal_strlit("i32");
    reveal_strlit("u64");
    reveal_strlit("i64");
    reveal_strlit("f32");
    reveal_strlit("f64");
    reveal_strlit("bool");
    reveal_strlit("()");
    assert(ty.last() == '>');
    assert(primitive_of(ty) is None);
}

/// In a description, each function keeps its parameters: same count, same order,
/// each with its declared name and the category of its declared type.
pub proof fn lemma_inputs_match(fns: Seq<SrcFn>, structs: Seq<SrcStruct>, f: ApiFile, k: int)
    requires
        describes(fns, structs, f),
        0 <= k < fns.len(),
    ensures
        f.funcs@[k].name@ == fns[k].name@,
        f.funcs@[k].inputs@.len() == fns[k].params@.len(),
        forall|i: int|
            0 <= i < fns[k].params@.len() ==> {
                &&& fns[k].params@[i].name is Some
                &&& (#[trigger] f.funcs@[k].inputs@[i]).name@ == fns[k].params@[i].name->Some_0@
                &&& type_of(structs, strip_spaces(fns[k].params@[i].ty@)) == Ok::<TypeView, Seq<char>>(
                    f.funcs@[k].inputs@[i].ty@,
                )
            },
{
    assert(f.funcs@[k]@ == crate::model::func_view_of(structs, fns[k]));
    assert(f.funcs@[k]@.inputs.len() == f.funcs@[k].inputs@.len());
    assert forall|i: int| 0 <= i < fns[k].params@.len() implies {
        &&& fns[k].params@[i].name is Some
        &&& (#[trigger] f.funcs@[k].inputs@[i]).name@ == fns[k].params@[i].name->Some_0@
        &&& type_of(structs, strip_spaces(fns[k].params@[i].ty@)) == Ok::<TypeView, Seq<char>>(
            f.funcs@[k].inputs@[i].ty@,
        )
    } by {
        assert(f.funcs@[k]@.inputs[i] == f.funcs@[k].inputs@[i]@);
        assert(fn_ok(structs, fns[k]));
    }
}

/// A parameter type that matches no category makes the whole resolution fail.
pub proof fn lemma_unrecognized_param_fails(fns: Seq<SrcFn>, structs: Seq<SrcStruct>, k: int, i: int)
    requires
        0 <= k < fns.len(),
        0 <= i < fns[k].params@.len(),
        type_of(structs, param_type(fns[k], i)) is Err,
    ensures
        !resolvable(fns, structs),
{
    if resolvable(fns, structs) {
        assert(fn_ok(structs, fns[k]));
    }
}

/// Where every parameter is a named binding, every function returns the fallible
/// wrapper, and no record is of unit layout, the only fault there can be is a type
/// that matches no category.
pub proof fn lemma_fault_is_unrecognized(fns: Seq<SrcFn>, structs: Seq<SrcStruct>, e: ErrorView)
    requires
        fault_in(fns, structs, e),
        forall|k: int, i: int|
            0 <= k < fns.len() && 0 <= i < fns[k].params@.len() ==> (#[trigger] fns[k].params@[i]).name
                is Some,
        forall|k: int| 0 <= k < fns.len() ==> (#[trigger] fns[k]).output is Some && generic_capture(
            "Result"@,
            crate::text::strip_spaces(fns[k].output->Some_0@),
        ) is Some,
        forall|j: int| 0 <= j < structs.len() ==> (#[trigger] structs[j]).layout != FieldLayout::Unit,
    ensures
        e is UnrecognizedType,
{
    if exists|k: int| 0 <= k < fns.len() && fn_fault(structs, #[trigger] fns[k], e) {
        let k = choose|k: int| 0 <= k < fns.len() && fn_fault(structs, #[trigger] fns[k], e);
        assert(fns[k].output is Some);
        if exists|i: int| 0 <= i < fns[k].params@.len() && (#[trigger] fns[k].params@[i]).name is None {
            let i = choose|i: int| 0 <= i < fns[k].params@.len() && (#[trigger] fns[k].params@[i]).name is None;
            assert(fns[k].params@[i].name is Some);
        }
    } else {
        assert(reached_struct_fault(fns, structs, e));
        let n = choose|n: Seq<char>|
            #[trigger] crate::model::reached(fns, structs, n) && find_struct(structs, n) is Some
                && struct_fault(structs, find_struct(structs, n)->Some_0, e);
        lemma_found_not_unit(structs, n);
    }
}

proof fn lemma_found_not_unit(structs: Seq<SrcStruct>, n: Seq<char>)
    requires
        find_struct(structs, n) is Some,
        forall|j: int| 0 <= j < structs.len() ==> (#[trigger] structs[j]).layout != FieldLayout::Unit,
    ensures
        find_struct(structs, n)->Some_0.layout != FieldLayout::Unit,
    decreases structs.len(),
{
    if structs.last().name@ != n {
        let rest = structs.drop_last();
        assert forall|j: int| 0 <= j < rest.len() implies (#[trigger] rest[j]).layout != FieldLayout::Unit by {
            assert(rest[j] == structs[j]);
        }
        lemma_found_not_unit(rest, n);
    }
}

} // verus!
