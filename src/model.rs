//! What resolution means: the category of each type text, the records that a set
//! of declarations reaches, and the faults that make resolution fail.

use crate::capture::generic_capture;
use crate::ir::{delegate_of, primitive_of, type_refs, FieldView, FuncView, StructView, TypeView};
use crate::source::{find_struct, struct_names, FieldLayout, SrcField, SrcFn, SrcStruct};
use crate::text::{decimal, strip_spaces};
use vstd::prelude::*;

verus! {

/// Why a resolution failed.
#[derive(Debug, PartialEq, Eq)]
pub enum ParseError {
    /// A parameter of the named function is not a plain named binding.
    UnsupportedParamPattern(String),
    /// The named function does not return `Result<T>`.
    UnsupportedReturnShape(String),
    /// The type text matches no category.
    UnrecognizedType(String),
    /// The named record is neither of named nor of positional fields.
    UnsupportedFieldLayout(String),
}

pub enum ErrorView {
    UnsupportedParamPattern(Seq<char>),
    UnsupportedReturnShape(Seq<char>),
    UnrecognizedType(Seq<char>),
    UnsupportedFieldLayout(Seq<char>),
}

impl View for ParseError {
    type V = ErrorView;

    open spec fn view(&self) -> ErrorView {
        match self {
            ParseError::UnsupportedParamPattern(s) => ErrorView::UnsupportedParamPattern(s@),
            ParseError::UnsupportedReturnShape(s) => ErrorView::UnsupportedReturnShape(s@),
            ParseError::UnrecognizedType(s) => ErrorView::UnrecognizedType(s@),
            ParseError::UnsupportedFieldLayout(s) => ErrorView::UnsupportedFieldLayout(s@),
        }
    }
}

/// The category of the normalised type text `ty`, given the public records
/// `structs`; on failure, the innermost text that matches no category. Categories
/// are tried in order: scalar, platform type, list, box, record.
pub open spec fn type_of(structs: Seq<SrcStruct>, ty: Seq<char>) -> Result<TypeView, Seq<char>>
    decreases ty.len(),
{
    if primitive_of(ty) is Some {
        Ok(TypeView::Primitive(primitive_of(ty)->Some_0))
    } else if delegate_of(ty) is Some {
        Ok(TypeView::Delegate(delegate_of(ty)->Some_0))
    } else if generic_capture("Vec"@, ty) is Some {
        match type_of(structs, generic_capture("Vec"@, ty)->Some_0) {
            Ok(TypeView::Primitive(p)) => Ok(TypeView::PrimitiveList(p)),
            Ok(t) => Ok(TypeView::GeneralList(Box::new(t))),
            Err(e) => Err(e),
        }
    } else if generic_capture("Box"@, ty) is Some {
        match type_of(structs, generic_capture("Box"@, ty)->Some_0) {
            Ok(t) => Ok(TypeView::Boxed(Box::new(t), true)),
            Err(e) => Err(e),
        }
    } else if find_struct(structs, ty) is Some {
        Ok(TypeView::StructRef(ty))
    } else {
        Err(ty)
    }
}

/// The records that the type text `ty` refers to (none when it fails).
pub open spec fn str_refs(structs: Seq<SrcStruct>, ty: Seq<char>) -> Set<Seq<char>> {
    match type_of(structs, ty) {
        Ok(t) => type_refs(t),
        Err(_) => Set::empty(),
    }
}

/// The normalised type text of field `i` of `st`.
pub open spec fn field_type(st: SrcStruct, i: int) -> Seq<char> {
    strip_spaces(st.fields@[i].ty@)
}

/// The name that field `i` gets: its own, or `field<i>` when positional.
pub open spec fn field_name(f: SrcField, i: int) -> Seq<char> {
    match f.name {
        Some(n) => n@,
        None => "field"@ + decimal(i as nat),
    }
}

/// The record `st` resolves: its layout is supported and every field type has a
/// category.
pub open spec fn struct_ok(structs: Seq<SrcStruct>, st: SrcStruct) -> bool {
    &&& st.layout != FieldLayout::Unit
    &&& forall|i: int|
        0 <= i < st.fields@.len() ==> (#[trigger] type_of(structs, field_type(st, i))) is Ok
}

/// The description of the record `st`.
pub open spec fn struct_view_of(structs: Seq<SrcStruct>, st: SrcStruct) -> StructView {
    StructView {
        name: st.name@,
        fields: Seq::new(
            st.fields@.len(),
            |i: int|
                FieldView {
                    name: field_name(st.fields@[i], i),
                    ty: type_of(structs, field_type(st, i))->Ok_0,
                },
        ),
        is_fields_named: st.layout == FieldLayout::Named,
    }
}

/// Every record named in `m` has all the records its fields refer to in `m`.
pub open spec fn closed(structs: Seq<SrcStruct>, m: Set<Seq<char>>) -> bool {
    forall|n: Seq<char>, i: int|
        #![trigger m.contains(n), find_struct(structs, n), field_type(find_struct(structs, n)->Some_0, i)]
        m.contains(n) && find_struct(structs, n) is Some && 0 <= i
            < find_struct(structs, n)->Some_0.fields@.len() ==> str_refs(
            structs,
            field_type(find_struct(structs, n)->Some_0, i),
        ).subset_of(m)
}

/// The normalised type text of parameter `i` of `f`.
pub open spec fn param_type(f: SrcFn, i: int) -> Seq<char> {
    strip_spaces(f.params@[i].ty@)
}

/// The success type text of `f`'s `Result<T>` return type, if it has that shape.
pub open spec fn output_arg(f: SrcFn) -> Option<Seq<char>> {
    match f.output {
        Some(o) => generic_capture("Result"@, strip_spaces(o@)),
        None => None,
    }
}

/// The records that the signature of `f` refers to directly.
pub open spec fn fn_refs(structs: Seq<SrcStruct>, f: SrcFn) -> Set<Seq<char>> {
    Set::new(
        |n: Seq<char>|
            (exists|i: int|
                0 <= i < f.params@.len() && #[trigger] str_refs(structs, param_type(f, i)).contains(
                    n,
                )) || (output_arg(f) is Some && str_refs(structs, output_arg(f)->Some_0).contains(
                n,
            )),
    )
}

/// `m` holds every record that a signature of `fns` refers to.
pub open spec fn rooted(fns: Seq<SrcFn>, structs: Seq<SrcStruct>, m: Set<Seq<char>>) -> bool {
    forall|k: int| 0 <= k < fns.len() ==> (#[trigger] fn_refs(structs, fns[k])).subset_of(m)
}

/// The record `n` is reached from the signatures of `fns`: it lies in every set
/// of records that holds what the signatures refer to and is closed under field
/// references.
pub open spec fn reached(fns: Seq<SrcFn>, structs: Seq<SrcStruct>, n: Seq<char>) -> bool {
    forall|m: Set<Seq<char>>|
        #![trigger closed(structs, m), rooted(fns, structs, m)]
        closed(structs, m) && rooted(fns, structs, m) ==> m.contains(n)
}

/// The fault `e` lies in the record `st`.
pub open spec fn struct_fault(structs: Seq<SrcStruct>, st: SrcStruct, e: ErrorView) -> bool {
    ||| st.layout == FieldLayout::Unit && e == ErrorView::UnsupportedFieldLayout(st.name@)
    ||| exists|i: int|
        0 <= i < st.fields@.len() && (#[trigger] type_of(structs, field_type(st, i))) is Err
            && e == ErrorView::UnrecognizedType(type_of(structs, field_type(st, i))->Err_0)
}

/// The fault `e` lies in a record reached from `fns`.
pub open spec fn reached_struct_fault(
    fns: Seq<SrcFn>,
    structs: Seq<SrcStruct>,
    e: ErrorView,
) -> bool {
    exists|n: Seq<char>|
        #[trigger] reached(fns, structs, n) && find_struct(structs, n) is Some && struct_fault(
            structs,
            find_struct(structs, n)->Some_0,
            e,
        )
}

/// The signature of `f` resolves.
pub open spec fn fn_ok(structs: Seq<SrcStruct>, f: SrcFn) -> bool {
    &&& forall|i: int| 0 <= i < f.params@.len() ==> (#[trigger] f.params@[i]).name is Some
    &&& forall|i: int|
        0 <= i < f.params@.len() ==> (#[trigger] type_of(structs, param_type(f, i))) is Ok
    &&& output_arg(f) is Some
    &&& type_of(structs, output_arg(f)->Some_0) is Ok
}

/// The fault `e` lies in the signature of `f`.
pub open spec fn fn_fault(structs: Seq<SrcStruct>, f: SrcFn, e: ErrorView) -> bool {
    ||| e == ErrorView::UnsupportedParamPattern(f.name@) && exists|i: int|
        0 <= i < f.params@.len() && (#[trigger] f.params@[i]).name is None
    ||| e == ErrorView::UnsupportedReturnShape(f.name@) && output_arg(f) is None
    ||| exists|i: int|
        0 <= i < f.params@.len() && (#[trigger] type_of(structs, param_type(f, i))) is Err && e
            == ErrorView::UnrecognizedType(type_of(structs, param_type(f, i))->Err_0)
    ||| output_arg(f) is Some && type_of(structs, output_arg(f)->Some_0) is Err && e
        == ErrorView::UnrecognizedType(type_of(structs, output_arg(f)->Some_0)->Err_0)
}

/// The description of the function `f`.
pub open spec fn func_view_of(structs: Seq<SrcStruct>, f: SrcFn) -> FuncView {
    FuncView {
        name: f.name@,
        inputs: Seq::new(
            f.params@.len(),
            |i: int|
                FieldView {
                    name: f.params@[i].name->Some_0@,
                    ty: type_of(structs, param_type(f, i))->Ok_0,
                },
        ),
        output: type_of(structs, output_arg(f)->Some_0)->Ok_0,
    }
}

/// Every record named in `m` resolves.
pub open spec fn all_structs_ok(structs: Seq<SrcStruct>, m: Set<Seq<char>>) -> bool {
    forall|n: Seq<char>|
        #[trigger] m.contains(n) && find_struct(structs, n) is Some ==> struct_ok(
            structs,
            find_struct(structs, n)->Some_0,
        )
}

/// The declarations resolve: every public signature does, and some set of records
/// closed under field references, holding all that the signatures refer to,
/// resolves as well.
pub open spec fn resolvable(fns: Seq<SrcFn>, structs: Seq<SrcStruct>) -> bool {
    &&& forall|k: int| 0 <= k < fns.len() ==> fn_ok(structs, #[trigger] fns[k])
    &&& exists|m: Set<Seq<char>>|
        closed(structs, m) && rooted(fns, structs, m) && all_structs_ok(structs, m)
}

/// The record that a type finally refers to, through its list and box wrappers.
pub open spec fn leaf_ref(t: TypeView) -> Option<Seq<char>>
    decreases t,
{
    match t {
        TypeView::GeneralList(inner) => leaf_ref(*inner),
        TypeView::Boxed(inner, _) => leaf_ref(*inner),
        TypeView::StructRef(name) => Some(name),
        _ => None,
    }
}

/// How many record names are not yet in `v`.
pub open spec fn unvisited(structs: Seq<SrcStruct>, v: Set<Seq<char>>) -> nat {
    struct_names(structs).to_set().difference(v).len()
}

/// Classifying `ty` registers no record, given the records `v` already taken:
/// it fails at once, or it refers to no record, or to one already taken.
pub open spec fn settles_at_once(structs: Seq<SrcStruct>, v: Set<Seq<char>>, ty: Seq<char>) -> bool {
    match type_of(structs, ty) {
        Err(_) => true,
        Ok(t) => match leaf_ref(t) {
            None => true,
            Some(n) => v.contains(n),
        },
    }
}

/// The fail-fast walk that classifies `ty` when the records `v` are registered
/// or being registered: the records taken afterwards, or the first fault met. A
/// record met for the first time is taken before its fields are walked, in order.
pub open spec fn type_walk(structs: Seq<SrcStruct>, v: Set<Seq<char>>, ty: Seq<char>) -> Result<
    Set<Seq<char>>,
    ErrorView,
>
    decreases unvisited(structs, v), 0nat, 0nat,
{
    match type_of(structs, ty) {
        Err(s) => Err(ErrorView::UnrecognizedType(s)),
        Ok(t) => match leaf_ref(t) {
            None => Ok(v),
            Some(n) => {
                if v.contains(n) || find_struct(structs, n) is None {
                    Ok(v)
                } else if unvisited(structs, v.insert(n)) < unvisited(structs, v) {
                    struct_walk(structs, v.insert(n), find_struct(structs, n)->Some_0)
                } else {
                    Ok(v)
                }
            },
        },
    }
}

/// The walk over the fields of the record `st`, whose name is already in `v`.
pub open spec fn struct_walk(structs: Seq<SrcStruct>, v: Set<Seq<char>>, st: SrcStruct) -> Result<
    Set<Seq<char>>,
    ErrorView,
>
    decreases unvisited(structs, v), 2nat, 0nat,
{
    if st.layout == FieldLayout::Unit {
        Err(ErrorView::UnsupportedFieldLayout(st.name@))
    } else {
        fields_walk(structs, v, st, 0)
    }
}

/// The walk over the fields of `st` from field `i` on, in order.
pub open spec fn fields_walk(
    structs: Seq<SrcStruct>,
    v: Set<Seq<char>>,
    st: SrcStruct,
    i: int,
) -> Result<Set<Seq<char>>, ErrorView>
    decreases unvisited(structs, v), 1nat, st.fields@.len() - i,
{
    if i < 0 || i >= st.fields@.len() {
        Ok(v)
    } else {
        match type_walk(structs, v, field_type(st, i)) {
            Err(e) => Err(e),
            Ok(v2) => {
                if unvisited(structs, v2) <= unvisited(structs, v) {
                    fields_walk(structs, v2, st, i + 1)
                } else {
                    Ok(v2)
                }
            },
        }
    }
}

/// The walk over the signature of `f` from parameter `i` on: each parameter's
/// pattern, then its type, in order; then the return shape and the success type.
pub open spec fn params_walk(structs: Seq<SrcStruct>, v: Set<Seq<char>>, f: SrcFn, i: int) -> Result<
    Set<Seq<char>>,
    ErrorView,
>
    decreases f.params@.len() - i,
{
    if i < 0 || i >= f.params@.len() {
        match output_arg(f) {
            None => Err(ErrorView::UnsupportedReturnShape(f.name@)),
            Some(a) => type_walk(structs, v, a),
        }
    } else if f.params@[i].name is None {
        Err(ErrorView::UnsupportedParamPattern(f.name@))
    } else {
        match type_walk(structs, v, param_type(f, i)) {
            Err(e) => Err(e),
            Ok(v2) => params_walk(structs, v2, f, i + 1),
        }
    }
}

/// The walk over the functions `fns` from the `k`-th on, in declaration order.
pub open spec fn fns_walk(structs: Seq<SrcStruct>, v: Set<Seq<char>>, fns: Seq<SrcFn>, k: int) -> Result<
    Set<Seq<char>>,
    ErrorView,
>
    decreases fns.len() - k,
{
    if k < 0 || k >= fns.len() {
        Ok(v)
    } else {
        match params_walk(structs, v, fns[k], 0) {
            Err(e) => Err(e),
            Ok(v2) => fns_walk(structs, v2, fns, k + 1),
        }
    }
}

/// The first fault met when the public functions `fns` are resolved in
/// declaration order, if any.
pub open spec fn first_fault(fns: Seq<SrcFn>, structs: Seq<SrcStruct>) -> Option<ErrorView> {
    match fns_walk(structs, Set::empty(), fns, 0) {
        Err(e) => Some(e),
        Ok(_) => None,
    }
}

/// Fewer names are left once more are taken.
pub proof fn lemma_unvisited_mono(structs: Seq<SrcStruct>, v: Set<Seq<char>>, v2: Set<Seq<char>>)
    requires
        v.subset_of(v2),
    ensures
        unvisited(structs, v2) <= unvisited(structs, v),
{
    let all = struct_names(structs).to_set();
    vstd::set_lib::lemma_len_subset(all.difference(v), all);
    vstd::set_lib::lemma_len_subset(all.difference(v2), all.difference(v));
}

/// Taking a record name not yet taken leaves one name fewer.
pub proof fn lemma_unvisited_insert(structs: Seq<SrcStruct>, v: Set<Seq<char>>, n: Seq<char>)
    requires
        struct_names(structs).contains(n),
        !v.contains(n),
    ensures
        unvisited(structs, v.insert(n)) < unvisited(structs, v),
{
    let all = struct_names(structs).to_set();
    vstd::set_lib::lemma_len_subset(all.difference(v), all);
    assert(all.difference(v.insert(n)) =~= all.difference(v).remove(n));
    assert(all.difference(v).contains(n));
}

} // verus!
