//! The resolver: classifies every type of the public signatures and registers
//! each record they reach exactly once, also where records refer to themselves.

use crate::capture::GenericCapture;
use crate::ir::{ApiField, ApiFile, ApiFunc, ApiStruct, ApiType, ApiTypeDelegate, ApiTypePrimitive, TypeView, type_refs};
use crate::model::{
    closed, field_type, fn_fault, fn_ok, func_view_of, output_arg, param_type,
    reached, reached_struct_fault, resolvable, rooted, str_refs, struct_fault, struct_ok,
    struct_view_of, type_of, ErrorView, ParseError, fn_refs, all_structs_ok, type_walk,
    struct_walk, fields_walk, params_walk, fns_walk, first_fault, settles_at_once, leaf_ref,
    lemma_unvisited_mono, lemma_unvisited_insert,
};
use crate::source::{
    extract_items_from_file, find_struct, lemma_find_struct_named, lookup_struct, pub_fns,
    pub_structs, struct_names, FieldLayout, SrcFile, SrcFn, SrcStruct,
};
use crate::text::{decimal_string, remove_spaces};
use vstd::prelude::*;
use vstd::string::*;

verus! {

/// A list of distinct names of records is no longer than the list of records.
proof fn lemma_distinct_names_bound(structs: Seq<SrcStruct>, names: Seq<Seq<char>>)
    requires
        names.no_duplicates(),
        forall|j: int| 0 <= j < names.len() ==> find_struct(structs, #[trigger] names[j]) is Some,
    ensures
        names.len() <= structs.len(),
{
    let all = struct_names(structs);
    assert forall|x: Seq<char>| names.to_set().contains(x) implies all.to_set().contains(x) by {
        let j = choose|j: int| 0 <= j < names.len() && names[j] == x;
        lemma_find_struct_named(structs, names[j]);
    }
    names.unique_seq_to_set();
    all.lemma_cardinality_of_set();
    vstd::set_lib::lemma_len_subset(names.to_set(), all.to_set());
}

/// The names of the records in the pool of `f`, in order.
pub open spec fn pool_names_of(f: ApiFile) -> Seq<Seq<char>> {
    f.struct_pool@.map_values(|s: ApiStruct| s.name@)
}

/// `f` is the description of the public functions `fns` over the public records
/// `structs`: one entry per function in order, each record reached from them
/// exactly once, resolved from its declaration, and nothing else.
pub open spec fn describes(fns: Seq<SrcFn>, structs: Seq<SrcStruct>, f: ApiFile) -> bool {
    &&& f.funcs@.len() == fns.len()
    &&& forall|k: int| 0 <= k < fns.len() ==> (#[trigger] f.funcs@[k])@ == func_view_of(structs, fns[k])
    &&& forall|k: int| 0 <= k < fns.len() ==> fn_ok(structs, #[trigger] fns[k])
    &&& pool_names_of(f).no_duplicates()
    &&& forall|j: int|
        0 <= j < f.struct_pool@.len() ==> find_struct(structs, (#[trigger] f.struct_pool@[j]).name@)
            is Some && f.struct_pool@[j]@ == struct_view_of(
            structs,
            find_struct(structs, f.struct_pool@[j].name@)->Some_0,
        )
    &&& closed(structs, pool_names_of(f).to_set())
    &&& rooted(fns, structs, pool_names_of(f).to_set())
    &&& forall|n: Seq<char>| #[trigger] pool_names_of(f).to_set().contains(n) ==> reached(fns, structs, n)
}

/// The fault `e` lies in a public signature or in a record reached from them.
pub open spec fn fault_in(fns: Seq<SrcFn>, structs: Seq<SrcStruct>, e: ErrorView) -> bool {
    ||| exists|k: int| 0 <= k < fns.len() && fn_fault(structs, #[trigger] fns[k], e)
    ||| reached_struct_fault(fns, structs, e)
}

/// A fault makes the declarations unresolvable: no resolution can succeed where
/// a public signature, or a record it reaches, holds a fault.
pub proof fn lemma_fault_blocks(fns: Seq<SrcFn>, structs: Seq<SrcStruct>, e: ErrorView)
    requires
        fault_in(fns, structs, e),
    ensures
        !resolvable(fns, structs),
{
    if resolvable(fns, structs) {
        let m = choose|m: Set<Seq<char>>|
            closed(structs, m) && rooted(fns, structs, m) && all_structs_ok(structs, m);
        if exists|k: int| 0 <= k < fns.len() && fn_fault(structs, #[trigger] fns[k], e) {
            let k = choose|k: int| 0 <= k < fns.len() && fn_fault(structs, #[trigger] fns[k], e);
            assert(fn_ok(structs, fns[k]));
        } else {
            let n = choose|n: Seq<char>|
                #[trigger] reached(fns, structs, n) && find_struct(structs, n) is Some
                    && struct_fault(structs, find_struct(structs, n)->Some_0, e);
            assert(m.contains(n));
            assert(struct_ok(structs, find_struct(structs, n)->Some_0));
        }
    }
}

/// Resolves the public function and record declarations of `file`.
///
/// Succeeds exactly when the declarations are resolvable; the result then lists
/// each public function in order, with every record reached from them once.
/// A failure names the first fault met: functions in declaration order; within
/// one, each parameter's pattern then its type, then the return shape and the
/// success type; within a record met for the first time, its fields in order.
pub fn parse(file: SrcFile) -> (r: Result<ApiFile, ParseError>)
    ensures
        r is Ok <==> resolvable(pub_fns(file.items@), pub_structs(file.items@)),
        match r {
            Ok(f) => describes(pub_fns(file.items@), pub_structs(file.items@), f),
            Err(e) => fault_in(pub_fns(file.items@), pub_structs(file.items@), e@),
        },
        match first_fault(pub_fns(file.items@), pub_structs(file.items@)) {
            None => r is Ok,
            Some(e) => r is Err && (r->Err_0)@ == e,
        },
{
    let (src_fns, src_structs) = extract_items_from_file(&file);
    proof {
        reveal_strlit("Vec");
        reveal_strlit("Box");
        reveal_strlit("Result");
    }
    let parser = Parser {
        src_structs,
        struct_pool: Vec::new(),
        parsing_or_parsed_struct_names: Vec::new(),
        capture_vec: GenericCapture::new("Vec"),
        capture_box: GenericCapture::new("Box"),
        capture_result: GenericCapture::new("Result"),
        fns: Ghost(pub_fns(file.items@)),
    };
    assert(parser.names().len() == 0);
    assert(parser.pool_names().len() == 0);
    let r = parser.parse(src_fns);
    proof {
        if r is Err {
            lemma_fault_blocks(pub_fns(file.items@), pub_structs(file.items@), (r->Err_0)@);
        }
    }
    r
}

/// `r` is what the walk `w` gives: success with the records `v_after` taken, or
/// the walk's fault.
spec fn walk_matches<T>(
    v_after: Set<Seq<char>>,
    w: Result<Set<Seq<char>>, ErrorView>,
    r: Result<T, ParseError>,
) -> bool {
    match w {
        Ok(v2) => r is Ok && v_after == v2,
        Err(e) => r is Err && (r->Err_0)@ == e,
    }
}

struct Parser<'a> {
    src_structs: Vec<&'a SrcStruct>,
    struct_pool: Vec<ApiStruct>,
    parsing_or_parsed_struct_names: Vec<String>,
    capture_vec: GenericCapture,
    capture_box: GenericCapture,
    capture_result: GenericCapture,
    fns: Ghost<Seq<SrcFn>>,
}

impl<'a> Parser<'a> {
    spec fn structs(&self) -> Seq<SrcStruct> {
        self.src_structs@.map_values(|s: &SrcStruct| *s)
    }

    spec fn names(&self) -> Seq<Seq<char>> {
        self.parsing_or_parsed_struct_names@.map_values(|s: String| s@)
    }

    spec fn pool_names(&self) -> Seq<Seq<char>> {
        self.struct_pool@.map_values(|s: ApiStruct| s.name@)
    }

    spec fn measure(&self) -> nat {
        (self.src_structs@.len() - self.parsing_or_parsed_struct_names@.len()) as nat
    }

    spec fn pending(&self, x: Seq<char>) -> bool {
        self.names().contains(x) && !self.pool_names().contains(x)
    }

    spec fn inv(&self) -> bool {
        &&& self.capture_vec.wrapper_name() == "Vec"@
        &&& self.capture_box.wrapper_name() == "Box"@
        &&& self.capture_result.wrapper_name() == "Result"@
        &&& self.names().no_duplicates()
        &&& self.names().len() <= self.structs().len()
        &&& forall|j: int|
            0 <= j < self.names().len() ==> find_struct(self.structs(), #[trigger] self.names()[j])
                is Some
        &&& forall|j: int|
            0 <= j < self.names().len() ==> reached(
                self.fns@,
                self.structs(),
                #[trigger] self.names()[j],
            )
        &&& self.pool_names().no_duplicates()
        &&& forall|j: int|
            0 <= j < self.pool_names().len() ==> self.names().contains(
                #[trigger] self.pool_names()[j],
            )
        &&& forall|j: int| 0 <= j < self.struct_pool@.len() ==> self.pool_entry_ok(#[trigger] self.struct_pool@[j])
    }

    spec fn pool_entry_ok(&self, e: ApiStruct) -> bool {
        &&& find_struct(self.structs(), e.name@) is Some
        &&& struct_ok(self.structs(), find_struct(self.structs(), e.name@)->Some_0)
        &&& e@ == struct_view_of(self.structs(), find_struct(self.structs(), e.name@)->Some_0)
        &&& forall|i: int|
            0 <= i < e.fields@.len() ==> (#[trigger] type_refs(e.fields@[i].ty@)).subset_of(
                self.names().to_set(),
            )
    }

    /// `self` grew from `old`: same source, names and pool extended, and the
    /// records in progress are the same.
    spec fn grew_from(&self, old: &Parser<'a>) -> bool {
        &&& self.src_structs == old.src_structs
        &&& self.fns == old.fns
        &&& self.capture_vec == old.capture_vec
        &&& self.capture_box == old.capture_box
        &&& self.capture_result == old.capture_result
        &&& old.names().len() <= self.names().len()
        &&& forall|j: int| 0 <= j < old.names().len() ==> self.names()[j] == old.names()[j]
        &&& old.struct_pool@.len() <= self.struct_pool@.len()
        &&& forall|j: int| 0 <= j < old.struct_pool@.len() ==> self.struct_pool@[j] == old.struct_pool@[j]
    }

    /// The records in progress are those of `old`.
    spec fn keeps_pending(&self, old: &Parser<'a>) -> bool {
        forall|x: Seq<char>| self.pending(x) == old.pending(x)
    }

    /// The type text `ty` is one whose references every closed, rooted set holds.
    spec fn relevant(&self, ty: Seq<char>) -> bool {
        forall|m: Set<Seq<char>>|
            #![trigger closed(self.structs(), m), rooted(self.fns@, self.structs(), m)]
            closed(self.structs(), m) && rooted(self.fns@, self.structs(), m) ==> str_refs(
                self.structs(),
                ty,
            ).subset_of(m)
    }

    spec fn type_result(&self, ty: Seq<char>, r: Result<ApiType, ParseError>) -> bool {
        match r {
            Ok(t) => {
                &&& type_of(self.structs(), ty) == Ok::<TypeView, Seq<char>>(t@)
                &&& type_refs(t@).subset_of(self.names().to_set())
            },
            Err(e) => match type_of(self.structs(), ty) {
                Err(s) => e@ == ErrorView::UnrecognizedType(s),
                Ok(_) => reached_struct_fault(self.fns@, self.structs(), e@),
            },
        }
    }

    proof fn lemma_names_grow(&self, old: &Parser<'a>)
        requires
            self.grew_from(old),
        ensures
            forall|x: Seq<char>| old.names().contains(x) ==> self.names().contains(x),
    {
        assert forall|x: Seq<char>| old.names().contains(x) implies self.names().contains(x) by {
            let j = choose|j: int| 0 <= j < old.names().len() && old.names()[j] == x;
            assert(self.names()[j] == x);
        }
    }

    proof fn lemma_grew_trans(&self, mid: &Parser<'a>, old: &Parser<'a>)
        requires
            self.grew_from(mid),
            mid.grew_from(old),
        ensures
            self.grew_from(old),
    {
        assert forall|j: int| 0 <= j < old.names().len() implies self.names()[j] == old.names()[j] by {
            assert(self.names()[j] == mid.names()[j]);
        }
        assert forall|j: int| 0 <= j < old.struct_pool@.len() implies self.struct_pool@[j] == old.struct_pool@[j] by {
            assert(self.struct_pool@[j] == mid.struct_pool@[j]);
        }
    }

    /// Whether the record `name` is being or has been registered.
    fn is_parsing_or_parsed(&self, name: &str) -> (r: bool)
        ensures
            r == self.names().contains(name@),
    {
        let mut i: usize = 0;
        while i < self.parsing_or_parsed_struct_names.len()
            invariant
                i <= self.names().len(),
                forall|j: int| 0 <= j < i ==> self.names()[j] != name@,
            decreases self.names().len() - i,
        {
            if crate::text::str_equal(self.parsing_or_parsed_struct_names[i].as_str(), name) {
                assert(self.names()[i as int] == name@);
                return true;
            }
            i = i + 1;
        }
        false
    }

    /// Resolves `ty` as a reference to a public record, registering the record
    /// first if it is neither registered nor being registered.
    fn try_parse_struct(&mut self, ty: &str) -> (r: Result<Option<ApiType>, ParseError>)
        requires
            old(self).inv(),
            old(self).relevant(ty@),
            crate::ir::primitive_of(ty@) is None,
            crate::ir::delegate_of(ty@) is None,
            crate::capture::generic_capture("Vec"@, ty@) is None,
            crate::capture::generic_capture("Box"@, ty@) is None,
        ensures
            final(self).inv(),
            final(self).grew_from(old(self)),
            r is Ok ==> final(self).keeps_pending(old(self)),
            r == Ok::<Option<ApiType>, ParseError>(None) <==> find_struct(old(self).structs(), ty@) is None,
            r == Ok::<Option<ApiType>, ParseError>(None) ==> *final(self) == *old(self),
            r != Ok::<Option<ApiType>, ParseError>(None) ==> walk_matches(
                final(self).names().to_set(),
                type_walk(old(self).structs(), old(self).names().to_set(), ty@),
                r,
            ),
            settles_at_once(old(self).structs(), old(self).names().to_set(), ty@) ==> *final(self)
                == *old(self),
            match r {
                Ok(Some(t)) => final(self).type_result(ty@, Ok(t)),
                Err(e) => final(self).type_result(ty@, Err(e)),
                Ok(None) => true,
            },
        decreases old(self).measure(), 1nat, ty@.len(), 1nat,
    {
        let item = lookup_struct(&self.src_structs, ty);
        match item {
            None => Ok(None),
            Some(item_struct) => {
                let ghost start = *self;
                assert(type_of(self.structs(), ty@) == Ok::<TypeView, Seq<char>>(TypeView::StructRef(ty@)));
                assert(type_refs(TypeView::StructRef(ty@)) == set![ty@]);
                assert(leaf_ref(TypeView::StructRef(ty@)) == Some(ty@));
                if !self.is_parsing_or_parsed(ty) {
                    proof {
                        lemma_find_struct_named(self.structs(), ty@);
                        assert forall|m: Set<Seq<char>>|
                            closed(self.structs(), m) && rooted(self.fns@, self.structs(), m)
                            implies m.contains(ty@) by {
                            assert(str_refs(self.structs(), ty@).contains(ty@));
                        }
                    }
                    self.parsing_or_parsed_struct_names.push(String::from_str(ty));
                    proof {
                        assert(self.names() =~= start.names().push(ty@));
                        assert(self.pool_names() == start.pool_names());
                        assert forall|j: int| 0 <= j < self.names().len() implies find_struct(
                            self.structs(), #[trigger] self.names()[j]) is Some by {
                            if j < start.names().len() {
                                assert(self.names()[j] == start.names()[j]);
                            }
                        }
                        lemma_distinct_names_bound(self.structs(), self.names());
                        assert forall|x: Seq<char>| start.names().contains(x) implies self.names().contains(x) by {
                            let j = choose|j: int| 0 <= j < start.names().len() && start.names()[j] == x;
                            assert(self.names()[j] == x);
                        }
                        assert forall|j: int| 0 <= j < self.struct_pool@.len() implies self.pool_entry_ok(#[trigger] self.struct_pool@[j]) by {
                            assert(start.pool_entry_ok(start.struct_pool@[j]));
                        }
                        assert forall|j: int| 0 <= j < self.pool_names().len() implies self.names().contains(
                            #[trigger] self.pool_names()[j]) by {
                            assert(start.names().contains(start.pool_names()[j]));
                        }
                    }
                    let ghost mid = *self;
                    proof {
                        start.names().lemma_push_to_set_commute(ty@);
                        assert(self.names().to_set() == start.names().to_set().insert(ty@));
                        lemma_unvisited_insert(self.structs(), start.names().to_set(), ty@);
                        assert(type_walk(self.structs(), start.names().to_set(), ty@) == struct_walk(
                            self.structs(), self.names().to_set(), *item_struct));
                        assert(item_struct.name@ == ty@);
                        assert(self.names()[start.names().len() as int] == ty@);
                        if self.pool_names().contains(ty@) {
                            let j = choose|j: int| 0 <= j < self.pool_names().len() && self.pool_names()[j] == ty@;
                            assert(start.names().contains(start.pool_names()[j]));
                        }
                    }
                    match self.parse_struct_core(item_struct) {
                        Err(e) => {
                            return Err(e);
                        },
                        Ok(api_struct) => {
                            let ghost core_end = *self;
                            proof {
                                assert(core_end.pending(ty@));
                            }
                            self.struct_pool.push(api_struct);
                            proof {
                                assert(self.names() == core_end.names());
                                assert(self.names().to_set() == core_end.names().to_set());
                                assert(self.pool_names() =~= core_end.pool_names().push(ty@));
                                assert forall|j: int| 0 <= j < self.struct_pool@.len() implies self.pool_entry_ok(#[trigger] self.struct_pool@[j]) by {
                                    if j < core_end.struct_pool@.len() {
                                        assert(core_end.pool_entry_ok(core_end.struct_pool@[j]));
                                    } else {
                                        assert(self.struct_pool@[j] == api_struct);
                                        assert(api_struct@.fields == api_struct.fields@.map_values(|f: ApiField| f@));
                                    }
                                }
                                assert forall|j: int| 0 <= j < self.pool_names().len() implies self.names().contains(
                                    #[trigger] self.pool_names()[j]) by {
                                    if j < core_end.pool_names().len() {
                                        assert(core_end.names().contains(core_end.pool_names()[j]));
                                    } else {
                                        assert(self.names()[start.names().len() as int] == ty@);
                                    }
                                }
                                assert forall|j: int| 0 <= j < start.struct_pool@.len() implies self.struct_pool@[j] == start.struct_pool@[j] by {
                                    assert(core_end.struct_pool@[j] == mid.struct_pool@[j]);
                                }
                                assert forall|j: int| 0 <= j < start.names().len() implies self.names()[j] == start.names()[j] by {
                                    assert(core_end.names()[j] == mid.names()[j]);
                                }
                                assert forall|x: Seq<char>| self.pending(x) == start.pending(x) by {
                                    assert(core_end.pending(x) == mid.pending(x));
                                    if x != ty@ {
                                        assert(mid.names().contains(x) == start.names().contains(x));
                                        if self.pool_names().contains(x) {
                                            let j = choose|j: int| 0 <= j < self.pool_names().len() && self.pool_names()[j] == x;
                                            assert(core_end.pool_names()[j] == x);
                                        }
                                        if core_end.pool_names().contains(x) {
                                            let j = choose|j: int| 0 <= j < core_end.pool_names().len() && core_end.pool_names()[j] == x;
                                            assert(self.pool_names()[j] == x);
                                        }
                                    } else {
                                        assert(self.pool_names()[self.pool_names().len() - 1] == ty@);
                                    }
                                }
                            }
                        },
                    }
                }
                Ok(Some(ApiType::StructRef { name: String::from_str(ty) }))
            },
        }
    }

    /// Builds the description of the record `item_struct`, whose name has just
    /// been marked as being registered.
    fn parse_struct_core(&mut self, item_struct: &SrcStruct) -> (r: Result<ApiStruct, ParseError>)
        requires
            old(self).inv(),
            find_struct(old(self).structs(), item_struct.name@) == Some(*item_struct),
            old(self).pending(item_struct.name@),
            reached(old(self).fns@, old(self).structs(), item_struct.name@),
        ensures
            final(self).inv(),
            final(self).grew_from(old(self)),
            r is Ok ==> final(self).keeps_pending(old(self)),
            match r {
                Ok(s) => {
                    &&& s@ == struct_view_of(final(self).structs(), *item_struct)
                    &&& struct_ok(final(self).structs(), *item_struct)
                    &&& forall|i: int|
                        0 <= i < s.fields@.len() ==> (#[trigger] type_refs(s.fields@[i].ty@)).subset_of(
                            final(self).names().to_set(),
                        )
                },
                Err(e) => reached_struct_fault(final(self).fns@, final(self).structs(), e@),
            },
            walk_matches(
                final(self).names().to_set(),
                struct_walk(old(self).structs(), old(self).names().to_set(), *item_struct),
                r,
            ),
        decreases old(self).measure(), 2nat, 0nat, 0nat,
    {
        let ghost start = *self;
        let ghost name = item_struct.name@;
        let is_fields_named = match item_struct.layout {
            FieldLayout::Named => true,
            FieldLayout::Unnamed => false,
            FieldLayout::Unit => {
                let e = ParseError::UnsupportedFieldLayout(item_struct.name.clone());
                assert(struct_fault(self.structs(), *item_struct, e@));
                assert(reached(self.fns@, self.structs(), name));
                return Err(e);
            },
        };
        let ghost target = struct_view_of(self.structs(), *item_struct);
        let mut fields: Vec<ApiField> = Vec::new();
        let n = item_struct.fields.len();
        let mut idx: usize = 0;
        while idx < n
            invariant
                n == item_struct.fields@.len(),
                idx <= n,
                self.inv(),
                self.grew_from(&start),
                self.keeps_pending(&start),
                self.measure() <= start.measure(),
                start == *old(self),
                self.structs() == start.structs(),
                self.fns@ == start.fns@,
                target == struct_view_of(self.structs(), *item_struct),
                find_struct(self.structs(), name) == Some(*item_struct),
                reached(self.fns@, self.structs(), name),
                name == item_struct.name@,
                struct_walk(start.structs(), start.names().to_set(), *item_struct) == fields_walk(
                    self.structs(),
                    self.names().to_set(),
                    *item_struct,
                    idx as int,
                ),
                fields@.len() == idx,
                forall|i: int| 0 <= i < idx ==> (#[trigger] fields@[i])@ == target.fields[i],
                forall|i: int|
                    0 <= i < idx ==> (#[trigger] type_of(self.structs(), field_type(*item_struct, i))) is Ok,
                forall|i: int|
                    0 <= i < idx ==> (#[trigger] type_refs(fields@[i].ty@)).subset_of(self.names().to_set()),
            decreases n - idx,
        {
            let field = &item_struct.fields[idx];
            let field_name_str = match &field.name {
                Some(id) => id.clone(),
                None => {
                    let mut s = String::from_str("field");
                    let digits = decimal_string(idx);
                    s.append(digits.as_str());
                    s
                },
            };
            let field_type_str = remove_spaces(field.ty.as_str());
            proof {
                assert(field_type_str@ == field_type(*item_struct, idx as int));
                assert forall|m: Set<Seq<char>>|
                    #![trigger closed(self.structs(), m), rooted(self.fns@, self.structs(), m)]
                    closed(self.structs(), m) && rooted(self.fns@, self.structs(), m) implies str_refs(
                        self.structs(), field_type_str@).subset_of(m) by {
                    assert(m.contains(name));
                    assert(field_type(find_struct(self.structs(), name)->Some_0, idx as int) == field_type_str@);
                }
            }
            let ghost before = *self;
            assert(before.measure() <= start.measure());
            let field_type_res = self.parse_type(field_type_str.as_str());
            proof {
                self.lemma_names_grow(&before);
                self.lemma_grew_trans(&before, &start);
                assert(before.names().to_set().subset_of(self.names().to_set()));
                lemma_unvisited_mono(self.structs(), before.names().to_set(), self.names().to_set());
            }
            match field_type_res {
                Err(e) => {
                    proof {
                        if type_of(self.structs(), field_type_str@) is Err {
                            assert(struct_fault(self.structs(), *item_struct, e@));
                            assert(reached(self.fns@, self.structs(), name));
                        }
                    }
                    return Err(e);
                },
                Ok(field_type_val) => {
                    let ghost prev = fields@;
                    fields.push(ApiField { name: field_name_str, ty: field_type_val });
                    proof {
                        assert(fields@[idx as int]@ == target.fields[idx as int]);
                        assert forall|i: int| 0 <= i < idx + 1 implies (#[trigger] type_refs(fields@[i].ty@)).subset_of(self.names().to_set()) by {
                            if i < idx {
                                assert(prev[i] == fields@[i]);
                            }
                        }
                        assert forall|i: int| 0 <= i < idx + 1 implies (#[trigger] fields@[i])@ == target.fields[i] by {
                            if i < idx {
                                assert(prev[i] == fields@[i]);
                            }
                        }
                    }
                },
            }
            idx = idx + 1;
        }
        let r = ApiStruct { name: item_struct.name.clone(), fields, is_fields_named };
        assert(r@.fields =~= target.fields);
        Ok(r)
    }

    /// Classifies the normalised type text `ty`.
    fn parse_type(&mut self, ty: &str) -> (r: Result<ApiType, ParseError>)
        requires
            old(self).inv(),
            old(self).relevant(ty@),
        ensures
            final(self).inv(),
            final(self).grew_from(old(self)),
            r is Ok ==> final(self).keeps_pending(old(self)),
            final(self).type_result(ty@, r),
            walk_matches(
                final(self).names().to_set(),
                type_walk(old(self).structs(), old(self).names().to_set(), ty@),
                r,
            ),
            settles_at_once(old(self).structs(), old(self).names().to_set(), ty@) ==> *final(self)
                == *old(self),
        decreases old(self).measure(), 1nat, ty@.len(), 2nat,
    {
        if let Some(p) = ApiTypePrimitive::try_from_rust_str(ty) {
            return Ok(ApiType::Primitive(p));
        }
        if let Some(d) = ApiTypeDelegate::try_from_rust_str(ty) {
            return Ok(ApiType::Delegate(d));
        }
        match self.try_parse_list(ty) {
            Err(e) => return Err(e),
            Ok(Some(t)) => return Ok(t),
            Ok(None) => {},
        }
        match self.try_parse_box(ty) {
            Err(e) => return Err(e),
            Ok(Some(t)) => return Ok(t),
            Ok(None) => {},
        }
        match self.try_parse_struct(ty) {
            Err(e) => Err(e),
            Ok(Some(t)) => Ok(t),
            Ok(None) => Err(ParseError::UnrecognizedType(String::from_str(ty))),
        }
    }

    /// Classifies `ty` as a list when it has the shape `Vec<T>`.
    fn try_parse_list(&mut self, ty: &str) -> (r: Result<Option<ApiType>, ParseError>)
        requires
            old(self).inv(),
            old(self).relevant(ty@),
            crate::ir::primitive_of(ty@) is None,
            crate::ir::delegate_of(ty@) is None,
        ensures
            final(self).inv(),
            final(self).grew_from(old(self)),
            r is Ok ==> final(self).keeps_pending(old(self)),
            r == Ok::<Option<ApiType>, ParseError>(None) <==> crate::capture::generic_capture(
                "Vec"@,
                ty@,
            ) is None,
            r == Ok::<Option<ApiType>, ParseError>(None) ==> *final(self) == *old(self),
            r != Ok::<Option<ApiType>, ParseError>(None) ==> walk_matches(
                final(self).names().to_set(),
                type_walk(old(self).structs(), old(self).names().to_set(), ty@),
                r,
            ),
            settles_at_once(old(self).structs(), old(self).names().to_set(), ty@) ==> *final(self)
                == *old(self),
            match r {
                Ok(Some(t)) => final(self).type_result(ty@, Ok(t)),
                Err(e) => final(self).type_result(ty@, Err(e)),
                Ok(None) => true,
            },
        decreases old(self).measure(), 1nat, ty@.len(), 1nat,
    {
        match self.capture_vec.captures(ty) {
            None => Ok(None),
            Some(inner) => {
                proof {
                    assert(str_refs(self.structs(), inner@).subset_of(str_refs(self.structs(), ty@))) by {
                        if type_of(self.structs(), inner@) is Ok {
                            let t = type_of(self.structs(), inner@)->Ok_0;
                            if t is Primitive {
                            } else {
                                assert(type_refs(TypeView::GeneralList(Box::new(t))) == type_refs(t));
                            }
                        }
                    }
                }
                match self.parse_type(inner.as_str()) {
                    Err(e) => Err(e),
                    Ok(ApiType::Primitive(primitive)) => Ok(Some(ApiType::PrimitiveList { primitive })),
                    Ok(others) => {
                        let t = ApiType::GeneralList { inner: Box::new(others) };
                        assert(type_refs(t@) == type_refs(others@));
                        Ok(Some(t))
                    },
                }
            },
        }
    }

    /// Classifies `ty` as a box when it has the shape `Box<T>`.
    fn try_parse_box(&mut self, ty: &str) -> (r: Result<Option<ApiType>, ParseError>)
        requires
            old(self).inv(),
            old(self).relevant(ty@),
            crate::ir::primitive_of(ty@) is None,
            crate::ir::delegate_of(ty@) is None,
            crate::capture::generic_capture("Vec"@, ty@) is None,
        ensures
            final(self).inv(),
            final(self).grew_from(old(self)),
            r is Ok ==> final(self).keeps_pending(old(self)),
            r == Ok::<Option<ApiType>, ParseError>(None) <==> crate::capture::generic_capture(
                "Box"@,
                ty@,
            ) is None,
            r == Ok::<Option<ApiType>, ParseError>(None) ==> *final(self) == *old(self),
            r != Ok::<Option<ApiType>, ParseError>(None) ==> walk_matches(
                final(self).names().to_set(),
                type_walk(old(self).structs(), old(self).names().to_set(), ty@),
                r,
            ),
            settles_at_once(old(self).structs(), old(self).names().to_set(), ty@) ==> *final(self)
                == *old(self),
            match r {
                Ok(Some(t)) => final(self).type_result(ty@, Ok(t)),
                Err(e) => final(self).type_result(ty@, Err(e)),
                Ok(None) => true,
            },
        decreases old(self).measure(), 1nat, ty@.len(), 1nat,
    {
        match self.capture_box.captures(ty) {
            None => Ok(None),
            Some(inner) => {
                proof {
                    assert(str_refs(self.structs(), inner@).subset_of(str_refs(self.structs(), ty@))) by {
                        if type_of(self.structs(), inner@) is Ok {
                            let t = type_of(self.structs(), inner@)->Ok_0;
                            assert(type_refs(TypeView::Boxed(Box::new(t), true)) == type_refs(t));
                        }
                    }
                }
                match self.parse_type(inner.as_str()) {
                    Err(e) => Err(e),
                    Ok(inner_type) => {
                        let t = ApiType::Boxed { inner: Box::new(inner_type), exist_in_real_api: true };
                        assert(type_refs(t@) == type_refs(inner_type@));
                        Ok(Some(t))
                    },
                }
            },
        }
    }
    /// No record is in progress.
    spec fn settled(&self) -> bool {
        forall|x: Seq<char>| !self.pending(x)
    }

    /// Describes the signature of the public function `func`.
    fn parse_function(&mut self, func: &SrcFn) -> (r: Result<ApiFunc, ParseError>)
        requires
            old(self).inv(),
            old(self).settled(),
            old(self).fns@.contains(*func),
        ensures
            final(self).inv(),
            final(self).grew_from(old(self)),
            match r {
                Ok(f) => {
                    &&& final(self).settled()
                    &&& f@ == func_view_of(final(self).structs(), *func)
                    &&& fn_ok(final(self).structs(), *func)
                    &&& fn_refs(final(self).structs(), *func).subset_of(final(self).names().to_set())
                },
                Err(e) => fn_fault(final(self).structs(), *func, e@) || reached_struct_fault(
                    final(self).fns@,
                    final(self).structs(),
                    e@,
                ),
            },
            walk_matches(
                final(self).names().to_set(),
                params_walk(old(self).structs(), old(self).names().to_set(), *func, 0),
                r,
            ),
    {
        let ghost start = *self;
        let ghost target = func_view_of(self.structs(), *func);
        let ghost k = choose|k: int| 0 <= k < self.fns@.len() && self.fns@[k] == *func;
        let mut inputs: Vec<ApiField> = Vec::new();
        let n = func.params.len();
        let mut i: usize = 0;
        while i < n
            invariant
                n == func.params@.len(),
                i <= n,
                self.inv(),
                self.grew_from(&start),
                self.keeps_pending(&start),
                start == *old(self),
                start.settled(),
                self.structs() == start.structs(),
                self.fns@ == start.fns@,
                0 <= k < self.fns@.len() && self.fns@[k] == *func,
                target == func_view_of(self.structs(), *func),
                params_walk(start.structs(), start.names().to_set(), *func, 0) == params_walk(
                    self.structs(),
                    self.names().to_set(),
                    *func,
                    i as int,
                ),
                inputs@.len() == i,
                forall|j: int| 0 <= j < i ==> (#[trigger] inputs@[j])@ == target.inputs[j],
                forall|j: int| 0 <= j < i ==> (#[trigger] func.params@[j]).name is Some,
                forall|j: int|
                    0 <= j < i ==> (#[trigger] type_of(self.structs(), param_type(*func, j))) is Ok,
                forall|j: int|
                    0 <= j < i ==> (#[trigger] type_refs(inputs@[j].ty@)).subset_of(self.names().to_set()),
            decreases n - i,
        {
            let sig_input = &func.params[i];
            let name = match &sig_input.name {
                Some(id) => id.clone(),
                None => {
                    let e = ParseError::UnsupportedParamPattern(func.name.clone());
                    assert(fn_fault(self.structs(), *func, e@));
                    return Err(e);
                },
            };
            let ty_str = remove_spaces(sig_input.ty.as_str());
            proof {
                assert(ty_str@ == param_type(*func, i as int));
                assert forall|m: Set<Seq<char>>|
                    #![trigger closed(self.structs(), m), rooted(self.fns@, self.structs(), m)]
                    closed(self.structs(), m) && rooted(self.fns@, self.structs(), m) implies str_refs(
                        self.structs(), ty_str@).subset_of(m) by {
                    assert(fn_refs(self.structs(), self.fns@[k]).subset_of(m));
                    assert forall|x: Seq<char>| str_refs(self.structs(), ty_str@).contains(x) implies m.contains(x) by {
                        assert(str_refs(self.structs(), param_type(*func, i as int)).contains(x));
                        assert(fn_refs(self.structs(), *func).contains(x));
                    }
                }
            }
            let ghost before = *self;
            let ty_res = self.parse_type(ty_str.as_str());
            proof {
                self.lemma_names_grow(&before);
                self.lemma_grew_trans(&before, &start);
            }
            match ty_res {
                Err(e) => {
                    return Err(e);
                },
                Ok(ty) => {
                    let ghost prev = inputs@;
                    inputs.push(ApiField { name, ty });
                    proof {
                        assert forall|j: int| 0 <= j < i + 1 implies (#[trigger] type_refs(inputs@[j].ty@)).subset_of(self.names().to_set()) by {
                            if j < i {
                                assert(prev[j] == inputs@[j]);
                            }
                        }
                        assert forall|j: int| 0 <= j < i + 1 implies (#[trigger] inputs@[j])@ == target.inputs[j] by {
                            if j < i {
                                assert(prev[j] == inputs@[j]);
                            }
                        }
                    }
                },
            }
            i = i + 1;
        }
        let out_text = match &func.output {
            Some(out) => out,
            None => {
                let e = ParseError::UnsupportedReturnShape(func.name.clone());
                assert(fn_fault(self.structs(), *func, e@));
                return Err(e);
            },
        };
        let type_string = remove_spaces(out_text.as_str());
        let inner = match self.capture_result.captures(type_string.as_str()) {
            Some(inner) => inner,
            None => {
                let e = ParseError::UnsupportedReturnShape(func.name.clone());
                assert(fn_fault(self.structs(), *func, e@));
                return Err(e);
            },
        };
        proof {
            assert(inner@ == output_arg(*func)->Some_0);
            assert forall|m: Set<Seq<char>>|
                #![trigger closed(self.structs(), m), rooted(self.fns@, self.structs(), m)]
                closed(self.structs(), m) && rooted(self.fns@, self.structs(), m) implies str_refs(
                    self.structs(), inner@).subset_of(m) by {
                assert(fn_refs(self.structs(), self.fns@[k]).subset_of(m));
                assert forall|x: Seq<char>| str_refs(self.structs(), inner@).contains(x) implies m.contains(x) by {
                    assert(fn_refs(self.structs(), *func).contains(x));
                }
            }
        }
        let ghost before = *self;
        let out_res = self.parse_type(inner.as_str());
        proof {
            self.lemma_names_grow(&before);
            self.lemma_grew_trans(&before, &start);
        }
        let output = match out_res {
            Err(e) => {
                return Err(e);
            },
            Ok(t) => t,
        };
        let r = ApiFunc { name: func.name.clone(), inputs, output };
        proof {
            assert(r@.inputs =~= target.inputs);
            assert forall|x: Seq<char>| fn_refs(self.structs(), *func).contains(x) implies self.names().to_set().contains(x) by {
                if exists|j: int| 0 <= j < func.params@.len() && #[trigger] str_refs(self.structs(), param_type(*func, j)).contains(x) {
                    let j = choose|j: int| 0 <= j < func.params@.len() && #[trigger] str_refs(self.structs(), param_type(*func, j)).contains(x);
                    assert(type_refs(r.inputs@[j].ty@).subset_of(self.names().to_set()));
                }
            }
        }
        Ok(r)
    }
    /// Describes every function of `src_fns` in order, with the records reached.
    fn parse(self, src_fns: Vec<&SrcFn>) -> (r: Result<ApiFile, ParseError>)
        requires
            self.inv(),
            self.names().len() == 0,
            self.struct_pool@.len() == 0,
            src_fns@.map_values(|f: &SrcFn| *f) == self.fns@,
        ensures
            match r {
                Ok(f) => describes(self.fns@, self.structs(), f) && resolvable(self.fns@, self.structs()),
                Err(e) => fault_in(self.fns@, self.structs(), e@),
            },
            match fns_walk(self.structs(), Set::empty(), self.fns@, 0) {
                Ok(_) => r is Ok,
                Err(e) => r is Err && (r->Err_0)@ == e,
            },
    {
        let mut parser = self;
        let ghost fns = parser.fns@;
        let ghost structs = parser.structs();
        assert(parser.names().to_set() =~= Set::<Seq<char>>::empty());
        let mut funcs: Vec<ApiFunc> = Vec::new();
        let n = src_fns.len();
        let mut k: usize = 0;
        while k < n
            invariant
                n == src_fns@.len(),
                k <= n,
                src_fns@.map_values(|f: &SrcFn| *f) == fns,
                parser.inv(),
                parser.settled(),
                parser.fns@ == fns,
                parser.structs() == structs,
                fns == self.fns@,
                structs == self.structs(),
                fns_walk(structs, Set::empty(), fns, 0) == fns_walk(
                    structs,
                    parser.names().to_set(),
                    fns,
                    k as int,
                ),
                funcs@.len() == k,
                forall|j: int| 0 <= j < k ==> (#[trigger] funcs@[j])@ == func_view_of(structs, fns[j]),
                forall|j: int| 0 <= j < k ==> fn_ok(structs, #[trigger] fns[j]),
                forall|j: int|
                    0 <= j < k ==> (#[trigger] fn_refs(structs, fns[j])).subset_of(parser.names().to_set()),
            decreases n - k,
        {
            let func = src_fns[k];
            assert(fns[k as int] == *func);
            let ghost before = parser;
            let res = parser.parse_function(func);
            proof {
                parser.lemma_names_grow(&before);
            }
            match res {
                Err(e) => {
                    proof {
                        if fn_fault(structs, *func, e@) {
                            assert(fn_fault(structs, fns[k as int], e@));
                        }
                    }
                    return Err(e);
                },
                Ok(f) => {
                    let ghost prev = funcs@;
                    funcs.push(f);
                    proof {
                        assert forall|j: int| 0 <= j < k + 1 implies (#[trigger] funcs@[j])@ == func_view_of(structs, fns[j]) by {
                            if j < k {
                                assert(prev[j] == funcs@[j]);
                            }
                        }
                    }
                },
            }
            k = k + 1;
        }
        let file = ApiFile { funcs, struct_pool: parser.struct_pool };
        proof {
            let pool = file.struct_pool@;
            let pnames = pool.map_values(|s: ApiStruct| s.name@);
            assert(pnames == parser.pool_names());
            assert forall|x: Seq<char>| parser.names().to_set().contains(x) implies pnames.to_set().contains(x) by {
                assert(!parser.pending(x));
            }
            assert forall|x: Seq<char>| pnames.to_set().contains(x) implies parser.names().to_set().contains(x) by {
                let j = choose|j: int| 0 <= j < pnames.len() && pnames[j] == x;
                assert(parser.names().contains(parser.pool_names()[j]));
            }
            assert(pnames.to_set() =~= parser.names().to_set());
            let m = pnames.to_set();
            assert forall|nm: Seq<char>, i: int|
                m.contains(nm) && find_struct(structs, nm) is Some && 0 <= i
                    < find_struct(structs, nm)->Some_0.fields@.len() implies str_refs(
                    structs,
                    field_type(find_struct(structs, nm)->Some_0, i),
                ).subset_of(m) by {
                let j = choose|j: int| 0 <= j < pnames.len() && pnames[j] == nm;
                assert(parser.pool_entry_ok(pool[j]));
                let st = find_struct(structs, nm)->Some_0;
                assert(pool[j].name@ == nm);
                assert(pool[j]@ == struct_view_of(structs, st));
                assert(pool[j]@.fields.len() == pool[j].fields@.len());
                assert(pool[j]@.fields[i] == pool[j].fields@[i]@);
                assert(type_of(structs, field_type(st, i)) is Ok);
                assert(type_refs(pool[j].fields@[i].ty@).subset_of(parser.names().to_set()));
            }
            assert(closed(structs, m));
            assert forall|nm: Seq<char>| m.contains(nm) implies reached(fns, structs, nm) by {
                let j = choose|j: int| 0 <= j < parser.names().len() && parser.names()[j] == nm;
                assert(reached(parser.fns@, parser.structs(), parser.names()[j]));
            }
            assert forall|nm: Seq<char>| #[trigger] m.contains(nm) && find_struct(structs, nm) is Some
                implies struct_ok(structs, find_struct(structs, nm)->Some_0) by {
                let j = choose|j: int| 0 <= j < pnames.len() && pnames[j] == nm;
                assert(parser.pool_entry_ok(pool[j]));
            }
            assert(rooted(fns, structs, m));
            assert(all_structs_ok(structs, m));
            assert(resolvable(fns, structs));
            assert forall|j: int| 0 <= j < pool.len() implies find_struct(structs, (#[trigger] pool[j]).name@) is Some
                && pool[j]@ == struct_view_of(structs, find_struct(structs, pool[j].name@)->Some_0) by {
                assert(parser.pool_entry_ok(pool[j]));
            }
        }
        Ok(file)
    }
}

} // verus!
