//! The declarations of a source file, as plain values: what the resolver reads of
//! each function and record declaration.

use vstd::prelude::*;

verus! {

/// One parameter of a function declaration.
pub struct SrcParam {
    /// The bound identifier, when the parameter is a plain named binding;
    /// `None` for a receiver or a destructuring pattern.
    pub name: Option<String>,
    /// The declared type, rendered as text.
    pub ty: String,
}

/// A function declaration.
pub struct SrcFn {
    pub is_pub: bool,
    pub name: String,
    pub params: Vec<SrcParam>,
    /// The declared return type rendered as text; `None` when none is declared.
    pub output: Option<String>,
}

/// How the fields of a record are declared.
#[derive(Clone, Copy, PartialEq, Eq, Structural)]
pub enum FieldLayout {
    Named,
    Unnamed,
    Unit,
}

/// One field of a record declaration.
pub struct SrcField {
    /// The field's name; `None` for a positional field.
    pub name: Option<String>,
    /// The declared type, rendered as text.
    pub ty: String,
}

/// A record (struct) declaration.
pub struct SrcStruct {
    pub is_pub: bool,
    pub name: String,
    pub layout: FieldLayout,
    pub fields: Vec<SrcField>,
}

/// A top-level declaration of a source file.
pub enum SrcItem {
    Fn(SrcFn),
    Struct(SrcStruct),
    Other,
}

/// A source file: its top-level declarations in order.
pub struct SrcFile {
    pub items: Vec<SrcItem>,
}

/// The public functions among `items`, in declaration order.
pub open spec fn pub_fns(items: Seq<SrcItem>) -> Seq<SrcFn>
    decreases items.len(),
{
    if items.len() == 0 {
        Seq::empty()
    } else {
        let rest = pub_fns(items.drop_last());
        match items.last() {
            SrcItem::Fn(f) => if f.is_pub { rest.push(f) } else { rest },
            _ => rest,
        }
    }
}

/// The public records among `items`, in declaration order.
pub open spec fn pub_structs(items: Seq<SrcItem>) -> Seq<SrcStruct>
    decreases items.len(),
{
    if items.len() == 0 {
        Seq::empty()
    } else {
        let rest = pub_structs(items.drop_last());
        match items.last() {
            SrcItem::Struct(s) => if s.is_pub { rest.push(s) } else { rest },
            _ => rest,
        }
    }
}

/// The record named `name` among `structs`; where several share the name, the
/// last one declared.
pub open spec fn find_struct(structs: Seq<SrcStruct>, name: Seq<char>) -> Option<SrcStruct>
    decreases structs.len(),
{
    if structs.len() == 0 {
        None
    } else if structs.last().name@ == name {
        Some(structs.last())
    } else {
        find_struct(structs.drop_last(), name)
    }
}

/// The names of `structs`, in order.
pub open spec fn struct_names(structs: Seq<SrcStruct>) -> Seq<Seq<char>> {
    structs.map_values(|s: SrcStruct| s.name@)
}

/// A name that `find_struct` resolves is among the names of the records.
pub proof fn lemma_find_struct_named(structs: Seq<SrcStruct>, name: Seq<char>)
    requires
        find_struct(structs, name) is Some,
    ensures
        struct_names(structs).contains(name),
        find_struct(structs, name).unwrap().name@ == name,
    decreases structs.len(),
{
    let names = struct_names(structs);
    if structs.last().name@ == name {
        assert(names[structs.len() - 1] == name);
    } else {
        lemma_find_struct_named(structs.drop_last(), name);
        let k = choose|k: int| 0 <= k < structs.len() - 1 && struct_names(structs.drop_last())[k] == name;
        assert(names[k] == name);
    }
}

/// Splits a file into its public functions, in order, and its public records, in
/// order.
pub fn extract_items_from_file(file: &SrcFile) -> (r: (Vec<&SrcFn>, Vec<&SrcStruct>))
    ensures
        r.0@.map_values(|f: &SrcFn| *f) == pub_fns(file.items@),
        r.1@.map_values(|s: &SrcStruct| *s) == pub_structs(file.items@),
{
    let mut src_fns: Vec<&SrcFn> = Vec::new();
    let mut src_structs: Vec<&SrcStruct> = Vec::new();
    let mut i: usize = 0;
    while i < file.items.len()
        invariant
            i <= file.items@.len(),
            src_fns@.map_values(|f: &SrcFn| *f) == pub_fns(file.items@.subrange(0, i as int)),
            src_structs@.map_values(|s: &SrcStruct| *s) == pub_structs(
                file.items@.subrange(0, i as int),
            ),
        decreases file.items@.len() - i,
    {
        let ghost prefix = file.items@.subrange(0, i + 1);
        assert(prefix.drop_last() == file.items@.subrange(0, i as int));
        match &file.items[i] {
            SrcItem::Fn(item_fn) => {
                if item_fn.is_pub {
                    src_fns.push(item_fn);
                    assert(src_fns@.map_values(|f: &SrcFn| *f) =~= pub_fns(prefix));
                }
            },
            SrcItem::Struct(item_struct) => {
                if item_struct.is_pub {
                    src_structs.push(item_struct);
                    assert(src_structs@.map_values(|s: &SrcStruct| *s) =~= pub_structs(prefix));
                }
            },
            SrcItem::Other => {},
        }
        i = i + 1;
    }
    assert(file.items@.subrange(0, i as int) == file.items@);
    (src_fns, src_structs)
}

/// Looks up the record named `name`; where several share the name, the last one.
pub fn lookup_struct<'a>(structs: &Vec<&'a SrcStruct>, name: &str) -> (r: Option<&'a SrcStruct>)
    ensures
        find_struct(structs@.map_values(|s: &SrcStruct| *s), name@) == match r {
            Some(s) => Some(*s),
            None => None::<SrcStruct>,
        },
{
    let ghost all = structs@.map_values(|s: &SrcStruct| *s);
    let mut i: usize = structs.len();
    assert(all.subrange(0, i as int) == all);
    while i > 0
        invariant
            i <= structs@.len(),
            all == structs@.map_values(|s: &SrcStruct| *s),
            find_struct(all, name@) == find_struct(all.subrange(0, i as int), name@),
        decreases i,
    {
        let ghost pre = all.subrange(0, i as int);
        assert(pre.drop_last() == all.subrange(0, i - 1));
        if crate::text::str_equal(structs[i - 1].name.as_str(), name) {
            return Some(structs[i - 1]);
        }
        i = i - 1;
    }
    assert(all.subrange(0, 0).len() == 0);
    None
}

} // verus!
