//! The intermediate description produced by the resolver, and its mathematical view.

use crate::text::str_equal;
use vstd::prelude::*;

verus! {

/// A fixed scalar kind.
#[derive(Clone, Copy, Debug, PartialEq, Eq, Structural)]
pub enum ApiTypePrimitive {
    U8,
    I8,
    U16,
    I16,
    U32,
    I32,
    U64,
    I64,
    F32,
    F64,
    Bool,
    Unit,
}

/// An opaque platform type with a fixed mapping.
#[derive(Clone, Copy, Debug, PartialEq, Eq, Structural)]
pub enum ApiTypeDelegate {
    String,
    ZeroCopyBufferVecU8,
}

/// The category of one type.
#[derive(Debug, PartialEq, Eq)]
pub enum ApiType {
    Primitive(ApiTypePrimitive),
    Delegate(ApiTypeDelegate),
    PrimitiveList { primitive: ApiTypePrimitive },
    GeneralList { inner: Box<ApiType> },
    Boxed { inner: Box<ApiType>, exist_in_real_api: bool },
    StructRef { name: String },
}

/// A named, typed parameter or field.
#[derive(Debug, PartialEq, Eq)]
pub struct ApiField {
    pub name: String,
    pub ty: ApiType,
}

/// One function of the description.
#[derive(Debug, PartialEq, Eq)]
pub struct ApiFunc {
    pub name: String,
    pub inputs: Vec<ApiField>,
    pub output: ApiType,
}

/// One record of the description.
#[derive(Debug, PartialEq, Eq)]
pub struct ApiStruct {
    pub name: String,
    pub fields: Vec<ApiField>,
    pub is_fields_named: bool,
}

/// The whole description: the functions in declaration order, and each record
/// they reach, once.
#[derive(Debug, PartialEq, Eq)]
pub struct ApiFile {
    pub funcs: Vec<ApiFunc>,
    pub struct_pool: Vec<ApiStruct>,
}

/// What an `ApiType` denotes, with names as character sequences.
pub enum TypeView {
    Primitive(ApiTypePrimitive),
    Delegate(ApiTypeDelegate),
    PrimitiveList(ApiTypePrimitive),
    GeneralList(Box<TypeView>),
    Boxed(Box<TypeView>, bool),
    StructRef(Seq<char>),
}

pub struct FieldView {
    pub name: Seq<char>,
    pub ty: TypeView,
}

pub struct FuncView {
    pub name: Seq<char>,
    pub inputs: Seq<FieldView>,
    pub output: TypeView,
}

pub struct StructView {
    pub name: Seq<char>,
    pub fields: Seq<FieldView>,
    pub is_fields_named: bool,
}

pub open spec fn type_view(t: ApiType) -> TypeView
    decreases t,
{
    match t {
        ApiType::Primitive(p) => TypeView::Primitive(p),
        ApiType::Delegate(d) => TypeView::Delegate(d),
        ApiType::PrimitiveList { primitive } => TypeView::PrimitiveList(primitive),
        ApiType::GeneralList { inner } => TypeView::GeneralList(Box::new(type_view(*inner))),
        ApiType::Boxed { inner, exist_in_real_api } => TypeView::Boxed(
            Box::new(type_view(*inner)),
            exist_in_real_api,
        ),
        ApiType::StructRef { name } => TypeView::StructRef(name@),
    }
}

impl View for ApiType {
    type V = TypeView;

    open spec fn view(&self) -> TypeView {
        type_view(*self)
    }
}

impl View for ApiField {
    type V = FieldView;

    open spec fn view(&self) -> FieldView {
        FieldView { name: self.name@, ty: self.ty@ }
    }
}

impl View for ApiFunc {
    type V = FuncView;

    open spec fn view(&self) -> FuncView {
        FuncView {
            name: self.name@,
            inputs: self.inputs@.map_values(|f: ApiField| f@),
            output: self.output@,
        }
    }
}

impl View for ApiStruct {
    type V = StructView;

    open spec fn view(&self) -> StructView {
        StructView {
            name: self.name@,
            fields: self.fields@.map_values(|f: ApiField| f@),
            is_fields_named: self.is_fields_named,
        }
    }
}

/// The names of the records that a type refers to.
pub open spec fn type_refs(t: TypeView) -> Set<Seq<char>>
    decreases t,
{
    match t {
        TypeView::GeneralList(inner) => type_refs(*inner),
        TypeView::Boxed(inner, _) => type_refs(*inner),
        TypeView::StructRef(name) => set![name],
        _ => Set::empty(),
    }
}

/// The scalar kind that the type text `s` names, if any.
pub open spec fn primitive_of(s: Seq<char>) -> Option<ApiTypePrimitive> {
    if s == "u8"@ {
        Some(ApiTypePrimitive::U8)
    } else if s == "i8"@ {
        Some(ApiTypePrimitive::I8)
    } else if s == "u16"@ {
        Some(ApiTypePrimitive::U16)
    } else if s == "i16"@ {
        Some(ApiTypePrimitive::I16)
    } else if s == "u32"@ {
        Some(ApiTypePrimitive::U32)
    } else if s == "i32"@ {
        Some(ApiTypePrimitive::I32)
    } else if s == "u64"@ {
        Some(ApiTypePrimitive::U64)
    } else if s == "i64"@ {
        Some(ApiTypePrimitive::I64)
    } else if s == "f32"@ {
        Some(ApiTypePrimitive::F32)
    } else if s == "f64"@ {
        Some(ApiTypePrimitive::F64)
    } else if s == "bool"@ {
        Some(ApiTypePrimitive::Bool)
    } else if s == "()"@ {
        Some(ApiTypePrimitive::Unit)
    } else {
        None
    }
}

/// The platform type that the type text `s` names, if any.
pub open spec fn delegate_of(s: Seq<char>) -> Option<ApiTypeDelegate> {
    if s == "String"@ {
        Some(ApiTypeDelegate::String)
    } else if s == "ZeroCopyBuffer<Vec<u8>>"@ {
        Some(ApiTypeDelegate::ZeroCopyBufferVecU8)
    } else {
        None
    }
}

impl ApiTypePrimitive {
    /// The scalar kind named by the type text `s`, if any.
    pub fn try_from_rust_str(s: &str) -> (r: Option<ApiTypePrimitive>)
        ensures
            r == primitive_of(s@),
    {
        if str_equal(s, "u8") {
            Some(ApiTypePrimitive::U8)
        } else if str_equal(s, "i8") {
            Some(ApiTypePrimitive::I8)
        } else if str_equal(s, "u16") {
            Some(ApiTypePrimitive::U16)
        } else if str_equal(s, "i16") {
            Some(ApiTypePrimitive::I16)
        } else if str_equal(s, "u32") {
            Some(ApiTypePrimitive::U32)
        } else if str_equal(s, "i32") {
            Some(ApiTypePrimitive::I32)
        } else if str_equal(s, "u64") {
            Some(ApiTypePrimitive::U64)
        } else if str_equal(s, "i64") {
            Some(ApiTypePrimitive::I64)
        } else if str_equal(s, "f32") {
            Some(ApiTypePrimitive::F32)
        } else if str_equal(s, "f64") {
            Some(ApiTypePrimitive::F64)
        } else if str_equal(s, "bool") {
            Some(ApiTypePrimitive::Bool)
        } else if str_equal(s, "()") {
            Some(ApiTypePrimitive::Unit)
        } else {
            None
        }
    }
}

impl ApiTypeDelegate {
    /// The platform type named by the type text `s`, if any.
    pub fn try_from_rust_str(s: &str) -> (r: Option<ApiTypeDelegate>)
        ensures
            r == delegate_of(s@),
    {
        if str_equal(s, "String") {
            Some(ApiTypeDelegate::String)
        } else if str_equal(s, "ZeroCopyBuffer<Vec<u8>>") {
            Some(ApiTypeDelegate::ZeroCopyBufferVecU8)
        } else {
            None
        }
    }
}

} // verus!
