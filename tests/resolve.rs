use frb_codegen::capture::GenericCapture;
use frb_codegen::ir::{ApiField, ApiFile, ApiStruct, ApiType, ApiTypeDelegate, ApiTypePrimitive};
use frb_codegen::model::ParseError;
use frb_codegen::parser::parse;
use frb_codegen::text::{decimal_string, remove_spaces, str_equal};
use frb_codegen::source::{FieldLayout, SrcField, SrcFile, SrcFn, SrcItem, SrcParam, SrcStruct};

fn param(name: &str, ty: &str) -> SrcParam {
    SrcParam { name: Some(name.to_string()), ty: ty.to_string() }
}

fn func(name: &str, params: Vec<SrcParam>, output: Option<&str>) -> SrcItem {
    SrcItem::Fn(SrcFn {
        is_pub: true,
        name: name.to_string(),
        params,
        output: output.map(|o| o.to_string()),
    })
}

fn named_struct(name: &str, fields: &[(&str, &str)]) -> SrcItem {
    SrcItem::Struct(SrcStruct {
        is_pub: true,
        name: name.to_string(),
        layout: FieldLayout::Named,
        fields: fields
            .iter()
            .map(|(n, t)| SrcField { name: Some(n.to_string()), ty: t.to_string() })
            .collect(),
    })
}

fn tuple_struct(name: &str, types: &[&str]) -> SrcItem {
    SrcItem::Struct(SrcStruct {
        is_pub: true,
        name: name.to_string(),
        layout: FieldLayout::Unnamed,
        fields: types.iter().map(|t| SrcField { name: None, ty: t.to_string() }).collect(),
    })
}

fn field(name: &str, ty: ApiType) -> ApiField {
    ApiField { name: name.to_string(), ty }
}

fn sref(name: &str) -> ApiType {
    ApiType::StructRef { name: name.to_string() }
}

fn run(items: Vec<SrcItem>) -> Result<ApiFile, ParseError> {
    parse(SrcFile { items })
}

fn pool_entry<'a>(f: &'a ApiFile, name: &str) -> &'a ApiStruct {
    let found: Vec<&ApiStruct> = f.struct_pool.iter().filter(|s| s.name == name).collect();
    assert_eq!(found.len(), 1, "record {} must appear exactly once", name);
    found[0]
}

#[test]
fn scenario_add_of_two_scalars() {
    let f = run(vec![func("add", vec![param("a", "i32"), param("b", "i32")], Some("Result<i32>"))])
        .unwrap();
    assert_eq!(f.funcs.len(), 1);
    assert_eq!(f.funcs[0].name, "add");
    assert_eq!(
        f.funcs[0].inputs,
        vec![
            field("a", ApiType::Primitive(ApiTypePrimitive::I32)),
            field("b", ApiType::Primitive(ApiTypePrimitive::I32)),
        ]
    );
    assert_eq!(f.funcs[0].output, ApiType::Primitive(ApiTypePrimitive::I32));
    assert!(f.struct_pool.is_empty());
}

#[test]
fn scenario_point_record() {
    let f = run(vec![
        named_struct("Point", &[("x", "f64"), ("y", "f64")]),
        func("make", vec![], Some("Result<Point>")),
    ])
    .unwrap();
    assert_eq!(f.funcs[0].output, sref("Point"));
    assert_eq!(f.struct_pool.len(), 1);
    let p = pool_entry(&f, "Point");
    assert!(p.is_fields_named);
    assert_eq!(
        p.fields,
        vec![
            field("x", ApiType::Primitive(ApiTypePrimitive::F64)),
            field("y", ApiType::Primitive(ApiTypePrimitive::F64)),
        ]
    );
}

#[test]
fn scenario_list_of_records() {
    let f = run(vec![
        named_struct("Point", &[("x", "f64"), ("y", "f64")]),
        func("list_points", vec![], Some("Result<Vec<Point>>")),
    ])
    .unwrap();
    assert_eq!(f.funcs[0].output, ApiType::GeneralList { inner: Box::new(sref("Point")) });
    assert_eq!(f.struct_pool.len(), 1);
    pool_entry(&f, "Point");
}

#[test]
fn scenario_self_referential_node() {
    let f = run(vec![
        named_struct("Node", &[("next", "Box<Node>")]),
        func("head", vec![], Some("Result<Node>")),
    ])
    .unwrap();
    assert_eq!(f.struct_pool.len(), 1);
    let node = pool_entry(&f, "Node");
    assert_eq!(
        node.fields,
        vec![field(
            "next",
            ApiType::Boxed { inner: Box::new(sref("Node")), exist_in_real_api: true }
        )]
    );
}

#[test]
fn record_shared_by_many_appears_once() {
    let f = run(vec![
        named_struct("Point", &[("x", "f64")]),
        named_struct("Line", &[("a", "Point"), ("b", "Point")]),
        func("origin", vec![param("p", "Point")], Some("Result<Point>")),
        func("line", vec![param("l", "Line"), param("q", "Vec<Point>")], Some("Result<Line>")),
    ])
    .unwrap();
    assert_eq!(f.funcs.len(), 2);
    assert_eq!(f.struct_pool.len(), 2);
    pool_entry(&f, "Point");
    pool_entry(&f, "Line");
}

#[test]
fn mutual_cycle_of_records_terminates() {
    let f = run(vec![
        named_struct("A", &[("b", "Box<B>")]),
        named_struct("B", &[("a", "Vec<A>"), ("c", "C")]),
        named_struct("C", &[("b", "Box<B>")]),
        func("f", vec![param("a", "A")], Some("Result<u8>")),
    ])
    .unwrap();
    assert_eq!(f.struct_pool.len(), 3);
    let b = pool_entry(&f, "B");
    assert_eq!(b.fields[0], field("a", ApiType::GeneralList { inner: Box::new(sref("A")) }));
    assert_eq!(b.fields[1], field("c", sref("C")));
    pool_entry(&f, "A");
    pool_entry(&f, "C");
}

#[test]
fn unreached_record_is_left_out() {
    let f = run(vec![
        named_struct("Used", &[("x", "u8")]),
        named_struct("Unused", &[("x", "Nothing")]),
        func("f", vec![param("u", "Used")], Some("Result<bool>")),
    ])
    .unwrap();
    assert_eq!(f.struct_pool.len(), 1);
    pool_entry(&f, "Used");
}

#[test]
fn list_of_scalars_is_primitive_list() {
    let f = run(vec![func("f", vec![param("v", "Vec<u8>")], Some("Result<Vec<i64>>"))]).unwrap();
    assert_eq!(f.funcs[0].inputs[0].ty, ApiType::PrimitiveList { primitive: ApiTypePrimitive::U8 });
    assert_eq!(f.funcs[0].output, ApiType::PrimitiveList { primitive: ApiTypePrimitive::I64 });
}

#[test]
fn list_of_lists_is_general_list() {
    let f = run(vec![func("f", vec![param("v", "Vec<Vec<u8>>")], Some("Result<u8>"))]).unwrap();
    assert_eq!(
        f.funcs[0].inputs[0].ty,
        ApiType::GeneralList {
            inner: Box::new(ApiType::PrimitiveList { primitive: ApiTypePrimitive::U8 })
        }
    );
}

#[test]
fn list_of_delegate_is_general_list() {
    let f = run(vec![func("f", vec![param("v", "Vec<String>")], Some("Result<String>"))]).unwrap();
    assert_eq!(
        f.funcs[0].inputs[0].ty,
        ApiType::GeneralList { inner: Box::new(ApiType::Delegate(ApiTypeDelegate::String)) }
    );
    assert_eq!(f.funcs[0].output, ApiType::Delegate(ApiTypeDelegate::String));
}

#[test]
fn zero_copy_buffer_is_a_delegate_not_a_list() {
    let f = run(vec![func("f", vec![param("b", "ZeroCopyBuffer<Vec<u8>>")], Some("Result<bool>"))])
        .unwrap();
    assert_eq!(f.funcs[0].inputs[0].ty, ApiType::Delegate(ApiTypeDelegate::ZeroCopyBufferVecU8));
}

#[test]
fn every_scalar_name_is_recognised() {
    let names = ["u8", "i8", "u16", "i16", "u32", "i32", "u64", "i64", "f32", "f64", "bool", "()"];
    let kinds = [
        ApiTypePrimitive::U8,
        ApiTypePrimitive::I8,
        ApiTypePrimitive::U16,
        ApiTypePrimitive::I16,
        ApiTypePrimitive::U32,
        ApiTypePrimitive::I32,
        ApiTypePrimitive::U64,
        ApiTypePrimitive::I64,
        ApiTypePrimitive::F32,
        ApiTypePrimitive::F64,
        ApiTypePrimitive::Bool,
        ApiTypePrimitive::Unit,
    ];
    for (n, k) in names.iter().zip(kinds.iter()) {
        assert_eq!(ApiTypePrimitive::try_from_rust_str(n), Some(*k));
    }
    assert_eq!(ApiTypePrimitive::try_from_rust_str("usize"), None);
}

#[test]
fn spaces_in_type_text_are_ignored() {
    let f = run(vec![func("f", vec![param("v", "Vec < u8 >")], Some("Result < Vec < u8 > >"))])
        .unwrap();
    assert_eq!(f.funcs[0].inputs[0].ty, ApiType::PrimitiveList { primitive: ApiTypePrimitive::U8 });
    assert_eq!(f.funcs[0].output, ApiType::PrimitiveList { primitive: ApiTypePrimitive::U8 });
}

#[test]
fn qualified_result_path_is_accepted() {
    let f = run(vec![func("f", vec![], Some("anyhow::Result<u32>"))]).unwrap();
    assert_eq!(f.funcs[0].output, ApiType::Primitive(ApiTypePrimitive::U32));
}

#[test]
fn positional_fields_get_ordinal_names() {
    let types = ["u8"; 12];
    let f = run(vec![tuple_struct("Many", &types), func("f", vec![], Some("Result<Many>"))])
        .unwrap();
    let m = pool_entry(&f, "Many");
    assert!(!m.is_fields_named);
    let names: Vec<&str> = m.fields.iter().map(|x| x.name.as_str()).collect();
    assert_eq!(names[0], "field0");
    assert_eq!(names[1], "field1");
    assert_eq!(names[9], "field9");
    assert_eq!(names[10], "field10");
    assert_eq!(names[11], "field11");
}

#[test]
fn private_items_are_ignored() {
    let items = vec![
        SrcItem::Fn(SrcFn {
            is_pub: false,
            name: "hidden".to_string(),
            params: vec![param("x", "Nothing")],
            output: None,
        }),
        SrcItem::Struct(SrcStruct {
            is_pub: false,
            name: "Secret".to_string(),
            layout: FieldLayout::Named,
            fields: vec![],
        }),
        SrcItem::Other,
        func("shown", vec![], Some("Result<u8>")),
    ];
    let f = run(items).unwrap();
    assert_eq!(f.funcs.len(), 1);
    assert_eq!(f.funcs[0].name, "shown");
    let items = vec![
        SrcItem::Struct(SrcStruct {
            is_pub: false,
            name: "Secret".to_string(),
            layout: FieldLayout::Named,
            fields: vec![],
        }),
        func("g", vec![param("s", "Secret")], Some("Result<u8>")),
    ];
    assert_eq!(run(items), Err(ParseError::UnrecognizedType("Secret".to_string())));
}

#[test]
fn empty_file_gives_empty_description() {
    let f = run(vec![]).unwrap();
    assert!(f.funcs.is_empty());
    assert!(f.struct_pool.is_empty());
}

#[test]
fn unrecognized_parameter_type_fails() {
    let r = run(vec![func("f", vec![param("x", "Foo")], Some("Result<u8>"))]);
    assert_eq!(r, Err(ParseError::UnrecognizedType("Foo".to_string())));
}

#[test]
fn unrecognized_element_type_names_the_element() {
    let r = run(vec![func("f", vec![], Some("Result<Vec<Box<Foo>>>"))]);
    assert_eq!(r, Err(ParseError::UnrecognizedType("Foo".to_string())));
}

#[test]
fn unrecognized_field_type_fails_whole_parse() {
    let r = run(vec![
        named_struct("Point", &[("x", "f64"), ("y", "Float")]),
        func("ok", vec![], Some("Result<u8>")),
        func("make", vec![], Some("Result<Point>")),
    ]);
    assert_eq!(r, Err(ParseError::UnrecognizedType("Float".to_string())));
}

#[test]
fn two_argument_wrapper_is_unrecognized() {
    let r = run(vec![func("f", vec![param("m", "HashMap<String, u8>")], Some("Result<u8>"))]);
    assert_eq!(r, Err(ParseError::UnrecognizedType("HashMap<String,u8>".to_string())));
}

#[test]
fn box_of_list_meets_the_right_anchored_list_shape_first() {
    let r = run(vec![func("f", vec![param("b", "Box<Vec<u8>>")], Some("Result<u8>"))]);
    assert_eq!(r, Err(ParseError::UnrecognizedType("u8>".to_string())));
}

#[test]
fn list_of_boxes_is_general_list() {
    let f = run(vec![func("f", vec![param("b", "Vec<Box<u8>>")], Some("Result<u8>"))]).unwrap();
    assert_eq!(
        f.funcs[0].inputs[0].ty,
        ApiType::GeneralList {
            inner: Box::new(ApiType::Boxed {
                inner: Box::new(ApiType::Primitive(ApiTypePrimitive::U8)),
                exist_in_real_api: true
            })
        }
    );
}

#[test]
fn non_binding_parameter_fails() {
    let items = vec![func(
        "f",
        vec![SrcParam { name: None, ty: "(u8,u8)".to_string() }],
        Some("Result<u8>"),
    )];
    assert_eq!(run(items), Err(ParseError::UnsupportedParamPattern("f".to_string())));
}

#[test]
fn missing_return_type_fails() {
    let r = run(vec![func("f", vec![], None)]);
    assert_eq!(r, Err(ParseError::UnsupportedReturnShape("f".to_string())));
}

#[test]
fn non_result_return_type_fails() {
    let r = run(vec![func("f", vec![], Some("Vec<u8>"))]);
    assert_eq!(r, Err(ParseError::UnsupportedReturnShape("f".to_string())));
}

#[test]
fn unit_record_fails_with_layout_error() {
    let items = vec![
        SrcItem::Struct(SrcStruct {
            is_pub: true,
            name: "Empty".to_string(),
            layout: FieldLayout::Unit,
            fields: vec![],
        }),
        func("f", vec![param("e", "Empty")], Some("Result<u8>")),
    ];
    assert_eq!(run(items), Err(ParseError::UnsupportedFieldLayout("Empty".to_string())));
}

#[test]
fn capture_extracts_single_argument() {
    let list = GenericCapture::new("List");
    assert_eq!(list.captures("List<Tom>"), Some("Tom".to_string()));
    let vec = GenericCapture::new("Vec");
    assert_eq!(vec.captures("Vec<Vec<u8>>"), Some("Vec<u8>".to_string()));
    assert_eq!(vec.captures("Box<Vec<u8>>"), Some("u8>".to_string()));
    assert_eq!(vec.captures("MyVec<u8>"), Some("u8".to_string()));
    assert_eq!(vec.captures("Vec<u8>x"), None);
    assert_eq!(vec.captures("Vec<>"), None);
    assert_eq!(vec.captures("u8"), None);
    assert_eq!(vec.captures("Vec<a,b>"), None);
}

#[test]
fn text_helpers() {
    assert_eq!(remove_spaces(" a b  c "), "abc");
    assert_eq!(decimal_string(0), "0");
    assert_eq!(decimal_string(1207), "1207");
    assert!(str_equal("ab", "ab"));
    assert!(!str_equal("ab", "abc"));
}

#[test]
fn first_fault_in_declaration_order_is_reported() {
    let r = run(vec![
        func("first", vec![param("a", "i32"), param("b", "Foo")], Some("i32")),
        func("second", vec![SrcParam { name: None, ty: "u8".to_string() }], None),
    ]);
    assert_eq!(r, Err(ParseError::UnrecognizedType("Foo".to_string())));
}

#[test]
fn parameter_pattern_is_checked_before_later_types() {
    let r = run(vec![func(
        "f",
        vec![SrcParam { name: None, ty: "&self".to_string() }, param("b", "Foo")],
        Some("Result<Bar>"),
    )]);
    assert_eq!(r, Err(ParseError::UnsupportedParamPattern("f".to_string())));
}

#[test]
fn return_shape_is_checked_after_parameters() {
    let r = run(vec![func("f", vec![param("a", "u8")], Some("Result<i32, String>"))]);
    assert_eq!(r, Err(ParseError::UnsupportedReturnShape("f".to_string())));
}

#[test]
fn first_faulty_field_of_a_record_is_reported() {
    let r = run(vec![
        named_struct("Pair", &[("x", "u8"), ("a", "BadA"), ("b", "BadB")]),
        func("f", vec![param("p", "Pair"), param("q", "BadC")], Some("Result<u8>")),
    ]);
    assert_eq!(r, Err(ParseError::UnrecognizedType("BadA".to_string())));
}
