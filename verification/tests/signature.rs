use groxide::signature::{
    render_signature, render_type, SigAbi, SigArg, SigArgs, SigBound, SigConstraint,
    SigBinding, SigDyn, SigField, SigFnPointer, SigGenerics, SigHeader, SigItem, SigModifier,
    SigParam, SigParamKind, SigPath, SigPolyTrait, SigStructShape, SigTerm, SigType,
    SigVariantShape, SigWhere,
};

fn prim(n: &str) -> SigType {
    SigType::Primitive(n.to_string())
}

fn generic(n: &str) -> SigType {
    SigType::Generic(n.to_string())
}

fn path(p: &str, args: Option<SigArgs>) -> SigPath {
    SigPath { path: p.to_string(), args: args.map(Box::new) }
}

fn trait_bound(p: &str) -> SigBound {
    SigBound::TraitBound { trait_: path(p, None), generic_params: Vec::new(), modifier: SigModifier::Plain }
}

fn no_generics() -> SigGenerics {
    SigGenerics { params: Vec::new(), where_predicates: Vec::new() }
}

fn type_param(name: &str, bounds: Vec<SigBound>) -> SigParam {
    SigParam {
        name: name.to_string(),
        kind: SigParamKind::Type { bounds, default: None, is_synthetic: false },
    }
}

fn plain_header() -> SigHeader {
    SigHeader { is_const: false, is_async: false, is_unsafe: false, abi: SigAbi::Rust }
}

fn text(t: &SigType) -> String {
    render_type(t).into_iter().collect()
}

fn field(name: Option<&str>, public: bool, ty: SigType) -> SigField {
    SigField { name: name.map(|s| s.to_string()), is_public: public, type_: Some(ty) }
}

fn sig(public: bool, name: &str, item: &SigItem) -> String {
    render_signature(public, name, item).expect("renderable")
}

#[test]
fn struct_with_generic_bound() {
    let item = SigItem::Struct {
        generics: SigGenerics { params: vec![type_param("T", vec![trait_bound("Clone")])], where_predicates: Vec::new() },
        shape: SigStructShape::Plain { fields: Vec::new(), has_stripped_fields: true },
    };
    assert_eq!(sig(true, "GenericStruct", &item), "pub struct GenericStruct<T: Clone>");
}

#[test]
fn struct_with_pub_fields_and_stripped_marker() {
    let item = SigItem::Struct {
        generics: no_generics(),
        shape: SigStructShape::Plain {
            fields: vec![
                field(Some("name"), true, path_type("String")),
                field(Some("secret"), false, prim("u32")),
            ],
            has_stripped_fields: true,
        },
    };
    assert_eq!(sig(true, "S", &item), "pub struct S { pub name: String, /* private fields */ }");
}

fn path_type(p: &str) -> SigType {
    SigType::ResolvedPath(path(p, None))
}

#[test]
fn tuple_struct_and_unit_struct() {
    let item = SigItem::Struct {
        generics: no_generics(),
        shape: SigStructShape::Tuple(vec![Some(field(None, true, prim("u8"))), None]),
    };
    assert_eq!(sig(true, "Pair", &item), "pub struct Pair(pub u8, _)");
    let unit = SigItem::Struct { generics: no_generics(), shape: SigStructShape::Unit };
    assert_eq!(sig(false, "U", &unit), "struct U");
}

#[test]
fn enum_and_variants() {
    assert_eq!(sig(true, "Direction", &SigItem::Enum { generics: no_generics() }), "pub enum Direction");
    assert_eq!(sig(false, "North", &SigItem::Variant(SigVariantShape::Plain)), "North");
    let tuple = SigItem::Variant(SigVariantShape::Tuple(vec![Some(field(None, true, prim("f64")))]));
    assert_eq!(sig(false, "Circle", &tuple), "Circle(f64)");
    let strukt = SigItem::Variant(SigVariantShape::Struct(vec![
        field(Some("width"), true, prim("f64")),
        field(Some("height"), true, prim("f64")),
    ]));
    assert_eq!(sig(false, "Rectangle", &strukt), "Rectangle { width: f64, height: f64 }");
}

#[test]
fn functions_and_methods() {
    let add = SigItem::Function {
        header: plain_header(),
        generics: no_generics(),
        inputs: vec![("a".to_string(), prim("i32")), ("b".to_string(), prim("i32"))],
        is_c_variadic: false,
        output: Some(prim("i32")),
    };
    assert_eq!(sig(true, "add", &add), "pub fn add(a: i32, b: i32) -> i32");
    let push = SigItem::Function {
        header: plain_header(),
        generics: no_generics(),
        inputs: vec![
            (
                "self".to_string(),
                SigType::BorrowedRef { lifetime: None, is_mutable: true, type_: Box::new(generic("Self")) },
            ),
            ("value".to_string(), generic("T")),
        ],
        is_c_variadic: false,
        output: Some(SigType::Tuple(Vec::new())),
    };
    assert_eq!(sig(true, "push", &push), "pub fn push(&mut self, value: T)");
    let into_inner = SigItem::Function {
        header: plain_header(),
        generics: no_generics(),
        inputs: vec![("self".to_string(), generic("Self"))],
        is_c_variadic: false,
        output: Some(generic("T")),
    };
    assert_eq!(sig(true, "into_inner", &into_inner), "pub fn into_inner(self) -> T");
    let deep = SigItem::Function {
        header: SigHeader { is_const: true, is_async: false, is_unsafe: true, abi: SigAbi::C { unwind: false } },
        generics: SigGenerics {
            params: vec![
                type_param("T", Vec::new()),
                SigParam {
                    name: "impl Trait".to_string(),
                    kind: SigParamKind::Type { bounds: Vec::new(), default: None, is_synthetic: true },
                },
            ],
            where_predicates: vec![SigWhere::BoundPredicate {
                type_: generic("T"),
                bounds: vec![trait_bound("Send"), SigBound::Outlives("'static".to_string())],
                generic_params: Vec::new(),
            }],
        },
        inputs: vec![("x".to_string(), generic("T"))],
        is_c_variadic: true,
        output: Some(SigType::BorrowedRef {
            lifetime: Some("'static".to_string()),
            is_mutable: false,
            type_: Box::new(prim("str")),
        }),
    };
    assert_eq!(
        sig(false, "f", &deep),
        "const unsafe extern \"C\" fn f<T>(x: T, ...) -> &'static str where T: Send + 'static"
    );
}

#[test]
fn traits_and_aliases() {
    let item = SigItem::Trait {
        is_unsafe: false,
        is_auto: false,
        generics: no_generics(),
        bounds: vec![trait_bound("Stringify"), trait_bound("std::fmt::Debug")],
    };
    assert_eq!(sig(true, "Describable", &item), "pub trait Describable: Stringify + std::fmt::Debug");
    let result = SigItem::TypeAlias {
        generics: SigGenerics { params: vec![type_param("T", Vec::new())], where_predicates: Vec::new() },
        type_: SigType::ResolvedPath(path(
            "std::result::Result",
            Some(SigArgs::AngleBracketed {
                args: vec![SigArg::Type(generic("T")), SigArg::Type(path_type("String"))],
                constraints: Vec::new(),
            }),
        )),
    };
    assert_eq!(sig(true, "Result", &result), "pub type Result<T> = std::result::Result<T, String>");
    let callback = SigItem::TypeAlias {
        generics: no_generics(),
        type_: SigType::FunctionPointer(Box::new(SigFnPointer {
            generic_params: Vec::new(),
            header: plain_header(),
            inputs: vec![prim("i32")],
            is_c_variadic: false,
            output: Some(prim("bool")),
        })),
    };
    assert_eq!(sig(true, "Callback", &callback), "pub type Callback = fn(i32) -> bool");
}

#[test]
fn constants_statics_macros_and_more() {
    assert_eq!(sig(true, "MAX_BUFFER_SIZE", &SigItem::Constant { type_: prim("usize") }), "pub const MAX_BUFFER_SIZE: usize");
    assert_eq!(sig(true, "MAX_ITEMS", &SigItem::AssocConst { type_: prim("usize") }), "const MAX_ITEMS: usize");
    let str_ref = SigType::BorrowedRef { lifetime: None, is_mutable: false, type_: Box::new(prim("str")) };
    assert_eq!(sig(true, "VERSION", &SigItem::Static { is_mutable: false, type_: str_ref }), "pub static VERSION: &str");
    assert_eq!(sig(true, "greet", &SigItem::Macro), "macro_rules! greet");
    assert_eq!(sig(true, "containers", &SigItem::Module), "pub mod containers");
    assert_eq!(sig(true, "name", &SigItem::StructField(path_type("String"))), "pub name: String");
    let assoc = SigItem::AssocType { generics: no_generics(), bounds: Vec::new(), type_: None };
    assert_eq!(sig(false, "Input", &assoc), "type Input");
    let union = SigItem::Union {
        generics: no_generics(),
        fields: vec![field(Some("i"), true, prim("i32")), field(Some("f"), true, prim("f32"))],
    };
    assert_eq!(sig(true, "IntOrFloat", &union), "pub union IntOrFloat { pub i: i32, pub f: f32 }");
    assert!(render_signature(true, "x", &SigItem::Unrenderable).is_none());
}

#[test]
fn type_forms() {
    assert_eq!(text(&SigType::Tuple(Vec::new())), "()");
    assert_eq!(text(&SigType::Tuple(vec![prim("u8"), prim("u16")])), "(u8, u16)");
    assert_eq!(text(&SigType::Slice(Box::new(prim("u8")))), "[u8]");
    assert_eq!(text(&SigType::Array { type_: Box::new(prim("u8")), len: "4".to_string() }), "[u8; 4]");
    assert_eq!(text(&SigType::RawPointer { is_mutable: true, type_: Box::new(prim("u8")) }), "*mut u8");
    assert_eq!(text(&SigType::Infer), "_");
    assert_eq!(text(&SigType::ImplTrait(vec![trait_bound("Iterator")])), "impl Iterator");
    let dyn_t = SigType::DynTrait(SigDyn {
        traits: vec![SigPolyTrait { trait_: path("Fn", Some(SigArgs::Parenthesized { inputs: vec![prim("u8")], output: Some(prim("bool")) })), generic_params: Vec::new() }],
        lifetime: Some("'a".to_string()),
    });
    assert_eq!(text(&dyn_t), "dyn Fn(u8) -> bool + 'a");
    let qualified = SigType::QualifiedPath {
        name: "Item".to_string(),
        args: None,
        self_type: Box::new(generic("I")),
        trait_: Some(path("Iterator", None)),
    };
    assert_eq!(text(&qualified), "<I as Iterator>::Item");
    let short = SigType::QualifiedPath { name: "Output".to_string(), args: None, self_type: Box::new(generic("F")), trait_: None };
    assert_eq!(text(&short), "F::Output");
    let with_constraint = SigType::ImplTrait(vec![SigBound::TraitBound {
        trait_: path(
            "Iterator",
            Some(SigArgs::AngleBracketed {
                args: Vec::new(),
                constraints: vec![SigConstraint {
                    name: "Item".to_string(),
                    args: None,
                    binding: SigBinding::Equality(SigTerm::Type(prim("u32"))),
                }],
            }),
        ),
        generic_params: vec![SigParam { name: "'a".to_string(), kind: SigParamKind::Lifetime { outlives: Vec::new() } }],
        modifier: SigModifier::Maybe,
    }]);
    assert_eq!(text(&with_constraint), "impl for<'a> ?Iterator<Item = u32>");
}
