use rpdl::codegen::builders::{builder_lite_plan, builder_plan, construct_plan, BuilderField, BuilderMeta, ConstructPlan};
use rpdl::codegen::doc_display::{
    build_format_string, doc_comment_text, doc_display_plan, find_field_refs, struct_display, DisplayBody,
    DisplayField, DisplayFields, DocItem, DocVariant,
};
use rpdl::codegen::extends::{expand_extends, ExtendsConfig};
use rpdl::codegen::entry::{plan_ctrlc, plan_eyre, plan_main, EntryFn, MainConfig, ReturnShape};
use rpdl::codegen::math::{rewrite_binary, BinaryOp, OverflowMode};
use rpdl::codegen::minmax::{
    first_violation, is_integer_type, plan_minmax, BoundExpr, MinMaxConfig, MinMaxMeta, MinMaxParam,
};
use rpdl::codegen::swizzle::{field_ignored, permutations_with_repetition, swizzle_methods, SwizzleAttr, SwizzleField};
use rpdl::codegen::{AttrArgs, ItemShape};

fn s(x: &str) -> String {
    x.to_string()
}

#[test]
fn selections_with_repetition() {
    let all = permutations_with_repetition(&['a', 'b'], 2);
    assert_eq!(all, vec![vec!['a', 'a'], vec!['a', 'b'], vec!['b', 'a'], vec!['b', 'b']]);
    assert_eq!(permutations_with_repetition(&[1, 2, 3], 3).len(), 27);
    assert_eq!(permutations_with_repetition(&[1, 2, 3], 0), vec![Vec::<i32>::new()]);
    assert!(permutations_with_repetition::<u8>(&[], 2).is_empty());
}

fn field(name: &str, attrs: Vec<SwizzleAttr>) -> SwizzleField {
    SwizzleField { name: s(name), attrs }
}

#[test]
fn swizzle_accessors_for_every_selection() {
    let fields = vec![field("x", vec![]), field("y", vec![SwizzleAttr::Other])];
    let ms = swizzle_methods(ItemShape::NamedStruct, &fields).unwrap();
    let got: Vec<(String, Vec<usize>)> = ms.into_iter().map(|m| (m.name, m.fields)).collect();
    assert_eq!(
        got,
        vec![
            (s("x"), vec![0]),
            (s("y"), vec![1]),
            (s("xx"), vec![0, 0]),
            (s("xy"), vec![0, 1]),
            (s("yx"), vec![1, 0]),
            (s("yy"), vec![1, 1]),
        ]
    );
}

#[test]
fn swizzle_skips_ignored_fields() {
    let fields = vec![
        field("a", vec![SwizzleAttr::Swizzle(AttrArgs::Ident(s("ignore")))]),
        field("b", vec![]),
    ];
    let ms = swizzle_methods(ItemShape::NamedStruct, &fields).unwrap();
    assert_eq!(ms.len(), 1);
    assert_eq!((ms[0].name.as_str(), ms[0].fields.clone()), ("b", vec![1]));
    let none = swizzle_methods(ItemShape::NamedStruct, &vec![field("a", vec![SwizzleAttr::Swizzle(AttrArgs::Ident(s("ignore")))])]);
    assert!(none.unwrap().is_empty());
}

#[test]
fn swizzle_accessor_count_is_a_power_sum() {
    let fields = vec![field("r", vec![]), field("g", vec![]), field("b", vec![])];
    let ms = swizzle_methods(ItemShape::NamedStruct, &fields).unwrap();
    assert_eq!(ms.len(), 3 + 9 + 27);
    assert_eq!(ms[3].name, "rr");
    assert_eq!(ms[38].name, "bbb");
    assert!(ms.iter().all(|m| m.name.len() == m.fields.len()));
}

#[test]
fn swizzle_refusals() {
    assert_eq!(
        swizzle_methods(ItemShape::TupleStruct, &vec![]).unwrap_err(),
        "#[derive(Swizzle)] requires a struct with named fields"
    );
    assert_eq!(swizzle_methods(ItemShape::Enum, &vec![]).unwrap_err(), "#[derive(Swizzle)] cannot be applied to enums");
    assert_eq!(swizzle_methods(ItemShape::Union, &vec![]).unwrap_err(), "#[derive(Swizzle)] cannot be applied to unions");
    let bad = vec![field("a", vec![]), field("b", vec![SwizzleAttr::Swizzle(AttrArgs::Ident(s("skip")))])];
    assert_eq!(
        swizzle_methods(ItemShape::NamedStruct, &bad).unwrap_err(),
        "unknown swizzle option `skip`; expected `ignore`"
    );
    assert_eq!(
        field_ignored(&vec![SwizzleAttr::Swizzle(AttrArgs::Empty)]).unwrap_err(),
        "expected `#[swizzle(ignore)]`"
    );
    assert_eq!(field_ignored(&vec![SwizzleAttr::Other]), Ok(false));
}

fn entry_fn(name: &str, has_params: bool, is_async: bool, output: ReturnShape) -> EntryFn {
    EntryFn { name: s(name), has_params, is_async, output }
}

#[test]
fn main_attribute_settings() {
    assert!(!MainConfig::parse(&AttrArgs::Empty).unwrap().is_async());
    assert!(MainConfig::parse(&AttrArgs::Ident(s("async"))).unwrap().is_async());
    assert_eq!(
        MainConfig::parse(&AttrArgs::Ident(s("sync"))).unwrap_err(),
        "expected `async` or no parameters"
    );
    assert_eq!(MainConfig::parse(&AttrArgs::Unreadable(s("expected identifier"))).unwrap_err(), "expected identifier");
}

#[test]
fn main_attribute_plan() {
    let plain = MainConfig::parse(&AttrArgs::Empty).unwrap();
    let asy = MainConfig::parse(&AttrArgs::Ident(s("async"))).unwrap();
    let p = plan_main(&plain, &entry_fn("main", false, false, ReturnShape::Default)).unwrap();
    assert_eq!(p.inner_name, "__macror_inner_main");
    assert!(p.wrap_unit && !p.on_runtime);
    let p = plan_main(&asy, &entry_fn("run", false, false, ReturnShape::Other)).unwrap();
    assert!(!p.wrap_unit && p.on_runtime);
    assert_eq!(
        plan_main(&plain, &entry_fn("main", true, false, ReturnShape::Default)).unwrap_err(),
        "main function with #[macror::main] cannot have parameters"
    );
    assert_eq!(
        plan_main(&plain, &entry_fn("main", false, true, ReturnShape::Default)).unwrap_err(),
        "function is async but `async` parameter not specified in macro"
    );
    assert!(plan_main(&asy, &entry_fn("main", false, true, ReturnShape::Default)).is_ok());
}

#[test]
fn eyre_and_ctrlc_attributes() {
    assert_eq!(plan_eyre(&entry_fn("main", false, false, ReturnShape::Default)), Ok(true));
    assert_eq!(plan_eyre(&entry_fn("main", false, false, ReturnShape::Other)), Ok(false));
    assert_eq!(
        plan_eyre(&entry_fn("start", false, false, ReturnShape::Default)),
        Err(s("the `eyre` attribute can only be applied to the main function"))
    );
    assert_eq!(plan_ctrlc(&entry_fn("bye", false, false, ReturnShape::Unit)), Ok(s("__ctrlc_wrapper_bye")));
    assert_eq!(plan_ctrlc(&entry_fn("bye", false, false, ReturnShape::Default)), Ok(s("__ctrlc_wrapper_bye")));
    assert_eq!(
        plan_ctrlc(&entry_fn("bye", true, false, ReturnShape::Unit)),
        Err(s("ctrlc handler function must not have any parameters"))
    );
    assert_eq!(
        plan_ctrlc(&entry_fn("bye", false, false, ReturnShape::Tuple)),
        Err(s("ctrlc handler function must return () or have no return type"))
    );
}

#[test]
fn math_modes_and_rewrites() {
    assert_eq!(OverflowMode::parse(&AttrArgs::Empty), Ok(OverflowMode::Checked));
    assert_eq!(OverflowMode::parse(&AttrArgs::Ident(s("wrapping"))), Ok(OverflowMode::Wrapping));
    assert_eq!(OverflowMode::parse(&AttrArgs::Ident(s("saturating"))), Ok(OverflowMode::Saturating));
    assert_eq!(
        OverflowMode::parse(&AttrArgs::Ident(s("panic"))),
        Err(s("expected `checked`, `saturating`, or `wrapping`"))
    );
    let w = rewrite_binary(OverflowMode::Checked, BinaryOp::Add, false, false).unwrap();
    assert_eq!((w.method.as_str(), w.op_symbol.as_str(), w.compound, w.checked), ("checked_add", "+", false, true));
    let w = rewrite_binary(OverflowMode::Wrapping, BinaryOp::MulAssign, false, false).unwrap();
    assert_eq!((w.method.as_str(), w.op_symbol.as_str(), w.compound, w.checked), ("wrapping_mul", "*", true, false));
    let w = rewrite_binary(OverflowMode::Saturating, BinaryOp::Sub, false, false).unwrap();
    assert_eq!(w.method, "saturating_sub");
    assert!(rewrite_binary(OverflowMode::Saturating, BinaryOp::Rem, false, false).is_none());
    assert!(rewrite_binary(OverflowMode::Checked, BinaryOp::Add, true, false).is_none());
    assert!(rewrite_binary(OverflowMode::Checked, BinaryOp::Other, false, false).is_none());
    assert_eq!(rewrite_binary(OverflowMode::Checked, BinaryOp::RemAssign, false, false).unwrap().method, "checked_rem");
}

#[test]
fn minmax_bounds() {
    let c = MinMaxConfig::parse(&vec![MinMaxMeta::Min(BoundExpr::Neg(s("5"))), MinMaxMeta::Max(BoundExpr::Int(s("10")))]).unwrap();
    assert_eq!((c.min, c.max), (Some(-5), Some(10)));
    let err = |metas: Vec<MinMaxMeta>| MinMaxConfig::parse(&metas).unwrap_err();
    assert_eq!(err(vec![]), "at least one of `min` or `max` must be specified");
    assert_eq!(
        err(vec![MinMaxMeta::Min(BoundExpr::Int(s("1"))), MinMaxMeta::Min(BoundExpr::Int(s("2")))]),
        "duplicate `min` attribute"
    );
    assert_eq!(
        err(vec![MinMaxMeta::Min(BoundExpr::Int(s("9"))), MinMaxMeta::Max(BoundExpr::Neg(s("1")))]),
        "min (9) cannot be greater than max (-1)"
    );
    assert_eq!(err(vec![MinMaxMeta::Max(BoundExpr::Other)]), "expected integer literal");
    assert_eq!(
        err(vec![MinMaxMeta::Max(BoundExpr::Int(s("999999999999999999999999999999999999999999")))]),
        "invalid integer literal"
    );
    assert_eq!(err(vec![MinMaxMeta::Other]), "expected `min = <value>` or `max = <value>`");
}

#[test]
fn minmax_checks_per_parameter() {
    let p = MinMaxParam {
        position: 1,
        name: Some(s("n")),
        declared_type: Some(s("u8")),
        metas: vec![MinMaxMeta::Min(BoundExpr::Int(s("1"))), MinMaxMeta::Max(BoundExpr::Int(s("9")))],
    };
    let checks = plan_minmax("f", &vec![p.clone()]).unwrap();
    assert_eq!(checks.len(), 1);
    assert_eq!(checks[0].check_name, "__minmax_check_f_1");
    assert_eq!(checks[0].message, "parameter `n` must be between 1 and 9");
    let at_least = MinMaxParam { metas: vec![MinMaxMeta::Min(BoundExpr::Neg(s("3")))], ..p.clone() };
    assert_eq!(plan_minmax("f", &vec![at_least]).unwrap()[0].message, "parameter `n` must be at least -3");
    let at_most = MinMaxParam { metas: vec![MinMaxMeta::Max(BoundExpr::Int(s("3")))], ..p.clone() };
    assert_eq!(plan_minmax("f", &vec![at_most]).unwrap()[0].message, "parameter `n` must be at most 3");
    let float = MinMaxParam { declared_type: Some(s("f64")), ..p.clone() };
    assert_eq!(
        plan_minmax("f", &vec![float]).unwrap_err(),
        "minmax can only be applied to integer types (i8, i16, i32, i64, i128, isize, u8, u16, u32, u64, u128, usize)"
    );
    let pattern = MinMaxParam { name: None, ..p.clone() };
    assert_eq!(plan_minmax("f", &vec![pattern]).unwrap_err(), "minmax requires a simple identifier pattern");
    assert!(plan_minmax("f", &vec![]).unwrap().is_empty());
    assert!(is_integer_type("usize") && is_integer_type("i128") && !is_integer_type("char"));
}

#[test]
fn minmax_calls_reject_out_of_range_arguments() {
    let x = MinMaxParam {
        position: 0,
        name: Some(s("x")),
        declared_type: Some(s("i32")),
        metas: vec![MinMaxMeta::Min(BoundExpr::Int(s("0"))), MinMaxMeta::Max(BoundExpr::Int(s("10")))],
    };
    let checks = plan_minmax("f", &vec![x]).unwrap();
    assert_eq!(checks[0].call, "__minmax_check_f_0(x);");
    assert_eq!(first_violation(&checks, &vec![20]), Some(s("parameter `x` must be between 0 and 10")));
    assert_eq!(first_violation(&checks, &vec![-1]), Some(s("parameter `x` must be between 0 and 10")));
    assert_eq!(first_violation(&checks, &vec![5]), None);
    assert_eq!(first_violation(&checks, &vec![0]), None);
    assert_eq!(first_violation(&checks, &vec![10]), None);
    assert_eq!(checks[0].violation(11), Some(s("parameter `x` must be between 0 and 10")));
}

#[test]
fn minmax_reports_the_first_failing_parameter() {
    let p = |pos: usize, name: &str, metas: Vec<MinMaxMeta>| MinMaxParam {
        position: pos,
        name: Some(s(name)),
        declared_type: Some(s("i64")),
        metas,
    };
    let checks = plan_minmax(
        "g",
        &vec![
            p(0, "a", vec![MinMaxMeta::Max(BoundExpr::Int(s("3")))]),
            p(1, "b", vec![MinMaxMeta::Min(BoundExpr::Neg(s("2")))]),
        ],
    )
    .unwrap();
    assert_eq!(checks[1].call, "__minmax_check_g_1(b);");
    assert_eq!(first_violation(&checks, &vec![4, -3]), Some(s("parameter `a` must be at most 3")));
    assert_eq!(first_violation(&checks, &vec![3, -3]), Some(s("parameter `b` must be at least -2")));
    assert_eq!(first_violation(&checks, &vec![3, -2]), None);
    assert_eq!(first_violation(&vec![], &vec![]), None);
}

fn bf(name: &str, metas: Vec<BuilderMeta>) -> BuilderField {
    BuilderField { name: s(name), metas }
}

#[test]
fn builder_lite_setters() {
    let fields = vec![
        bf("a", vec![]),
        bf("b", vec![BuilderMeta::Skip]),
        bf("c", vec![BuilderMeta::Rename(s("set_c"))]),
        bf("d", vec![BuilderMeta::Rename(s("_d"))]),
    ];
    let ms = builder_lite_plan(ItemShape::NamedStruct, false, &fields).unwrap();
    let got: Vec<(usize, String, String)> = ms.into_iter().map(|m| (m.field, m.name, m.doc)).collect();
    assert_eq!(
        got,
        vec![
            (0, s("with_a"), s("Set the `a` field.")),
            (2, s("set_c"), s("Set the `c` field.")),
            (3, s("_d"), s("Set the `d` field.")),
        ]
    );
    let unicode = vec![bf("e", vec![BuilderMeta::Rename(s("éclair"))])];
    assert_eq!(builder_lite_plan(ItemShape::NamedStruct, false, &unicode).unwrap()[0].name, "éclair");
}

#[test]
fn builder_lite_refusals() {
    assert_eq!(
        builder_lite_plan(ItemShape::UnitStruct, false, &vec![]).unwrap_err(),
        vec![s("BuilderLite cannot be derived for unit structs")]
    );
    assert_eq!(
        builder_lite_plan(ItemShape::NamedStruct, true, &vec![]).unwrap_err(),
        vec![s("BuilderLite does not currently support generics")]
    );
    let fields = vec![
        bf("a", vec![BuilderMeta::Skip, BuilderMeta::Skip]),
        bf("b", vec![]),
        bf("c", vec![BuilderMeta::Rename(s("9lives"))]),
        bf("d", vec![BuilderMeta::Unknown(s("default"))]),
    ];
    assert_eq!(
        builder_lite_plan(ItemShape::NamedStruct, false, &fields).unwrap_err(),
        vec![
            s("duplicate `skip` attribute"),
            s("duplicate `skip` attribute"),
            s("method name must start with a letter or underscore"),
            s("unknown builder attribute `default`. Valid attributes are: `skip`, `rename = \"...\"`"),
        ]
    );
    let empty = vec![bf("a", vec![BuilderMeta::Rename(s(""))])];
    assert_eq!(builder_lite_plan(ItemShape::NamedStruct, false, &empty).unwrap_err(), vec![s("method name cannot be empty"); 2]);
    let twice = vec![bf("a", vec![BuilderMeta::Rename(s("x")), BuilderMeta::RenameMalformed(s("expected `=`"))])];
    assert_eq!(builder_lite_plan(ItemShape::NamedStruct, false, &twice).unwrap_err()[0], "duplicate `rename` attribute");
}

#[test]
fn full_builder_plan() {
    let p = builder_plan("Config", ItemShape::NamedStruct, false, &vec![s("host"), s("port")]).unwrap();
    assert_eq!(p.builder_name, "ConfigBuilder");
    assert_eq!(p.setters.len(), 2);
    assert_eq!(p.setters[1].name, "port");
    assert_eq!(p.setters[1].doc, "Set the `port` field.");
    assert_eq!(p.setters[1].missing, "field `port` is required but was not set");
    assert_eq!(
        builder_plan("E", ItemShape::Enum, false, &vec![]).unwrap_err(),
        "Builder cannot be derived for enums"
    );
    assert_eq!(
        builder_plan("G", ItemShape::NamedStruct, true, &vec![]).unwrap_err(),
        "Builder does not currently support generics"
    );
    assert_eq!(
        construct_plan(ItemShape::NamedStruct, &vec![s("host"), s("port")]),
        Ok(ConstructPlan::FromFields(vec![s("host"), s("port")]))
    );
    assert_eq!(
        construct_plan(ItemShape::TupleStruct, &vec![]),
        Err(s("AutoConstruct only supports structs with named fields"))
    );
    assert_eq!(construct_plan(ItemShape::Union, &vec![]), Err(s("AutoConstruct cannot be derived for unions")));
}

#[test]
fn construct_builds_unit_structs() {
    assert_eq!(construct_plan(ItemShape::UnitStruct, &vec![]), Ok(ConstructPlan::UnitValue));
    assert_eq!(construct_plan(ItemShape::Enum, &vec![]), Err(s("AutoConstruct cannot be derived for enums")));
    assert_eq!(
        builder_plan("U", ItemShape::UnitStruct, false, &vec![]).unwrap_err(),
        "Builder cannot be derived for unit structs"
    );
}

#[test]
fn doc_text_joins_lines() {
    assert_eq!(doc_comment_text(&vec![s(" Hello"), s("  world"), s("x")]), "Hello\n world\nx");
    assert_eq!(doc_comment_text(&vec![s(" "), s(" a")]), "a");
    assert_eq!(doc_comment_text(&vec![]), "");
}

#[test]
fn field_references_in_doc_text() {
    assert_eq!(find_field_refs("Point at {x}, {y} and {x}"), vec![s("x"), s("y"), s("x")]);
    assert!(find_field_refs("no refs {} { x } here").is_empty());
    assert_eq!(build_format_string("Point at {x}, {y}"), "Point at {}, {}");
    assert_eq!(build_format_string("plain"), "plain");
}

#[test]
fn struct_display_bodies() {
    let fields = DisplayFields::Named(vec![
        DisplayField { name: s("x"), optional_type: None },
        DisplayField { name: s("y"), optional_type: None },
    ]);
    assert_eq!(
        struct_display("({x}, {y})", vec![s("x"), s("y")], s("({}, {})"), &fields),
        Ok(DisplayBody::Interpolated(s("({}, {})"), vec![s("x"), s("y")]))
    );
    assert_eq!(struct_display("point", vec![], s("point"), &fields), Ok(DisplayBody::Literal(s("point"))));
    assert_eq!(
        struct_display("{z}", vec![s("z")], s("{}"), &fields),
        Err(s("Field `z` referenced in doc comment doesn't exist"))
    );
    let opt = DisplayFields::Named(vec![DisplayField { name: s("o"), optional_type: Some(s("Option<u8>")) }]);
    assert_eq!(struct_display("x", vec![], s("x"), &opt), Err(s("DocDisplay doesn't support `Option<u8>`s yet")));
    assert_eq!(
        struct_display("x", vec![], s("x"), &DisplayFields::Unnamed),
        Err(s("DocDisplay doesn't support tuple structs with field interpolation"))
    );
    assert_eq!(struct_display("u", vec![], s("u"), &DisplayFields::Unit), Ok(DisplayBody::Literal(s("u"))));
}

#[test]
fn doc_display_items() {
    let point = DocItem::Struct(DisplayFields::Named(vec![DisplayField { name: s("x"), optional_type: None }]));
    assert_eq!(
        doc_display_plan("P", &vec![s(" At {x}")], &point),
        Ok(DisplayBody::Interpolated(s("At {}"), vec![s("x")]))
    );
    assert_eq!(
        doc_display_plan("P", &vec![], &point),
        Err(s("DocDisplay requires doc comments on the main type for structs"))
    );
    assert_eq!(doc_display_plan("U", &vec![s(" u")], &DocItem::Union), Err(s("DocDisplay cannot be derived for unions")));
    let colors = DocItem::Enum(vec![
        DocVariant { name: s("Red"), docs: vec![s(" The red one")] },
        DocVariant { name: s("Blue"), docs: vec![] },
    ]);
    assert_eq!(
        doc_display_plan("Color", &vec![s(" A color")], &colors),
        Ok(DisplayBody::ByVariant(vec![(s("Red"), s("The red one")), (s("Blue"), s("Color::Blue"))]))
    );
    let bare = DocItem::Enum(vec![DocVariant { name: s("A"), docs: vec![] }]);
    assert_eq!(doc_display_plan("E", &vec![s(" An enum")], &bare), Ok(DisplayBody::Literal(s("An enum"))));
}

#[test]
fn extends_moves_the_function_into_an_impl() {
    let config = ExtendsConfig::parse(&AttrArgs::Ident(s("Point"))).unwrap();
    assert_eq!(config.target, "Point");
    assert_eq!(
        expand_extends(&config, "pub fn norm(&self) -> f64 { self.x.hypot(self.y) }"),
        "impl Point {\npub fn norm(&self) -> f64 { self.x.hypot(self.y) }\n}"
    );
    assert_eq!(
        ExtendsConfig::parse(&AttrArgs::Empty).unwrap_err(),
        "unexpected end of input, expected identifier"
    );
    assert_eq!(ExtendsConfig::parse(&AttrArgs::Unreadable(s("expected identifier"))).unwrap_err(), "expected identifier");
}
