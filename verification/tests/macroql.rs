use vitis_be::macroql::sel::{fmt_body, Sel};
use vitis_be::macroql::typ::{decorate, ident_to_case, Style, Type};
use vitis_be::macroql::var::{fmt_vars, Var};
use vitis_be::macroql::{macroql, MQL};

fn named(name: &str) -> Type {
    Type { name: Some(name.to_string()), list: false, null: false }
}

fn var(name: &str, typ: Type) -> Var {
    Var { name: name.to_string(), typ_: typ, flds: vec![] }
}

fn leaf(name: &str) -> Sel {
    Sel::Normal { name: name.to_string(), args: vec![], typ_: named("String"), flds: vec![] }
}

fn field(name: &str, args: &[&str], flds: Vec<Sel>) -> Sel {
    Sel::Normal {
        name: name.to_string(),
        args: args.iter().map(|a| a.to_string()).collect(),
        typ_: Type::default(),
        flds,
    }
}

#[test]
fn type_is_named_in_pascal_case() {
    assert_eq!(named("Long").fmt_gq(), Some("Long!".to_string()));
    assert_eq!(named("queryFromPage").fmt_gq(), Some("QueryFromPage!".to_string()));
    assert_eq!(
        Type { name: Some("String".to_string()), list: true, null: false }.fmt_gq(),
        Some("[String]!".to_string())
    );
    assert_eq!(
        Type { name: Some("String".to_string()), list: true, null: true }.fmt_gq(),
        Some("[String]".to_string())
    );
    assert_eq!(
        Type { name: Some("Int".to_string()), list: false, null: true }.fmt_gq(),
        Some("Int".to_string())
    );
    assert_eq!(Type::default().fmt_gq(), None);
}

#[test]
fn scalars_are_no_objects() {
    for scalar in ["Int", "Long", "Float", "Boolean", "String"] {
        assert!(!named(scalar).is_object());
    }
    assert!(named("TicketUseMutationInput").is_object());
    assert!(named("string").is_object());
    assert!(Type::default().is_object());
    assert!(!leaf("x").is_object());
    assert!(field("x", &[], vec![]).is_object());
}

#[test]
fn names_are_written_in_the_case_asked_for() {
    assert_eq!(ident_to_case("ticketReady", Style::Snake), "ticket_ready");
    assert_eq!(ident_to_case("ticket_ready", Style::Pascal), "TicketReady");
    assert_eq!(ident_to_case("use_ticket", Style::Snake), "use_ticket");
}

#[test]
fn variables_are_declared_in_round_brackets() {
    assert_eq!(fmt_vars(&vec![]), Some(String::new()));
    assert_eq!(
        fmt_vars(&vec![var("seriesId", named("Long"))]),
        Some("($seriesId: Long!)".to_string())
    );
    assert_eq!(
        fmt_vars(&vec![
            var("seriesId", named("Long")),
            var("typ_", named("String")),
            var("from", named("QueryFromPage")),
        ]),
        Some("($seriesId: Long!, $type: String!, $from: QueryFromPage!)".to_string())
    );
    assert_eq!(fmt_vars(&vec![var("a", named("Long")), var("b", Type::default())]), None);
    let root = Var { name: "vars".to_string(), typ_: Type::default(), flds: vec![var("x", named("Int"))] };
    assert_eq!(root.fmt_gq(), Some("($x: Int!)".to_string()));
}

#[test]
fn selections_are_written_with_their_arguments_and_fields() {
    assert_eq!(leaf("count").fmt_gq(), Some("count".to_string()));
    assert_eq!(
        field("contentCheckFreeTicket", &["seriesId"], vec![field("list", &[], vec![leaf("count")])])
            .fmt_gq(),
        Some("contentCheckFreeTicket(seriesId: $seriesId) { list { count } }".to_string())
    );
    assert_eq!(
        field("f", &["a", "b"], vec![leaf("x"), leaf("y")]).fmt_gq(),
        Some("f(a: $a, b: $b) { x, y }".to_string())
    );
}

#[test]
fn inline_fragments_ask_for_the_type_name() {
    let data = field(
        "viewerData",
        &[],
        vec![
            Sel::Inline { typ_: named("ImageViewerData"), flds: vec![leaf("files")] },
            Sel::Inline { typ_: named("TextViewerData"), flds: vec![leaf("contentsList")] },
        ],
    );
    assert_eq!(
        data.fmt_gq(),
        Some(
            "viewerData { ... on ImageViewerData { files }, ... on TextViewerData { contentsList }, __typename }"
                .to_string()
        )
    );
    assert_eq!(Sel::Inline { typ_: Type::default(), flds: vec![] }.fmt_gq(), None);
    assert_eq!(field("f", &[], vec![Sel::Inline { typ_: Type::default(), flds: vec![] }]).fmt_gq(), None);
    assert_eq!(
        Sel::Inline { typ_: named("T"), flds: vec![] }.fmt_gq(),
        Some("... on T {  }".to_string())
    );
    assert_eq!(fmt_body(&vec![]), Some(String::new()));
    assert_eq!(fmt_body(&vec![leaf("a")]), Some(" { a }".to_string()));
}

#[test]
fn query_text_is_the_operation_the_name_the_variables_and_the_selections() {
    let mql = MQL {
        oper: "query".to_string(),
        name: "ticket_check".to_string(),
        vars: vec![var("seriesId", named("Long"))],
        sels: vec![field(
            "contentCheckFreeTicket",
            &["seriesId"],
            vec![field("list", &[], vec![leaf("count")])],
        )],
    };
    assert_eq!(
        macroql(&mql),
        Some(
            "query ticket_check($seriesId: Long!) { contentCheckFreeTicket(seriesId: $seriesId) { list { count } } }"
                .to_string()
        )
    );
    let bare = MQL { oper: "query".to_string(), name: "balance".to_string(), vars: vec![], sels: vec![] };
    assert_eq!(macroql(&bare), Some("query balance".to_string()));
    let bad = MQL {
        oper: "mutation".to_string(),
        name: "x".to_string(),
        vars: vec![var("v", Type::default())],
        sels: vec![],
    };
    assert_eq!(macroql(&bad), None);
}

#[test]
fn type_names_are_decorated() {
    assert_eq!(decorate("Long", false, false), "Long!");
    assert_eq!(decorate("Long", false, true), "Long");
    assert_eq!(decorate("Long", true, false), "[Long]!");
    assert_eq!(decorate("Long", true, true), "[Long]");
}
