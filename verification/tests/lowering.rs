//! Tests for module lowering: shape preservation, import ordering,
//! function-table behaviour, and rejection of malformed trees.

use gor_ast::errors::AstError;
use gor_ast::errors::Field;
use gor_ast::errors::Position;
use gor_ast::module::SourceModule;
use gor_ast::names::Name;
use gor_ast::rules::ParseNode;
use gor_ast::rules::Rule;
use gor_ast::rules::Span;

fn node(rule: Rule, text: &str, start: usize, end: usize, children: Vec<ParseNode>) -> ParseNode {
    ParseNode { rule, text: text.to_owned(), span: Span { start, end }, children }
}

fn ident(text: &str) -> ParseNode {
    node(Rule::Ident, text, 0, text.len(), vec![])
}

fn package_node(name: &str) -> ParseNode {
    node(Rule::Package, "", 0, 0, vec![ident(name)])
}

fn import_node(path: &str) -> ParseNode {
    let inner = node(Rule::StrInner, path, 0, path.len(), vec![]);
    let string = node(Rule::Str, "", 0, 0, vec![inner]);
    node(Rule::Import, "", 0, 0, vec![string])
}

fn func_node(name: &str, start: usize, end: usize) -> ParseNode {
    node(Rule::Func, "", start, end, vec![ident(name)])
}

fn module_node(children: Vec<ParseNode>) -> ParseNode {
    node(Rule::Module, "", 0, 0, children)
}

#[test]
fn round_trip_package() {
    let m = module_node(vec![package_node("main"), node(Rule::Eoi, "", 0, 0, vec![])]);
    let module = SourceModule::try_from_node(&m).unwrap();
    assert_eq!(module.package.as_str(), "main");
    assert_eq!(module.package_name().as_str(), "main");
}

#[test]
fn first_package_wins() {
    let m = module_node(vec![package_node("first"), package_node("second")]);
    let module = SourceModule::try_from_node(&m).unwrap();
    assert_eq!(module.package.as_str(), "first");
}

#[test]
fn import_order_kept() {
    let m = module_node(vec![
        package_node("main"),
        import_node("fmt"),
        import_node("os"),
        import_node("fmt"),
    ]);
    let module = SourceModule::try_from_node(&m).unwrap();
    let imports: Vec<&str> = module.imports().iter().map(Name::as_str).collect();
    assert_eq!(imports, vec!["fmt", "os", "fmt"]);
}

#[test]
fn function_lookup() {
    let m = module_node(vec![package_node("main"), func_node("f", 10, 20)]);
    let module = SourceModule::try_from_node(&m).unwrap();
    let f = module.function("f").unwrap();
    assert_eq!(f.name.as_str(), "f");
    assert_eq!(f.span, Span { start: 10, end: 20 });
    assert!(module.function("g").is_none());
}

#[test]
fn function_table_last_wins() {
    let m = module_node(vec![
        package_node("main"),
        func_node("f", 1, 2),
        func_node("g", 3, 4),
        func_node("f", 5, 6),
    ]);
    let module = SourceModule::try_from_node(&m).unwrap();
    let f = module.function("f").unwrap();
    assert_eq!(f.span, Span { start: 5, end: 6 });
    let g = module.function("g").unwrap();
    assert_eq!(g.span, Span { start: 3, end: 4 });
}

#[test]
fn missing_package_rejected() {
    let m = module_node(vec![import_node("fmt")]);
    assert_eq!(SourceModule::try_from_node(&m).unwrap_err(), AstError::MissingPackage);
}

#[test]
fn empty_input_rejected() {
    let nodes: Vec<ParseNode> = vec![];
    assert_eq!(SourceModule::try_from_nodes(&nodes).unwrap_err(), AstError::EmptyInput);
}

#[test]
fn two_modules_rejected() {
    let nodes = vec![
        module_node(vec![package_node("a")]),
        module_node(vec![package_node("b")]),
    ];
    assert_eq!(SourceModule::try_from_nodes(&nodes).unwrap_err(), AstError::TrailingInput);
}

#[test]
fn single_module_accepted() {
    let nodes = vec![module_node(vec![package_node("main")])];
    let module = SourceModule::try_from_nodes(&nodes).unwrap();
    assert_eq!(module.package.as_str(), "main");
}

#[test]
fn wrong_rule_rejected() {
    let m = package_node("main");
    assert_eq!(SourceModule::try_from_node(&m).unwrap_err(), AstError::RuleMismatch { expected: Rule::Module, actual: Rule::Package });
}

#[test]
fn package_without_name_rejected() {
    let m = module_node(vec![node(Rule::Package, "", 0, 0, vec![])]);
    assert_eq!(SourceModule::try_from_node(&m).unwrap_err(), AstError::MissingField(Field::PackageName));
}

#[test]
fn import_without_string_rejected() {
    let m = module_node(vec![package_node("main"), node(Rule::Import, "", 0, 0, vec![])]);
    assert_eq!(SourceModule::try_from_node(&m).unwrap_err(), AstError::MissingField(Field::ImportString));
}

#[test]
fn import_string_without_inner_rejected() {
    let bare = node(Rule::Str, "", 0, 0, vec![]);
    let m = module_node(vec![
        package_node("main"),
        node(Rule::Import, "", 0, 0, vec![bare]),
    ]);
    assert_eq!(SourceModule::try_from_node(&m).unwrap_err(), AstError::MissingField(Field::ImportStringInner));
}

#[test]
fn function_without_name_rejected() {
    let m = module_node(vec![package_node("main"), node(Rule::Func, "", 0, 0, vec![])]);
    assert_eq!(SourceModule::try_from_node(&m).unwrap_err(), AstError::MissingField(Field::FunctionName));
}

#[test]
fn unexpected_child_rejected() {
    let m = module_node(vec![package_node("main"), ident("stray")]);
    assert_eq!(SourceModule::try_from_node(&m).unwrap_err(), AstError::UnexpectedRule { context: Position::ModuleContents, actual: Rule::Ident });
}

#[test]
fn first_offending_child_decides() {
    // The stray child comes before the import missing its string.
    let m = module_node(vec![
        ident("stray"),
        node(Rule::Import, "", 0, 0, vec![]),
    ]);
    assert_eq!(SourceModule::try_from_node(&m).unwrap_err(), AstError::UnexpectedRule { context: Position::ModuleContents, actual: Rule::Ident });
}

#[test]
fn name_equality_is_by_content() {
    let a = Name::new("alpha");
    assert!(a.eq_str("alpha"));
    assert!(!a.eq_str("beta"));
    assert!(a.eq_name(&Name::new("alpha")));
    assert!(!a.eq_name(&Name::new("beta")));
    assert_eq!(a.as_str(), "alpha");
}
