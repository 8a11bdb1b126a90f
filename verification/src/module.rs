//! Module lowering: from a raw parse tree to a validated module.
//!
//! A module node's children are scanned in order: the first package
//! declaration fixes the package name, imports are appended in source
//! order, and function declarations fill the function table, a later
//! function replacing an earlier one with the same name. The first
//! offending child decides the error; a module is never observable
//! without a package name.

use crate::errors::AstError;
use crate::errors::Field;
use crate::errors::Position;
use crate::names::Name;
use crate::rules::find_child;
use crate::rules::spec_find_child;
use crate::rules::ParseNode;
use crate::rules::Rule;
use crate::rules::Span;
use vstd::prelude::*;

verus! {

/// What a function declaration contributes to the module: its name and
/// its source position. The body representation is an external
/// collaborator and stays opaque to this crate.
#[derive(Debug)]
pub struct SourceFunction {
    pub name: Name,
    pub span: Span,
}

/// The mathematical content of a function entry.
pub ghost struct FunctionView {
    pub name: Seq<char>,
    pub span: Span,
}

impl View for SourceFunction {
    type V = FunctionView;

    open spec fn view(&self) -> FunctionView {
        FunctionView { name: self.name@, span: self.span }
    }
}

/// The mathematical content of a module: its package name, its imports
/// in source order, and its function table.
pub ghost struct ModuleView {
    pub package: Seq<char>,
    pub imports: Seq<Seq<char>>,
    pub functions: Map<Seq<char>, FunctionView>,
}

/// The root AST entity: package name, ordered imports, function table.
#[derive(Debug)]
pub struct SourceModule {
    pub package: Name,
    imports: Vec<Name>,
    functions: Vec<SourceFunction>,
}

/// The table a sequence of function entries stands for, a later entry
/// replacing an earlier one with the same name.
pub open spec fn spec_function_table(fs: Seq<FunctionView>) -> Map<Seq<char>, FunctionView>
    decreases fs.len(),
{
    if fs.len() == 0 {
        Map::empty()
    } else {
        spec_function_table(fs.drop_last()).insert(fs.last().name, fs.last())
    }
}

/// Entries whose name is absent from a suffix do not affect what that
/// name resolves to.
pub proof fn lemma_table_absent_suffix(fs: Seq<FunctionView>, n: Seq<char>, i: int)
    requires
        0 <= i <= fs.len(),
        forall|j: int| i <= j < fs.len() ==> fs[j].name != n,
    ensures
        spec_function_table(fs).contains_key(n) == spec_function_table(fs.take(i)).contains_key(n),
        spec_function_table(fs).contains_key(n) ==> spec_function_table(fs)[n]
            == spec_function_table(fs.take(i))[n],
    decreases fs.len() - i,
{
    if i < fs.len() {
        lemma_table_absent_suffix(fs, n, i + 1);
        assert(fs.take(i + 1).drop_last() =~= fs.take(i));
        assert(fs.take(i + 1).last() == fs[i]);
    } else {
        assert(fs.take(i) =~= fs);
    }
}

impl View for SourceModule {
    type V = ModuleView;

    closed spec fn view(&self) -> ModuleView {
        ModuleView {
            package: self.package@,
            imports: self.imports@.map_values(|nm: Name| nm@),
            functions: spec_function_table(self.functions@.map_values(|f: SourceFunction| f@)),
        }
    }
}

/// Why one child of a module node is rejected, if it is: a package
/// declaration needs its name, an import needs its string and the
/// string its inner content, a function declaration needs its name;
/// the end-of-input marker is ignored; anything else is unexpected.
pub open spec fn spec_child_error(c: ParseNode) -> Option<AstError> {
    match c.rule {
        Rule::Package => if spec_find_child(c.children@, Rule::Ident) is Some {
            None
        } else {
            Some(AstError::MissingField(Field::PackageName))
        },
        Rule::Import => match spec_find_child(c.children@, Rule::Str) {
            None => Some(AstError::MissingField(Field::ImportString)),
            Some(s) => if spec_find_child(s.children@, Rule::StrInner) is Some {
                None
            } else {
                Some(AstError::MissingField(Field::ImportStringInner))
            },
        },
        Rule::Func => if spec_find_child(c.children@, Rule::Ident) is Some {
            None
        } else {
            Some(AstError::MissingField(Field::FunctionName))
        },
        Rule::Eoi => None,
        _ => Some(AstError::UnexpectedRule { context: Position::ModuleContents, actual: c.rule }),
    }
}

/// The error of the first offending child at or after position `i`.
pub open spec fn spec_first_error_from(cs: Seq<ParseNode>, i: int) -> Option<AstError>
    decreases cs.len() - i,
{
    if i < 0 || i >= cs.len() {
        None
    } else if spec_child_error(cs[i]) is Some {
        spec_child_error(cs[i])
    } else {
        spec_first_error_from(cs, i + 1)
    }
}

/// The package name the first package declaration at or after
/// position `i` declares, if any: the first occurrence wins.
pub open spec fn spec_package_from(cs: Seq<ParseNode>, i: int) -> Option<Seq<char>>
    decreases cs.len() - i,
{
    if i < 0 || i >= cs.len() {
        None
    } else if cs[i].rule == Rule::Package && spec_find_child(cs[i].children@, Rule::Ident)
        is Some {
        Some(spec_find_child(cs[i].children@, Rule::Ident)->Some_0.text@)
    } else {
        spec_package_from(cs, i + 1)
    }
}

/// The inner content of a well-formed import declaration.
pub open spec fn spec_import_text(c: ParseNode) -> Seq<char> {
    spec_find_child(
        spec_find_child(c.children@, Rule::Str)->Some_0.children@,
        Rule::StrInner,
    )->Some_0.text@
}

/// The import paths declared at or after position `i`, in source order.
pub open spec fn spec_imports_from(cs: Seq<ParseNode>, i: int) -> Seq<Seq<char>>
    decreases cs.len() - i,
{
    if i < 0 || i >= cs.len() {
        Seq::empty()
    } else if cs[i].rule == Rule::Import && spec_child_error(cs[i]) is None {
        seq![spec_import_text(cs[i])] + spec_imports_from(cs, i + 1)
    } else {
        spec_imports_from(cs, i + 1)
    }
}

/// What a well-formed function declaration contributes to the table.
pub open spec fn spec_func_view(c: ParseNode) -> FunctionView {
    FunctionView {
        name: spec_find_child(c.children@, Rule::Ident)->Some_0.text@,
        span: c.span,
    }
}

/// The function table built from the first `i` children, a later
/// declaration replacing an earlier one with the same name.
pub open spec fn spec_table_upto(cs: Seq<ParseNode>, i: int) -> Map<Seq<char>, FunctionView>
    decreases i,
{
    if i <= 0 {
        Map::empty()
    } else if cs[i - 1].rule == Rule::Func && spec_child_error(cs[i - 1]) is None {
        spec_table_upto(cs, i - 1).insert(spec_func_view(cs[i - 1]).name, spec_func_view(cs[i - 1]))
    } else {
        spec_table_upto(cs, i - 1)
    }
}

/// The error lowering a module node reports, if any: a tag other than
/// the module rule, else the first offending child, else a missing
/// package declaration.
pub open spec fn spec_module_error(n: ParseNode) -> Option<AstError> {
    if n.rule != Rule::Module {
        Some(AstError::RuleMismatch { expected: Rule::Module, actual: n.rule })
    } else if spec_first_error_from(n.children@, 0) is Some {
        spec_first_error_from(n.children@, 0)
    } else if spec_package_from(n.children@, 0) is None {
        Some(AstError::MissingPackage)
    } else {
        None
    }
}

/// What lowering owes on success: the declared package name, the
/// imports in source order, and the function table of the children.
pub open spec fn spec_module_ok(m: SourceModule, n: ParseNode) -> bool {
    &&& spec_package_from(n.children@, 0) == Some(m@.package)
    &&& m@.imports == spec_imports_from(n.children@, 0)
    &&& m@.functions == spec_table_upto(n.children@, n.children@.len() as int)
}

/// Checks that a node carries the expected rule tag.
pub fn expect_rule(node: &ParseNode, r: Rule) -> (res: Result<(), AstError>)
    ensures
        match res {
            Ok(_) => node.rule == r,
            Err(e) => node.rule != r && e == (AstError::RuleMismatch {
                expected: r,
                actual: node.rule,
            }),
        },
{
    if node.rule == r {
        Ok(())
    } else {
        Err(AstError::RuleMismatch { expected: r, actual: node.rule })
    }
}

/// Scans the children of a module node in order and builds the module.
fn primary(node: &ParseNode) -> (res: Result<SourceModule, AstError>)
    ensures
        match res {
            Ok(m) => spec_module_error(*node) is None && spec_module_ok(m, *node),
            Err(e) => spec_module_error(*node) == Some(e),
        },
{
    if node.rule != Rule::Module {
        return Err(AstError::RuleMismatch { expected: Rule::Module, actual: node.rule });
    }
    let ghost cs = node.children@;
    let n = node.children.len();
    let mut package: Option<Name> = None;
    let mut imports: Vec<Name> = Vec::new();
    let mut functions: Vec<SourceFunction> = Vec::new();
    let mut i: usize = 0;
    while i < n
        invariant
            i <= n,
            n == cs.len(),
            node.children@ == cs,
            node.rule == Rule::Module,
            spec_first_error_from(cs, 0) == spec_first_error_from(cs, i as int),
            match package {
                Some(p) => spec_package_from(cs, 0) == Some(p@),
                None => spec_package_from(cs, 0) == spec_package_from(cs, i as int),
            },
            spec_imports_from(cs, 0) == imports@.map_values(|nm: Name| nm@) + spec_imports_from(
                cs,
                i as int,
            ),
            spec_function_table(functions@.map_values(|f: SourceFunction| f@)) == spec_table_upto(
                cs,
                i as int,
            ),
        decreases n - i,
    {
        let child = &node.children[i];
        match child.rule {
            Rule::Package => {
                match find_child(child, Rule::Ident) {
                    None => {
                        return Err(AstError::MissingField(Field::PackageName));
                    },
                    Some(id) => {
                        if package.is_none() {
                            package = Some(Name::new(id.text.as_str()));
                        }
                    },
                }
            },
            Rule::Import => {
                match find_child(child, Rule::Str) {
                    None => {
                        return Err(AstError::MissingField(Field::ImportString));
                    },
                    Some(s) => {
                        match find_child(s, Rule::StrInner) {
                            None => {
                                return Err(AstError::MissingField(Field::ImportStringInner));
                            },
                            Some(inner) => {
                                let ghost old_imports = imports@;
                                imports.push(Name::new(inner.text.as_str()));
                                proof {
                                    assert(imports@.map_values(|nm: Name| nm@) =~= old_imports
                                        .map_values(|nm: Name| nm@) + seq![inner.text@]);
                                    assert(old_imports.map_values(|nm: Name| nm@) + (seq![
                                        spec_import_text(cs[i as int]),
                                    ] + spec_imports_from(cs, i + 1)) =~= imports@.map_values(
                                        |nm: Name| nm@,
                                    ) + spec_imports_from(cs, i + 1));
                                }
                            },
                        }
                    },
                }
            },
            Rule::Func => {
                match find_child(child, Rule::Ident) {
                    None => {
                        return Err(AstError::MissingField(Field::FunctionName));
                    },
                    Some(id) => {
                        let ghost old_functions = functions@;
                        let f = SourceFunction { name: Name::new(id.text.as_str()), span: child.span };
                        let ghost gf = f@;
                        functions.push(f);
                        proof {
                            assert(functions@.map_values(|f: SourceFunction| f@) =~= old_functions
                                .map_values(|f: SourceFunction| f@).push(gf));
                            assert(functions@.map_values(|f: SourceFunction| f@).drop_last()
                                =~= old_functions.map_values(|f: SourceFunction| f@));
                            assert(gf == spec_func_view(cs[i as int]));
                        }
                    },
                }
            },
            Rule::Eoi => {},
            _ => {
                return Err(
                    AstError::UnexpectedRule { context: Position::ModuleContents, actual: child.rule },
                );
            },
        }
        i = i + 1;
    }
    match package {
        None => Err(AstError::MissingPackage),
        Some(p) => {
            proof {
                assert(imports@.map_values(|nm: Name| nm@) + spec_imports_from(cs, n as int)
                    =~= imports@.map_values(|nm: Name| nm@));
            }
            Ok(SourceModule { package: p, imports, functions })
        },
    }
}

impl SourceModule {
    /// Lowers a single parse-tree node tagged as a module.
    pub fn try_from_node(node: &ParseNode) -> (res: Result<SourceModule, AstError>)
        ensures
            match res {
                Ok(m) => spec_module_error(*node) is None && spec_module_ok(m, *node),
                Err(e) => spec_module_error(*node) == Some(e),
            },
    {
        match expect_rule(node, Rule::Module) {
            Err(e) => Err(e),
            Ok(_) => primary(node),
        }
    }

    /// Lowers a complete top-level parse result: exactly one module
    /// node, with nothing left unconsumed.
    pub fn try_from_nodes(nodes: &Vec<ParseNode>) -> (res: Result<SourceModule, AstError>)
        ensures
            match res {
                Ok(m) => nodes@.len() == 1 && spec_module_error(nodes@[0]) is None
                    && spec_module_ok(m, nodes@[0]),
                Err(e) => if nodes@.len() == 0 {
                    e == AstError::EmptyInput
                } else if nodes@.len() > 1 {
                    e == AstError::TrailingInput
                } else {
                    spec_module_error(nodes@[0]) == Some(e)
                },
            },
    {
        if nodes.len() == 0 {
            Err(AstError::EmptyInput)
        } else if nodes.len() > 1 {
            Err(AstError::TrailingInput)
        } else {
            Self::try_from_node(&nodes[0])
        }
    }

    /// Looks a function up by name in the module's function table.
    pub fn function(&self, name: &str) -> (res: Option<&SourceFunction>)
        ensures
            match res {
                Some(f) => self@.functions.contains_key(name@) && f@ == self@.functions[name@],
                None => !self@.functions.contains_key(name@),
            },
    {
        let ghost fs = self.functions@.map_values(|f: SourceFunction| f@);
        let mut i: usize = self.functions.len();
        while i > 0
            invariant
                i <= self.functions@.len(),
                fs == self.functions@.map_values(|f: SourceFunction| f@),
                forall|j: int| i <= j < fs.len() ==> fs[j].name != name@,
            decreases i,
        {
            i = i - 1;
            if self.functions[i].name.eq_str(name) {
                proof {
                    lemma_table_absent_suffix(fs, name@, i + 1);
                    assert(fs.take(i + 1).drop_last() =~= fs.take(i as int));
                    assert(fs.take(i + 1).last() == fs[i as int]);
                }
                return Some(&self.functions[i]);
            }
        }
        proof {
            lemma_table_absent_suffix(fs, name@, 0);
            assert(fs.take(0) =~= Seq::<FunctionView>::empty());
        }
        None
    }

    /// The module's package name.
    pub fn package_name(&self) -> (res: &Name)
        ensures
            res@ == self@.package,
    {
        &self.package
    }

    /// The module's imports, in source order, duplicates permitted.
    pub fn imports(&self) -> (res: &Vec<Name>)
        ensures
            res@.map_values(|nm: Name| nm@) == self@.imports,
    {
        &self.imports
    }
}

} // verus!
