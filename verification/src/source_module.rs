//! Source modules of a JavaScript-family language, as far as the extraction
//! of embedded GraphQL reads them: what a module imports by name, which
//! variables it exports, and the tagged templates it holds.

use crate::text::optional_text;
use crate::text::texts;
use vstd::prelude::*;

verus! {

/// An expression, as far as its shape matters here.
#[derive(Debug, PartialEq, Eq)]
pub enum Expression {
    /// A bare identifier.
    Identifier(String),
    /// A member access.
    Member(MemberExpression),
    /// Any other expression, with a rendering of it for messages.
    Other(String),
}

/// A member access, `object.property`.
#[derive(Debug, PartialEq, Eq)]
pub struct MemberExpression {
    pub object: Box<Expression>,
    pub property: Box<Expression>,
}

/// The model of an `Expression`.
pub enum ExpressionModel {
    Identifier(Seq<char>),
    Member { object: Box<ExpressionModel>, property: Box<ExpressionModel> },
    Other(Seq<char>),
}

/// The model of an expression.
pub open spec fn expression_model(expression: Expression) -> ExpressionModel
    decreases expression,
{
    match expression {
        Expression::Identifier(name) => ExpressionModel::Identifier(name@),
        Expression::Member(member) => ExpressionModel::Member {
            object: Box::new(expression_model(*member.object)),
            property: Box::new(expression_model(*member.property)),
        },
        Expression::Other(rendering) => ExpressionModel::Other(rendering@),
    }
}

impl View for Expression {
    type V = ExpressionModel;

    open spec fn view(&self) -> ExpressionModel {
        expression_model(*self)
    }
}

/// The models of a list of expressions, in order.
pub open spec fn expression_models(list: Seq<Expression>) -> Seq<ExpressionModel> {
    list.map_values(|e: Expression| e@)
}

/// A template with a tag in front: its literal segments, as written, and
/// the expressions that stand between them. Of a template that was parsed,
/// there is one more segment than there are expressions.
#[derive(Debug, PartialEq, Eq)]
pub struct TaggedTemplate {
    pub tag: Expression,
    pub quasis: Vec<String>,
    pub expressions: Vec<Expression>,
}

/// The model of a tagged template.
pub struct TaggedTemplateModel {
    pub tag: ExpressionModel,
    pub quasis: Seq<Seq<char>>,
    pub expressions: Seq<ExpressionModel>,
}

impl View for TaggedTemplate {
    type V = TaggedTemplateModel;

    open spec fn view(&self) -> TaggedTemplateModel {
        TaggedTemplateModel {
            tag: self.tag@,
            quasis: texts(self.quasis@),
            expressions: expression_models(self.expressions@),
        }
    }
}

impl TaggedTemplateModel {
    /// Whether the segments and the expressions alternate: one more segment
    /// than expressions.
    pub open spec fn alternates(self) -> bool {
        self.quasis.len() == self.expressions.len() + 1
    }
}

impl TaggedTemplate {
    /// A template of segments and expressions that alternate; `None` where
    /// there is not one more segment than there are expressions.
    pub fn new(tag: Expression, quasis: Vec<String>, expressions: Vec<Expression>) -> (r: Option<
        TaggedTemplate,
    >)
        ensures
            r is Some <==> quasis@.len() == expressions@.len() + 1,
            r matches Some(template) ==> template@.alternates() && template@ == (
            TaggedTemplateModel {
                tag: tag@,
                quasis: texts(quasis@),
                expressions: expression_models(expressions@),
            }),
    {
        if expressions.len() < quasis.len() && quasis.len() - expressions.len() == 1 {
            Some(TaggedTemplate { tag, quasis, expressions })
        } else {
            None
        }
    }

    /// Whether the segments and the expressions of the template alternate.
    pub fn alternates(&self) -> (r: bool)
        ensures
            r == self@.alternates(),
    {
        self.expressions.len() < self.quasis.len() && self.quasis.len() - self.expressions.len()
            == 1
    }
}

/// What an import declaration brings in under a local name: something the
/// other module exports by name, its default export, or the module as a
/// whole.
#[derive(Clone, Debug, PartialEq, Eq)]
pub enum ImportSpecifier {
    Named(String),
    Default(String),
    Namespace(String),
}

/// The model of an `ImportSpecifier`.
pub enum ImportSpecifierModel {
    Named(Seq<char>),
    Default(Seq<char>),
    Namespace(Seq<char>),
}

impl View for ImportSpecifier {
    type V = ImportSpecifierModel;

    open spec fn view(&self) -> ImportSpecifierModel {
        match self {
            ImportSpecifier::Named(local) => ImportSpecifierModel::Named(local@),
            ImportSpecifier::Default(local) => ImportSpecifierModel::Default(local@),
            ImportSpecifier::Namespace(local) => ImportSpecifierModel::Namespace(local@),
        }
    }
}

/// An import declaration at the top of a module: where it imports from, and
/// what it brings in, each under its local name.
#[derive(Clone, Debug, PartialEq, Eq)]
pub struct ImportDeclaration {
    pub source: String,
    pub specifiers: Vec<ImportSpecifier>,
}

/// The model of an import declaration.
pub struct ImportModel {
    pub source: Seq<char>,
    pub specifiers: Seq<ImportSpecifierModel>,
}

impl View for ImportDeclaration {
    type V = ImportModel;

    open spec fn view(&self) -> ImportModel {
        ImportModel {
            source: self.source@,
            specifiers: self.specifiers@.map_values(|s: ImportSpecifier| s@),
        }
    }
}

/// A variable of an exported declaration: its name, where it is bound by a
/// plain identifier, and the first literal segment of its initializer, where
/// that is a tagged template.
#[derive(Clone, Debug, PartialEq, Eq)]
pub struct ExportedVariable {
    pub name: Option<String>,
    pub template_head: Option<String>,
}

/// The model of an exported variable.
pub struct ExportModel {
    pub name: Option<Seq<char>>,
    pub template_head: Option<Seq<char>>,
}

impl View for ExportedVariable {
    type V = ExportModel;

    open spec fn view(&self) -> ExportModel {
        ExportModel {
            name: optional_text(self.name),
            template_head: optional_text(self.template_head),
        }
    }
}

/// An exported variable declaration at the top of a module, with the
/// variables it declares, in order.
#[derive(Clone, Debug, PartialEq, Eq)]
pub struct ExportedDeclaration {
    pub variables: Vec<ExportedVariable>,
}

/// The model of an exported declaration.
pub struct ExportedDeclarationModel {
    pub variables: Seq<ExportModel>,
}

impl View for ExportedDeclaration {
    type V = ExportedDeclarationModel;

    open spec fn view(&self) -> ExportedDeclarationModel {
        ExportedDeclarationModel { variables: self.variables@.map_values(|v: ExportedVariable| v@) }
    }
}

/// The language that a module is written in.
#[derive(Clone, Copy, Debug, PartialEq, Eq)]
pub enum Dialect {
    JavaScript,
    TypeScript,
}

/// A parsed module: its dialect, its imports and its exported variable
/// declarations, each in the order of the module's top level, and all its
/// tagged templates, in the order in which they stand in the text.
#[derive(Debug, PartialEq, Eq)]
pub struct SourceModule {
    pub dialect: Dialect,
    pub imports: Vec<ImportDeclaration>,
    pub exports: Vec<ExportedDeclaration>,
    pub templates: Vec<TaggedTemplate>,
}

/// The model of a module.
pub struct SourceModuleModel {
    pub dialect: Dialect,
    pub imports: Seq<ImportModel>,
    pub exports: Seq<ExportedDeclarationModel>,
    pub templates: Seq<TaggedTemplateModel>,
}

impl View for SourceModule {
    type V = SourceModuleModel;

    open spec fn view(&self) -> SourceModuleModel {
        SourceModuleModel {
            dialect: self.dialect,
            imports: self.imports@.map_values(|i: ImportDeclaration| i@),
            exports: self.exports@.map_values(|e: ExportedDeclaration| e@),
            templates: self.templates@.map_values(|t: TaggedTemplate| t@),
        }
    }
}

/// The names that an expression is made of: the name of an identifier, and
/// for a member access the names of the property followed by those of the
/// object. Any other expression has none.
pub open spec fn names_in(expression: ExpressionModel) -> Seq<Seq<char>>
    decreases expression,
{
    match expression {
        ExpressionModel::Identifier(name) => seq![name],
        ExpressionModel::Member { object, property } => names_in(*property) + names_in(*object),
        ExpressionModel::Other(_) => Seq::empty(),
    }
}

/// The names that an expression is made of.
pub fn find_name_for_expr(expr: &Expression) -> (names: Vec<String>)
    ensures
        texts(names@) == names_in(expr@),
    decreases expr,
{
    match expr {
        Expression::Identifier(name) => {
            let mut names: Vec<String> = Vec::new();
            names.push(name.clone());
            assert(texts(names@) =~= seq![name@]);
            names
        },
        Expression::Member(member) => find_name_for_member(member),
        Expression::Other(_) => {
            let names: Vec<String> = Vec::new();
            assert(texts(names@) =~= Seq::<Seq<char>>::empty());
            names
        },
    }
}

/// The names that a member access is made of: those of the property, then
/// those of the object.
pub fn find_name_for_member(expr: &MemberExpression) -> (names: Vec<String>)
    ensures
        texts(names@) == names_in(expr.property@) + names_in(expr.object@),
    decreases expr,
{
    let mut parts = find_name_for_expr(&expr.property);
    let mut rest = find_name_for_expr(&expr.object);
    let ghost before = parts@;
    let ghost tail = rest@;
    parts.append(&mut rest);
    assert(texts(parts@) =~= texts(before) + texts(tail));
    parts
}

} // verus!
