//! Extraction of the GraphQL documents that a source module holds in tagged
//! templates.
//!
//! A template counts where its tag is `gql` or `Relay.QL`. Its text is put
//! together from its literal segments and from the values of the
//! expressions between them: an identifier stands for the text that the
//! module it is imported from exports under that name, a member access for
//! nothing, and any other expression makes the template one that is
//! skipped. The text is trimmed, and an anonymous fragment gets a name.
//!
//! Loading an imported module is not done here. The extractor says which
//! import it needs next, and is handed what loading it gave.

use crate::digest::is_anonymous_fragment;
use crate::digest::name_anonymous_fragment;
use crate::digest::with_fragment_name;
use crate::source_module::Dialect;
use crate::source_module::ExportedDeclarationModel;
use crate::source_module::Expression;
use crate::source_module::ExpressionModel;
use crate::source_module::ImportDeclaration;
use crate::source_module::ImportModel;
use crate::source_module::ImportSpecifier;
use crate::source_module::ImportSpecifierModel;
use crate::source_module::MemberExpression;
use crate::source_module::SourceModule;
use crate::source_module::SourceModuleModel;
use crate::source_module::TaggedTemplate;
use crate::source_module::TaggedTemplateModel;
use crate::source_module::expression_model;
use crate::text::optional_text;
use crate::text::same_text;
use crate::text::texts;
use crate::text::trim;
use crate::text::trimmed;
use vstd::prelude::*;

verus! {

/// A template that was left out, with the file it stands in and the reason.
#[derive(Clone, Debug, PartialEq, Eq)]
pub struct SkippedResult {
    pub path: String,
    pub reason: String,
}

/// The model of a `SkippedResult`.
pub struct SkippedModel {
    pub path: Seq<char>,
    pub reason: Seq<char>,
}

impl View for SkippedResult {
    type V = SkippedModel;

    open spec fn view(&self) -> SkippedModel {
        SkippedModel { path: self.path@, reason: self.reason@ }
    }
}

/// The models of a list of records, in order.
pub open spec fn skipped_models(list: Seq<SkippedResult>) -> Seq<SkippedModel> {
    list.map_values(|s: SkippedResult| s@)
}

/// What was extracted from one file: the documents, and a record of each
/// template that was left out.
#[derive(Clone, Debug, PartialEq, Eq)]
pub struct ExtractionResult {
    pub queries: Vec<String>,
    pub skipped_files: Vec<SkippedResult>,
}

/// Whether a tag marks a template as GraphQL: the identifier `gql`, or the
/// member `QL` of the identifier `Relay`.
pub open spec fn is_graphql_tag_model(tag: ExpressionModel) -> bool {
    match tag {
        ExpressionModel::Identifier(name) => name == "gql"@,
        ExpressionModel::Member { object, property } => {
            &&& *object matches ExpressionModel::Identifier(namespace)
            &&& namespace == "Relay"@
            &&& *property matches ExpressionModel::Identifier(member)
            &&& member == "QL"@
        },
        ExpressionModel::Other(_) => false,
    }
}

/// Whether the tag of `node` marks it as GraphQL.
pub fn is_graphql_tag(node: &TaggedTemplate) -> (r: bool)
    ensures
        r == is_graphql_tag_model(node@.tag),
{
    match &node.tag {
        Expression::Identifier(name) => same_text(name.as_str(), "gql"),
        Expression::Member(member) => {
            proof {
                reveal_with_fuel(expression_model, 2);
            }
            match &*member.object {
                Expression::Identifier(namespace) => {
                    if same_text(namespace.as_str(), "Relay") {
                        match &*member.property {
                            Expression::Identifier(member) => same_text(member.as_str(), "QL"),
                            _ => false,
                        }
                    } else {
                        false
                    }
                },
                _ => false,
            }
        },
        Expression::Other(_) => false,
    }
}

/// What is put behind the source of an import to get the path of its file:
/// the extension of the files of the dialect that the importing module is
/// written in.
pub open spec fn module_extension(dialect: Dialect) -> Seq<char> {
    match dialect {
        Dialect::JavaScript => ".js"@,
        Dialect::TypeScript => ".ts"@,
    }
}

/// The extension of the files of a dialect.
pub fn extension_of(dialect: Dialect) -> (r: &'static str)
    ensures
        r@ == module_extension(dialect),
{
    match dialect {
        Dialect::JavaScript => ".js",
        Dialect::TypeScript => ".ts",
    }
}

/// Whether an import declaration brings `name` in by name. What it brings
/// in as a default export or as a whole module does not count.
pub open spec fn imports_by_name(import: ImportModel, name: Seq<char>) -> bool {
    import.specifiers.contains(ImportSpecifierModel::Named(name))
}

/// The path of the file that `name` is imported from: the source of the
/// first import declaration that imports `name` by name, with the extension
/// of the dialect behind it. `None` where no declaration does.
pub open spec fn import_for_name(
    imports: Seq<ImportModel>,
    name: Seq<char>,
    dialect: Dialect,
) -> Option<Seq<char>>
    decreases imports.len(),
{
    if imports.len() == 0 {
        None
    } else if imports_by_name(imports[0], name) {
        Some(imports[0].source + module_extension(dialect))
    } else {
        import_for_name(imports.drop_first(), name, dialect)
    }
}

/// Whether `import` brings `name` in by name.
fn names_import(import: &ImportDeclaration, name: &String) -> (r: bool)
    ensures
        r == imports_by_name(import@, name@),
{
    let ghost all = import@.specifiers;
    let mut i: usize = 0;
    while i < import.specifiers.len()
        invariant
            i <= import.specifiers.len(),
            all == import@.specifiers,
            forall|j: int| 0 <= j < i ==> #[trigger] all[j] != ImportSpecifierModel::Named(name@),
        decreases import.specifiers.len() - i,
    {
        let found = match &import.specifiers[i] {
            ImportSpecifier::Named(local) => *local == *name,
            _ => false,
        };
        assert(all[i as int] == import.specifiers[i as int]@);
        if found {
            return true;
        }
        i = i + 1;
    }
    false
}

/// The path of the file that `name` is imported from in `module`.
pub fn find_import_for_name(name: &String, module: &SourceModule) -> (r: Option<String>)
    ensures
        optional_text(r) == import_for_name(module@.imports, name@, module@.dialect),
{
    let ghost imports = module@.imports;
    let ghost dialect = module@.dialect;
    let mut i: usize = 0;
    assert(imports.subrange(0, imports.len() as int) =~= imports);
    while i < module.imports.len()
        invariant
            i <= module.imports.len(),
            imports == module@.imports,
            dialect == module@.dialect,
            imports.len() == module.imports.len(),
            import_for_name(imports, name@, dialect) == import_for_name(
                imports.subrange(i as int, imports.len() as int),
                name@,
                dialect,
            ),
        decreases module.imports.len() - i,
    {
        proof {
            let rest = imports.subrange(i as int, imports.len() as int);
            assert(rest[0] == module.imports[i as int]@);
            assert(rest.drop_first() =~= imports.subrange(i + 1, imports.len() as int));
        }
        if names_import(&module.imports[i], name) {
            let mut path = module.imports[i].source.clone();
            path.append(extension_of(module.dialect));
            return Some(path);
        }
        i = i + 1;
    }
    None
}

/// Whether an exported declaration gives a text under `name`: whether the
/// first variable it declares has that name and is set to a tagged
/// template. Only the first variable of a declaration is read.
pub open spec fn exports_text(declaration: ExportedDeclarationModel, name: Seq<char>) -> bool {
    declaration.variables.len() > 0 && declaration.variables[0].name == Some(name)
        && declaration.variables[0].template_head is Some
}

/// The text that a module exports under `name`: the first literal segment
/// of the first exported declaration that gives a text under that name.
/// `None` where there is none.
pub open spec fn exported_value(exports: Seq<ExportedDeclarationModel>, name: Seq<char>) -> Option<
    Seq<char>,
>
    decreases exports.len(),
{
    if exports.len() == 0 {
        None
    } else if exports_text(exports[0], name) {
        exports[0].variables[0].template_head
    } else {
        exported_value(exports.drop_first(), name)
    }
}

/// The text that `module` exports under `name`.
pub fn find_value_from_file(name: &String, module: &SourceModule) -> (r: Option<String>)
    ensures
        optional_text(r) == exported_value(module@.exports, name@),
{
    let ghost exports = module@.exports;
    let mut i: usize = 0;
    assert(exports.subrange(0, exports.len() as int) =~= exports);
    while i < module.exports.len()
        invariant
            i <= module.exports.len(),
            exports == module@.exports,
            exports.len() == module.exports.len(),
            exported_value(exports, name@) == exported_value(
                exports.subrange(i as int, exports.len() as int),
                name@,
            ),
        decreases module.exports.len() - i,
    {
        proof {
            let rest = exports.subrange(i as int, exports.len() as int);
            assert(rest[0] == module.exports[i as int]@);
            assert(rest.drop_first() =~= exports.subrange(i + 1, exports.len() as int));
        }
        if module.exports[i].variables.len() > 0 {
            assert(module.exports[i as int]@.variables[0] == module.exports[i as int].variables[0]@);
            let named = match &module.exports[i].variables[0].name {
                Some(n) => *n == *name,
                None => false,
            };
            if named {
                match &module.exports[i].variables[0].template_head {
                    Some(head) => {
                        return Some(head.clone());
                    },
                    None => {},
                }
            }
        }
        i = i + 1;
    }
    None
}

/// What loading an imported module gave.
#[derive(Debug, PartialEq, Eq)]
pub enum Loaded {
    /// The module, parsed.
    Module(SourceModule),
    /// The file could not be reached; the text says why.
    Unreachable(String),
}

/// The model of `Loaded`.
pub enum LoadedModel {
    Module(SourceModuleModel),
    Unreachable(Seq<char>),
}

impl View for Loaded {
    type V = LoadedModel;

    open spec fn view(&self) -> LoadedModel {
        match self {
            Loaded::Module(m) => LoadedModel::Module(m@),
            Loaded::Unreachable(why) => LoadedModel::Unreachable(why@),
        }
    }
}

/// Why a template is skipped whose identifier `name` is not imported.
pub open spec fn no_import_reason(name: Seq<char>) -> Seq<char> {
    "no import found for "@ + name
}

/// Why a template is skipped that holds an expression of another shape.
pub open spec fn unsupported_reason(rendering: Seq<char>) -> Seq<char> {
    "unsupported expression "@ + rendering
}

/// Why a template is skipped when the file that `name` is imported from
/// could not be reached.
pub open spec fn unreachable_reason(name: Seq<char>, why: Seq<char>) -> Seq<char> {
    "Got error when trying to find "@ + name + ": "@ + why
}

/// Why a template is skipped when the module that `name` is imported from
/// exports no text under that name.
pub open spec fn no_value_reason(name: Seq<char>) -> Seq<char> {
    "Unable to find value from import for "@ + name
}

/// The value of the identifier `name`, given what loading its module gave:
/// the text that the module exports under that name, or the reason why there
/// is none.
pub open spec fn resolved_value(name: Seq<char>, loaded: LoadedModel) -> Result<
    Seq<char>,
    Seq<char>,
> {
    match loaded {
        LoadedModel::Unreachable(why) => Err(unreachable_reason(name, why)),
        LoadedModel::Module(module) => match exported_value(module.exports, name) {
            Some(value) => Ok(value),
            None => Err(no_value_reason(name)),
        },
    }
}

/// The text that a result holds, on either side.
pub open spec fn result_text(r: Result<String, String>) -> Result<Seq<char>, Seq<char>> {
    match r {
        Ok(v) => Ok(v@),
        Err(e) => Err(e@),
    }
}

/// The value of the identifier `name`, given what loading the module it is
/// imported from gave.
pub fn find_value_for_expr(name: &String, loaded: &Loaded) -> (r: Result<String, String>)
    ensures
        result_text(r) == resolved_value(name@, loaded@),
{
    match loaded {
        Loaded::Unreachable(why) => {
            let mut reason = "Got error when trying to find ".to_owned();
            reason.append(name.as_str());
            reason.append(": ");
            reason.append(why.as_str());
            Err(reason)
        },
        Loaded::Module(module) => match find_value_from_file(name, module) {
            Some(value) => Ok(value),
            None => {
                let mut reason = "Unable to find value from import for ".to_owned();
                reason.append(name.as_str());
                Err(reason)
            },
        },
    }
}

/// The value of a member access: always the empty text, since the values of
/// member accesses are not looked up.
pub fn find_value_for_member(expr: &MemberExpression) -> (r: Result<String, String>)
    ensures
        result_text(r) == Ok::<Seq<char>, Seq<char>>(Seq::empty()),
{
    Ok(String::new())
}

/// The import that the extractor needs next: the identifier whose value it
/// wants, and the path of the file that the identifier is imported from, as
/// the import declaration gives it, with the extension.
#[derive(Clone, Debug, PartialEq, Eq)]
pub struct ImportRequest {
    pub name: String,
    pub path: String,
}

/// The model of an `ImportRequest`.
pub struct RequestModel {
    pub name: Seq<char>,
    pub path: Seq<char>,
}

impl View for ImportRequest {
    type V = RequestModel;

    open spec fn view(&self) -> RequestModel {
        RequestModel { name: self.name@, path: self.path@ }
    }
}

/// The extractor of one module: what it has extracted and skipped so far,
/// and where in the module it stands.
#[derive(Debug, PartialEq, Eq)]
pub struct QueryExtractor {
    /// The documents extracted so far.
    pub queries: Vec<String>,
    /// The templates skipped so far.
    pub skipped_files: Vec<SkippedResult>,
    /// The module that is read.
    pub module: SourceModule,
    /// The path of the module's file, for the records.
    pub path: String,
    /// How many templates of the module are done.
    pub template: usize,
    /// How many literal segments of the template at work are taken.
    pub segment: usize,
    /// The text of the template at work, as far as it is put together.
    pub text: String,
}

/// The model of a `QueryExtractor`.
pub struct ExtractorModel {
    pub queries: Seq<Seq<char>>,
    pub skipped: Seq<SkippedModel>,
    pub module: SourceModuleModel,
    pub path: Seq<char>,
    pub template: int,
    pub segment: int,
    pub text: Seq<char>,
}

impl View for QueryExtractor {
    type V = ExtractorModel;

    open spec fn view(&self) -> ExtractorModel {
        ExtractorModel {
            queries: texts(self.queries@),
            skipped: skipped_models(self.skipped_files@),
            module: self.module@,
            path: self.path@,
            template: self.template as int,
            segment: self.segment as int,
            text: self.text@,
        }
    }
}

/// The document that the text of a template becomes: the text trimmed, with
/// a name where it is an anonymous fragment.
pub open spec fn finished_query(text: Seq<char>) -> Seq<char> {
    with_fragment_name(trimmed(text))
}

impl ExtractorModel {
    /// The extractor at the start of `module`.
    pub open spec fn start(module: SourceModuleModel, path: Seq<char>) -> ExtractorModel {
        ExtractorModel {
            queries: Seq::empty(),
            skipped: Seq::empty(),
            module,
            path,
            template: 0,
            segment: 0,
            text: Seq::empty(),
        }
    }

    /// Whether a template is at work.
    pub open spec fn at_work(self) -> bool {
        0 <= self.template < self.module.templates.len()
    }

    /// The template at work.
    pub open spec fn current(self) -> TaggedTemplateModel {
        self.module.templates[self.template]
    }

    /// The extractor at the start of the next template.
    pub open spec fn next_template(self) -> ExtractorModel {
        ExtractorModel { template: self.template + 1, segment: 0, text: Seq::empty(), ..self }
    }

    /// The extractor with `query` extracted from the template at work.
    pub open spec fn emitted(self, query: Seq<char>) -> ExtractorModel {
        ExtractorModel { queries: self.queries.push(query), ..self.next_template() }
    }

    /// The extractor with the template at work skipped for `reason`.
    pub open spec fn skipping(self, reason: Seq<char>) -> ExtractorModel {
        ExtractorModel {
            skipped: self.skipped.push(SkippedModel { path: self.path, reason }),
            ..self.next_template()
        }
    }

    /// The extractor with `piece` behind the text of the template at work,
    /// and one more segment taken.
    pub open spec fn extended(self, piece: Seq<char>) -> ExtractorModel {
        ExtractorModel { text: self.text + piece, segment: self.segment + 1, ..self }
    }

    /// How many templates are not done.
    pub open spec fn templates_left(self) -> nat {
        if self.at_work() {
            (self.module.templates.len() - self.template) as nat
        } else {
            0
        }
    }

    /// How many segments of the template at work are not taken.
    pub open spec fn segments_left(self) -> nat {
        if self.at_work() && 0 <= self.segment <= self.current().quasis.len() {
            (self.current().quasis.len() - self.segment) as nat
        } else {
            0
        }
    }
}

/// What the extractor does next.
pub enum Progress {
    /// It goes on by itself, to the state given.
    Continue(ExtractorModel),
    /// It needs the value of an imported identifier.
    Request(RequestModel),
    /// Every template is done.
    Finished,
}

/// The next step of the extractor.
///
/// A template whose tag is not GraphQL is passed over. Of a template at
/// work the next segment is taken, with what follows it: nothing behind the
/// last segment or for a member access; the value of an identifier, which
/// has to be asked for; and for any other expression, or an identifier that
/// is not imported, the end of the template as one that is skipped. When the
/// segments are used up the text becomes a document.
pub open spec fn step(m: ExtractorModel) -> Progress {
    if !m.at_work() {
        Progress::Finished
    } else {
        let t = m.current();
        if !is_graphql_tag_model(t.tag) {
            Progress::Continue(m.next_template())
        } else if m.segment < 0 || m.segment >= t.quasis.len() {
            Progress::Continue(m.emitted(finished_query(m.text)))
        } else if m.segment >= t.expressions.len() {
            Progress::Continue(m.extended(t.quasis[m.segment]))
        } else {
            match t.expressions[m.segment] {
                ExpressionModel::Identifier(name) => match import_for_name(
                    m.module.imports,
                    name,
                    m.module.dialect,
                ) {
                    None => Progress::Continue(m.skipping(no_import_reason(name))),
                    Some(path) => Progress::Request(RequestModel { name, path }),
                },
                ExpressionModel::Member { .. } => Progress::Continue(
                    m.extended(t.quasis[m.segment]),
                ),
                ExpressionModel::Other(rendering) => Progress::Continue(
                    m.skipping(unsupported_reason(rendering)),
                ),
            }
        }
    }
}

/// The extractor after every step that it takes by itself: at a request, or
/// finished.
pub open spec fn run(m: ExtractorModel) -> ExtractorModel
    decreases m.templates_left(), m.segments_left(),
{
    match step(m) {
        Progress::Continue(next) => run(next),
        _ => m,
    }
}

/// The extractor after it was handed what loading the requested import
/// gave: the value found is put behind the segment at work, or the template
/// is skipped for the reason that there is none. An extractor that has made
/// no request stays as it is.
pub open spec fn supplied(m: ExtractorModel, loaded: LoadedModel) -> ExtractorModel {
    match step(m) {
        Progress::Request(request) => match resolved_value(request.name, loaded) {
            Ok(value) => m.extended(m.current().quasis[m.segment] + value),
            Err(reason) => m.skipping(reason),
        },
        _ => m,
    }
}

/// What the extractor has extracted, in the end.
pub open spec fn extraction(m: ExtractorModel) -> (Seq<Seq<char>>, Seq<SkippedModel>) {
    (m.queries, m.skipped)
}

/// How a step of the extractor came out.
enum Stepped {
    Continued,
    Request(ImportRequest),
    Finished,
}

impl QueryExtractor {
    /// An extractor at the start of `module`, which was read from `path`.
    pub fn new(module: SourceModule, path: String) -> (r: Self)
        ensures
            r@ == ExtractorModel::start(module@, path@),
    {
        let r = QueryExtractor {
            queries: Vec::new(),
            skipped_files: Vec::new(),
            module,
            path,
            template: 0,
            segment: 0,
            text: String::new(),
        };
        assert(texts(r.queries@) =~= Seq::<Seq<char>>::empty());
        assert(skipped_models(r.skipped_files@) =~= Seq::<SkippedModel>::empty());
        r
    }

    /// Ends the template at work as one that is skipped for `reason`.
    fn skip(&mut self, reason: String)
        requires
            old(self).template < old(self).module.templates.len(),
        ensures
            final(self)@ == old(self)@.skipping(reason@),
    {
        let record = SkippedResult { path: self.path.clone(), reason };
        assert(skipped_models(self.skipped_files@.push(record)) =~= skipped_models(
            self.skipped_files@,
        ).push(record@));
        self.skipped_files.push(record);
        self.template = self.template + 1;
        self.segment = 0;
        self.text = String::new();
    }

    /// Takes the next segment of the template at work, with `value` behind
    /// it.
    fn extend(&mut self, value: &str)
        requires
            old(self).template < old(self).module.templates.len(),
            old(self).segment < old(self).module.templates[old(self).template as int].quasis.len(),
        ensures
            final(self)@ == old(self)@.extended(
                old(self)@.current().quasis[old(self).segment as int] + value@,
            ),
    {
        let ghost piece = self@.current().quasis[self.segment as int];
        assert(piece == self.module.templates[self.template as int].quasis[self.segment as int]@);
        self.text.append(self.module.templates[self.template].quasis[self.segment].as_str());
        self.text.append(value);
        assert(self.text@ =~= old(self).text@ + (piece + value@));
        self.segment = self.segment + 1;
    }

    /// Takes one step, unless the step is a request or there is none left.
    fn step_once(&mut self) -> (r: Stepped)
        ensures
            match step(old(self)@) {
                Progress::Continue(next) => r is Continued && final(self)@ == next,
                Progress::Request(request) => r matches Stepped::Request(asked) && asked@
                    == request && final(self)@ == old(self)@,
                Progress::Finished => r is Finished && final(self)@ == old(self)@,
            },
    {
        if self.template >= self.module.templates.len() {
            return Stepped::Finished;
        }
        let ghost t = self@.current();
        assert(t == self.module.templates[self.template as int]@);
        if !is_graphql_tag(&self.module.templates[self.template]) {
            self.template = self.template + 1;
            self.segment = 0;
            self.text = String::new();
            return Stepped::Continued;
        }
        if self.segment >= self.module.templates[self.template].quasis.len() {
            let query = name_anonymous_fragment(trim(self.text.as_str()));
            assert(texts(self.queries@.push(query)) =~= texts(self.queries@).push(query@));
            self.queries.push(query);
            self.template = self.template + 1;
            self.segment = 0;
            self.text = String::new();
            return Stepped::Continued;
        }
        if self.segment >= self.module.templates[self.template].expressions.len() {
            self.extend("");
            proof {
                reveal_strlit("");
                let piece = t.quasis[old(self).segment as int];
                assert(piece + ""@ =~= piece);
            }
            return Stepped::Continued;
        }
        assert(t.expressions[self.segment as int]
            == self.module.templates[self.template as int].expressions[self.segment as int]@);
        match &self.module.templates[self.template].expressions[self.segment] {
            Expression::Identifier(name) => {
                match find_import_for_name(name, &self.module) {
                    None => {
                        let mut reason = "no import found for ".to_owned();
                        reason.append(name.as_str());
                        self.skip(reason);
                        Stepped::Continued
                    },
                    Some(path) => Stepped::Request(ImportRequest { name: name.clone(), path }),
                }
            },
            Expression::Member(member) => {
                let value = match find_value_for_member(member) {
                    Ok(v) => v,
                    Err(e) => e,
                };
                self.extend(value.as_str());
                proof {
                    let piece = t.quasis[old(self).segment as int];
                    assert(piece + Seq::<char>::empty() =~= piece);
                }
                Stepped::Continued
            },
            Expression::Other(rendering) => {
                let mut reason = "unsupported expression ".to_owned();
                reason.append(rendering.as_str());
                self.skip(reason);
                Stepped::Continued
            },
        }
    }

    /// Goes on until the value of an imported identifier is needed, which is
    /// then returned as a request, or until every template is done.
    pub fn next_request(&mut self) -> (r: Option<ImportRequest>)
        ensures
            final(self)@ == run(old(self)@),
            match step(final(self)@) {
                Progress::Request(request) => r matches Some(asked) && asked@ == request,
                Progress::Finished => r is None,
                Progress::Continue(_) => false,
            },
    {
        loop
            invariant
                run(self@) == run(old(self)@),
            decreases self@.templates_left(), self@.segments_left(),
        {
            match self.step_once() {
                Stepped::Continued => {},
                Stepped::Request(asked) => {
                    return Some(asked);
                },
                Stepped::Finished => {
                    return None;
                },
            }
        }
    }

    /// Takes what loading the requested import gave. Where the module
    /// exports a text under the name asked for, the text goes into the
    /// template at work; where not, the template is skipped. An extractor
    /// that has made no request stays as it is.
    pub fn supply(&mut self, loaded: &Loaded)
        ensures
            final(self)@ == supplied(old(self)@, loaded@),
    {
        if self.template >= self.module.templates.len() {
            return ;
        }
        let ghost t = self@.current();
        assert(t == self.module.templates[self.template as int]@);
        if !is_graphql_tag(&self.module.templates[self.template]) {
            return ;
        }
        if self.segment >= self.module.templates[self.template].quasis.len() {
            return ;
        }
        if self.segment >= self.module.templates[self.template].expressions.len() {
            return ;
        }
        assert(t.expressions[self.segment as int]
            == self.module.templates[self.template as int].expressions[self.segment as int]@);
        match &self.module.templates[self.template].expressions[self.segment] {
            Expression::Identifier(name) => {
                match find_import_for_name(name, &self.module) {
                    None => {},
                    Some(_) => {
                        match find_value_for_expr(name, loaded) {
                            Ok(value) => {
                                self.extend(value.as_str());
                            },
                            Err(reason) => {
                                self.skip(reason);
                            },
                        }
                    },
                }
            },
            _ => {},
        }
    }

    /// What was extracted.
    pub fn into_result(self) -> (r: ExtractionResult)
        ensures
            texts(r.queries@) == self@.queries,
            skipped_models(r.skipped_files@) == self@.skipped,
    {
        ExtractionResult { queries: self.queries, skipped_files: self.skipped_files }
    }
}

/// A GraphQL template without expressions becomes its one literal segment,
/// trimmed, unless that is an anonymous fragment: two steps of the
/// extractor, from the start of the template, take the segment and add the
/// document to those extracted, and nothing is skipped or asked for.
pub proof fn lemma_template_without_expressions(m: ExtractorModel)
    requires
        m.at_work(),
        m.segment == 0,
        m.text == Seq::<char>::empty(),
        is_graphql_tag_model(m.current().tag),
        m.current().quasis.len() == 1,
        m.current().expressions.len() == 0,
        !is_anonymous_fragment(trimmed(m.current().quasis[0])),
    ensures
        step(m) matches Progress::Continue(taken) && step(taken) matches Progress::Continue(done)
            && done.queries == m.queries.push(trimmed(m.current().quasis[0])) && done.skipped
            == m.skipped && done.template == m.template + 1,
{
    let taken = m.extended(m.current().quasis[0]);
    assert(step(m) == Progress::Continue(taken));
    assert(taken.text =~= m.current().quasis[0]);
}

/// After `run`, the extractor does not go on by itself: it has a request to
/// make, or it is finished.
pub proof fn lemma_run_stops(m: ExtractorModel)
    ensures
        !(step(run(m)) is Continue),
        run(run(m)) == run(m),
    decreases m.templates_left(), m.segments_left(),
{
    match step(m) {
        Progress::Continue(next) => {
            lemma_run_stops(next);
        },
        _ => {},
    }
}


/// A module that holds one GraphQL template, and that template one literal
/// segment and no expression, gives one document: the segment trimmed, with
/// a name where it is an anonymous fragment. Nothing is skipped and no
/// import is asked for.
pub proof fn lemma_module_of_one_plain_template(module: SourceModuleModel, path: Seq<char>)
    requires
        module.templates.len() == 1,
        is_graphql_tag_model(module.templates[0].tag),
        module.templates[0].quasis.len() == 1,
        module.templates[0].expressions.len() == 0,
    ensures
        run(ExtractorModel::start(module, path)).queries == seq![
            finished_query(module.templates[0].quasis[0]),
        ],
        run(ExtractorModel::start(module, path)).skipped == Seq::<SkippedModel>::empty(),
        step(run(ExtractorModel::start(module, path))) is Finished,
{
    let first = ExtractorModel::start(module, path);
    let taken = first.extended(module.templates[0].quasis[0]);
    let done = taken.emitted(finished_query(taken.text));
    assert(step(first) == Progress::Continue(taken));
    assert(taken.text =~= module.templates[0].quasis[0]);
    assert(step(taken) == Progress::Continue(done));
    assert(step(done) is Finished);
    assert(run(done) == done);
    assert(run(taken) == done);
    assert(run(first) == done);
    assert(done.queries =~= seq![finished_query(module.templates[0].quasis[0])]);
}

/// A template that holds an identifier which is not imported is dropped as
/// a whole: nothing of it is extracted, and one record says that no import
/// was found for the identifier.
pub proof fn lemma_unimported_identifier_drops_the_template(m: ExtractorModel, name: Seq<char>)
    requires
        m.at_work(),
        is_graphql_tag_model(m.current().tag),
        0 <= m.segment < m.current().quasis.len(),
        m.segment < m.current().expressions.len(),
        m.current().expressions[m.segment] == ExpressionModel::Identifier(name),
        import_for_name(m.module.imports, name, m.module.dialect) is None,
    ensures
        step(m) matches Progress::Continue(next) && next.queries == m.queries && next.skipped
            == m.skipped.push(SkippedModel { path: m.path, reason: no_import_reason(name) })
            && next.template == m.template + 1 && next.segment == 0 && next.text
            == Seq::<char>::empty(),
{
}

/// An import that gives no value drops the template as a whole: nothing of
/// it is extracted, and one record gives the reason.
pub proof fn lemma_failed_import_drops_the_template(m: ExtractorModel, loaded: LoadedModel)
    requires
        step(m) matches Progress::Request(request) && resolved_value(request.name, loaded) is Err,
    ensures
        supplied(m, loaded).queries == m.queries,
        supplied(m, loaded).skipped.len() == m.skipped.len() + 1,
        supplied(m, loaded).skipped.last().path == m.path,
        supplied(m, loaded).template == m.template + 1,
        supplied(m, loaded).text == Seq::<char>::empty(),
{
}

/// How many of the first `upto` templates are GraphQL templates.
pub open spec fn graphql_templates(templates: Seq<TaggedTemplateModel>, upto: int) -> nat
    decreases upto,
{
    if upto <= 0 {
        0
    } else {
        graphql_templates(templates, upto - 1) + if upto <= templates.len() && is_graphql_tag_model(
            templates[upto - 1].tag,
        ) {
            1nat
        } else {
            0nat
        }
    }
}

impl ExtractorModel {
    /// Whether every GraphQL template that is done has given exactly one
    /// document or one record, and no other template anything.
    pub open spec fn accounted(self) -> bool {
        &&& 0 <= self.template <= self.module.templates.len()
        &&& self.queries.len() + self.skipped.len() == graphql_templates(
            self.module.templates,
            self.template,
        )
    }
}

/// At the start nothing is done and nothing is extracted or skipped.
pub proof fn lemma_start_is_accounted(module: SourceModuleModel, path: Seq<char>)
    ensures
        ExtractorModel::start(module, path).accounted(),
{
}

/// A step that the extractor takes by itself keeps the account: a GraphQL
/// template that it ends gives one document or one record, and a template
/// that it passes over gives nothing.
pub proof fn lemma_step_keeps_account(m: ExtractorModel)
    requires
        m.accounted(),
    ensures
        step(m) matches Progress::Continue(next) ==> next.accounted() && next.module == m.module,
{
}

/// Going on until a request or the end keeps the account.
pub proof fn lemma_run_keeps_account(m: ExtractorModel)
    requires
        m.accounted(),
    ensures
        run(m).accounted(),
        run(m).module == m.module,
    decreases m.templates_left(), m.segments_left(),
{
    lemma_step_keeps_account(m);
    match step(m) {
        Progress::Continue(next) => {
            lemma_run_keeps_account(next);
        },
        _ => {},
    }
}

/// Taking what loading an import gave keeps the account: the value goes
/// into the template at work, or the template ends with one record.
pub proof fn lemma_supply_keeps_account(m: ExtractorModel, loaded: LoadedModel)
    requires
        m.accounted(),
    ensures
        supplied(m, loaded).accounted(),
        supplied(m, loaded).module == m.module,
{
}

/// When the extractor is finished, each GraphQL template of the module has
/// ended in exactly one document or one record: there are as many documents
/// and records together as the module has GraphQL templates.
pub proof fn lemma_every_template_is_accounted_for(m: ExtractorModel)
    requires
        m.accounted(),
        step(m) is Finished,
    ensures
        m.queries.len() + m.skipped.len() == graphql_templates(
            m.module.templates,
            m.module.templates.len() as int,
        ),
{
}

} // verus!
