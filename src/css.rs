use vstd::prelude::*;
use crate::error::{CompilationError, HookResult};
use vstd::string::StringExecFns;
use swc_common::{FileName, SourceMap, DUMMY_SP};
use swc_css_ast::{Rule, Stylesheet};
use swc_css_codegen::writer::basic::{BasicCssWriter, BasicCssWriterConfig};
use swc_css_codegen::{CodeGenerator, CodegenConfig, Emit};
use swc_css_parser::parser::ParserConfig;

verus! {

#[verifier::external_type_specification]
#[verifier::external_body]
pub struct ExRule(swc_css_ast::Rule);

/// Relies on the derived `Clone` of swc's rule tree: the copy is the same tree.
pub assume_specification[ <swc_css_ast::Rule as Clone>::clone ](r: &swc_css_ast::Rule) -> (c:
    swc_css_ast::Rule)
    ensures
        c == *r,
;

/// Whether the text parses as a stylesheet.
pub uninterp spec fn css_parses(text: Seq<char>) -> bool;

/// The top-level rules of the stylesheet that the text parses to.
pub uninterp spec fn css_rules(text: Seq<char>) -> Seq<Rule>;

/// The message of the error that parsing the text stops on.
pub uninterp spec fn css_error_message(text: Seq<char>) -> Seq<char>;

/// Whether swc's code generator can write the rule: every simple block in it
/// opens with `[`, `(` or `{`, as every block that the parser builds does.
pub uninterp spec fn css_emittable(rule: Rule) -> bool;

/// Whether every rule can be written out.
pub open spec fn all_emittable(rules: Seq<Rule>) -> bool {
    forall|i: int| 0 <= i < rules.len() ==> css_emittable(#[trigger] rules[i])
}

/// The text that swc's code generator writes for a stylesheet of these rules.
pub uninterp spec fn css_code(rules: Seq<Rule>) -> Seq<u8>;

/// Relies on swc_css_parser::parse_file: it reads a fresh source file holding
/// the text and yields a stylesheet or a fatal error, by the text alone. The
/// parser builds a simple block only after an opening `[`, `(` or `{`.
#[verifier::external_body]
fn parse_stylesheet(text: &str) -> (r: Result<Vec<Rule>, String>)
    ensures
        r is Ok <==> css_parses(text@),
        r matches Ok(rules) ==> rules@ == css_rules(text@),
        r matches Ok(rules) ==> forall|i: int| 0 <= i < rules@.len() ==> css_emittable(#[trigger] rules@[i]),
        r matches Err(msg) ==> msg@ == css_error_message(text@),
{
    let cm = SourceMap::default();
    let file = cm.new_source_file(FileName::Anon.into(), text.to_string());
    let config = ParserConfig { allow_wrong_line_comments: true, css_modules: true, legacy_nesting: true, legacy_ie: true };
    let mut recovered = vec![];
    match swc_css_parser::parse_file::<Stylesheet>(&file, None, config, &mut recovered) {
        Ok(sheet) => Ok(sheet.rules),
        Err(e) => Err(format!("{:?}", e.message())),
    }
}

/// Relies on swc_css_codegen's `CodeGenerator::emit` with a basic writer into
/// a `String`, which cannot fail on rules whose simple blocks open with a
/// bracket; the result is the code's UTF-8 bytes.
#[verifier::external_body]
fn codegen_stylesheet(rules: &Vec<Rule>) -> (r: Vec<u8>)
    requires
        all_emittable(rules@),
    ensures
        r@ == css_code(rules@),
{
    let sheet = Stylesheet { span: DUMMY_SP, rules: rules.clone() };
    let mut code = String::new();
    let writer = BasicCssWriter::new(&mut code, None, BasicCssWriterConfig::default());
    CodeGenerator::new(writer, CodegenConfig { minify: false }).emit(&sheet).unwrap();
    code.into_bytes()
}

/// The kind of a module, as detected from its identity.
#[derive(PartialEq, Eq, Structural, Clone, Copy, Debug)]
pub enum ModuleType {
    Js,
    Jsx,
    Ts,
    Tsx,
    Css,
    Html,
    Asset,
    Unknown,
}

/// The kind of a resource pot; it decides which plugin renders it.
#[derive(PartialEq, Eq, Structural, Clone, Copy, Debug)]
pub enum ResourcePotType {
    Js,
    Css,
    Html,
    Asset,
    Unknown,
}

/// The kind of an emitted artifact.
#[derive(PartialEq, Eq, Structural, Clone, Copy, Debug)]
pub enum ResourceType {
    Js,
    Css,
    Html,
    SourceMap,
    Asset,
    Unknown,
}

/// What the load hook yields: the text of the module and its type.
#[derive(Debug)]
pub struct PluginLoadHookResult {
    pub content: String,
    pub module_type: ModuleType,
}

/// The phase-specific data of a parsed module.
#[derive(Debug)]
pub enum ModuleMetaData {
    /// A stylesheet, as its top-level rules in source order.
    Css { rules: Vec<Rule> },
    /// Data that another plugin owns.
    Custom,
}

/// One parsed module, known by its root-relative identity.
#[derive(Debug)]
pub struct Module {
    pub id: String,
    pub module_type: ModuleType,
    pub meta: ModuleMetaData,
}

/// The modules of a compilation, looked up by identity.
#[derive(Debug)]
pub struct ModuleGraph {
    pub modules: Vec<Module>,
}

/// Where the module with identity `id` stands among `modules`: the first
/// module with that identity.
pub open spec fn module_index(modules: Seq<Module>, id: Seq<char>) -> Option<int>
    decreases modules.len(),
{
    if modules.len() == 0 {
        None
    } else if modules[0].id@ == id {
        Some(0)
    } else {
        match module_index(modules.drop_first(), id) {
            Some(i) => Some(i + 1),
            None => None,
        }
    }
}

/// Whether `id` names a stylesheet module of the graph.
pub open spec fn is_css_module(graph: &ModuleGraph, id: Seq<char>) -> bool {
    &&& module_index(graph.modules@, id) is Some
    &&& graph.modules@[module_index(graph.modules@, id)->Some_0].meta is Css
    &&& all_emittable(module_rules(graph, id))
}

/// The rules of the stylesheet module named `id`.
pub open spec fn module_rules(graph: &ModuleGraph, id: Seq<char>) -> Seq<Rule> {
    match graph.modules@[module_index(graph.modules@, id)->Some_0].meta {
        ModuleMetaData::Css { rules } => rules@,
        ModuleMetaData::Custom => Seq::empty(),
    }
}

/// The rules of the member modules, member after member, each in its own order.
pub open spec fn merged_rules(graph: &ModuleGraph, members: Seq<Seq<char>>) -> Seq<Rule>
    decreases members.len(),
{
    if members.len() == 0 {
        Seq::empty()
    } else {
        merged_rules(graph, members.drop_last()) + module_rules(graph, members.last())
    }
}

/// The rules of a rendered stylesheet pot.
pub open spec fn pot_rules(meta: ResourcePotMetaData) -> Seq<Rule> {
    match meta {
        ResourcePotMetaData::Css { rules } => rules@,
        _ => Seq::empty(),
    }
}

/// The phase-specific data of a resource pot, once rendered.
#[derive(Debug)]
pub enum ResourcePotMetaData {
    /// Not rendered yet.
    Pending,
    /// One stylesheet made of the members' rules.
    Css { rules: Vec<Rule> },
    /// Data that another plugin owns.
    Custom,
}

/// A named group of modules of one resource-pot type, in a fixed order.
#[derive(Debug)]
pub struct ResourcePot {
    pub id: String,
    pub resource_pot_type: ResourcePotType,
    pub modules: Vec<String>,
    pub meta: ResourcePotMetaData,
}

impl ResourcePot {
    pub open spec fn members(&self) -> Seq<Seq<char>> {
        self.modules@.map_values(|m: String| m@)
    }
}

/// An artifact ready to be written out.
#[derive(Debug)]
pub struct Resource {
    pub name: String,
    pub bytes: Vec<u8>,
    pub emitted: bool,
    pub resource_type: ResourceType,
    pub resource_pot: String,
}

impl ModuleGraph {
    /// The first module with identity `id`.
    pub fn module(&self, id: &String) -> (r: Option<&Module>)
        ensures
            r is None <==> module_index(self.modules@, id@) is None,
            r matches Some(m) ==> *m == self.modules@[module_index(self.modules@, id@)->Some_0],
    {
        let mut i: usize = 0;
        assert(self.modules@.subrange(0, self.modules@.len() as int) =~= self.modules@);
        while i < self.modules.len()
            invariant
                i <= self.modules@.len(),
                forall|j: int| 0 <= j < i ==> self.modules@[j].id@ != id@,
                module_index(self.modules@, id@) == match module_index(
                    self.modules@.subrange(i as int, self.modules@.len() as int),
                    id@,
                ) {
                    Some(k) => Some(k + i),
                    None => None::<int>,
                },
            decreases self.modules.len() - i,
        {
            let ghost rest = self.modules@.subrange(i as int, self.modules@.len() as int);
            assert(rest.drop_first() =~= self.modules@.subrange(i + 1, self.modules@.len() as int));
            if self.modules[i].id == *id {
                return Some(&self.modules[i]);
            }
            i = i + 1;
        }
        assert(self.modules@.subrange(i as int, self.modules@.len() as int) =~= Seq::<Module>::empty());
        None
    }
}

/// The stylesheet plugin: owns modules of type `Css` and resource pots of
/// type `Css`, and declines everything else.
pub struct FarmPluginCss {}

impl FarmPluginCss {
    pub fn new() -> (r: FarmPluginCss) {
        FarmPluginCss {}
    }

    pub fn name(&self) -> (r: &'static str)
        ensures
            r@ == "FarmPluginCss"@,
    {
        "FarmPluginCss"
    }

    /// The load hook. A module of type `Css` is read with `read`, which gives
    /// the file's text or the reason it could not be read; any other module
    /// is declined without reading.
    pub fn load<F: FnOnce() -> Result<String, String>>(
        &self,
        id: &String,
        module_type: Option<ModuleType>,
        read: F,
    ) -> (r: HookResult<PluginLoadHookResult>)
        requires
            module_type == Some(ModuleType::Css) ==> read.requires(()),
        ensures
            module_type != Some(ModuleType::Css) ==> r is NotApplicable,
            module_type == Some(ModuleType::Css) ==> exists|c: Result<String, String>|
                read.ensures((), c) && r == load_outcome(id, c),
    {
        if module_type == Some(ModuleType::Css) {
            let c = read();
            let ghost seen = c;
            let r = match c {
                Ok(content) => HookResult::Handled(
                    PluginLoadHookResult { content, module_type: ModuleType::Css },
                ),
                Err(msg) => HookResult::Failed(CompilationError::Io { path: id.clone(), msg }),
            };
            assert(read.ensures((), seen) && r == load_outcome(id, seen));
            r
        } else {
            HookResult::NotApplicable
        }
    }

    /// The parse hook. `id` is the module's identity relative to the project
    /// root; the caller makes it so. A `Css` module's text becomes a module holding the
    /// stylesheet's top-level rules; text that does not parse is a parse
    /// error naming the module. Other types are declined.
    pub fn parse(&self, id: &String, module_type: ModuleType, content: &String) -> (r: HookResult<
        Module,
    >)
        ensures
            module_type != ModuleType::Css ==> r is NotApplicable,
            module_type == ModuleType::Css && css_parses(content@) ==> (r matches HookResult::Handled(m)
                && m.id == *id && m.module_type == ModuleType::Css && (m.meta matches ModuleMetaData::Css {
                rules } && rules@ == css_rules(content@))),
            module_type == ModuleType::Css && !css_parses(content@) ==> (r matches HookResult::Failed(e)
                && e matches CompilationError::Parse { msg, .. } && msg@ == css_error_message(content@)),
            module_type == ModuleType::Css && !css_parses(content@) ==> (r matches HookResult::Failed(e)
                && e matches CompilationError::Parse { resolved_path, .. } && resolved_path == *id),
    {
        if module_type == ModuleType::Css {
            stylesheet_module(id, parse_stylesheet(content.as_str()))
        } else {
            HookResult::NotApplicable
        }
    }

    /// The dependency hook: stylesheet dependencies belong to another owner,
    /// so this plugin always declines and adds nothing.
    pub fn analyze_deps(&self, module: &Module, deps: &mut Vec<String>) -> (r: HookResult<()>)
        ensures
            r is NotApplicable,
            final(deps)@ == old(deps)@,
    {
        HookResult::NotApplicable
    }

    /// The render hook: a `Css` pot gets one stylesheet made of its members'
    /// rules, member after member in the pot's order, with nothing dropped or
    /// reordered. Other pots are declined and left as they were.
    pub fn render_resource_pot(&self, pot: &mut ResourcePot, graph: &ModuleGraph) -> (r: HookResult<
        (),
    >)
        requires
            old(pot).resource_pot_type == ResourcePotType::Css ==> forall|i: int|
                0 <= i < old(pot).members().len() ==> is_css_module(graph, #[trigger] old(pot).members()[i]),
        ensures
            old(pot).resource_pot_type != ResourcePotType::Css ==> r is NotApplicable && *final(pot) == *old(pot),
            old(pot).resource_pot_type == ResourcePotType::Css ==> r is Handled,
            final(pot).id == old(pot).id,
            final(pot).resource_pot_type == old(pot).resource_pot_type,
            final(pot).modules == old(pot).modules,
            old(pot).resource_pot_type == ResourcePotType::Css ==> (final(pot).meta matches ResourcePotMetaData::Css {
                rules } && rules@ == merged_rules(graph, old(pot).members())),
            old(pot).resource_pot_type == ResourcePotType::Css ==> all_emittable(pot_rules(final(pot).meta)),
    {
        if pot.resource_pot_type != ResourcePotType::Css {
            return HookResult::NotApplicable;
        }
        let mut merged: Vec<Rule> = Vec::new();
        let n = pot.modules.len();
        let mut i: usize = 0;
        while i < n
            invariant
                n == pot.modules@.len(),
                i <= n,
                pot.resource_pot_type == ResourcePotType::Css,
                forall|k: int| 0 <= k < pot.members().len() ==> is_css_module(graph, #[trigger] pot.members()[k]),
                merged@ == merged_rules(graph, pot.members().subrange(0, i as int)),
                all_emittable(merged@),
            decreases n - i,
        {
            let ghost member = pot.members()[i as int];
            assert(pot.members().subrange(0, i + 1).drop_last() =~= pot.members().subrange(0, i as int));
            let found = graph.module(&pot.modules[i]);
            let m = match found {
                Some(m) => m,
                None => {
                    assert(is_css_module(graph, member));
                    return HookResult::NotApplicable;
                },
            };
            assert(is_css_module(graph, member));
            match &m.meta {
                ModuleMetaData::Css { rules } => {
                    let ghost before = merged@;
                    let mut j: usize = 0;
                    while j < rules.len()
                        invariant
                            j <= rules@.len(),
                            merged@ == before + rules@.subrange(0, j as int),
                            all_emittable(before),
                            all_emittable(rules@),
                            all_emittable(merged@),
                        decreases rules.len() - j,
                    {
                        merged.push(rules[j].clone());
                        assert(css_emittable(rules@[j as int]));
                        assert(merged@ =~= before + rules@.subrange(0, j + 1));
                        j = j + 1;
                    }
                    assert(rules@.subrange(0, rules@.len() as int) =~= rules@);
                    assert(module_rules(graph, member) == rules@);
                    assert(all_emittable(rules@));
                },
                ModuleMetaData::Custom => {
                    assert(false);
                },
            }
            i = i + 1;
        }
        assert(pot.members().subrange(0, n as int) =~= pot.members());
        pot.meta = ResourcePotMetaData::Css { rules: merged };
        HookResult::Handled(())
    }

    /// The generate hook: a rendered `Css` pot yields exactly one resource,
    /// named after the pot with `.css` appended, whose bytes are the code of
    /// the merged stylesheet, not yet emitted. Other pots are declined.
    pub fn generate_resources(&self, pot: &ResourcePot) -> (r: HookResult<Vec<Resource>>)
        requires
            pot.resource_pot_type == ResourcePotType::Css ==> pot.meta is Css,
            pot.resource_pot_type == ResourcePotType::Css ==> all_emittable(pot_rules(pot.meta)),
        ensures
            pot.resource_pot_type != ResourcePotType::Css ==> r is NotApplicable,
            pot.resource_pot_type == ResourcePotType::Css ==> (r matches HookResult::Handled(v)
                && v@.len() == 1 && v@[0].name@ == pot.id@ + ".css"@
                && !v@[0].emitted && v@[0].resource_type == ResourceType::Css
                && v@[0].resource_pot == pot.id && (pot.meta matches ResourcePotMetaData::Css { rules }
                && v@[0].bytes@ == css_code(rules@))),
    {
        if pot.resource_pot_type != ResourcePotType::Css {
            return HookResult::NotApplicable;
        }
        match &pot.meta {
            ResourcePotMetaData::Css { rules } => {
                HookResult::Handled(vec![css_resource(&pot.id, codegen_stylesheet(rules))])
            },
            _ => {
                assert(false);
                HookResult::NotApplicable
            },
        }
    }
}

/// The module that the parse hook makes of a stylesheet's parse outcome:
/// the rules in a `Css` module named `id`, or a parse error naming `id`.
pub fn stylesheet_module(id: &String, parsed: Result<Vec<Rule>, String>) -> (r: HookResult<Module>)
    ensures
        parsed is Ok ==> (r matches HookResult::Handled(m) && m.id == *id && m.module_type
            == ModuleType::Css && (m.meta matches ModuleMetaData::Css { rules } && parsed
            == Ok::<Vec<Rule>, String>(rules))),
        parsed matches Err(msg) ==> (r matches HookResult::Failed(e) && e == CompilationError::Parse {
            resolved_path: *id,
            msg,
        }),
{
    match parsed {
        Ok(rules) => HookResult::Handled(
            Module { id: id.clone(), module_type: ModuleType::Css, meta: ModuleMetaData::Css { rules } },
        ),
        Err(msg) => HookResult::Failed(CompilationError::Parse { resolved_path: id.clone(), msg }),
    }
}

/// The resource of a stylesheet pot named `pot_id` whose code is `code`:
/// named `<pot_id>.css`, of type `Css`, not yet emitted.
pub fn css_resource(pot_id: &String, code: Vec<u8>) -> (r: Resource)
    ensures
        r.name@ == pot_id@ + ".css"@,
        r.bytes == code,
        !r.emitted,
        r.resource_type == ResourceType::Css,
        r.resource_pot == *pot_id,
{
    Resource {
        name: pot_id.clone().concat(".css"),
        bytes: code,
        emitted: false,
        resource_type: ResourceType::Css,
        resource_pot: pot_id.clone(),
    }
}

/// What the load hook answers for a stylesheet, given the outcome of reading it.
pub open spec fn load_outcome(id: &String, read: Result<String, String>) -> HookResult<
    PluginLoadHookResult,
> {
    match read {
        Ok(content) => HookResult::Handled(
            PluginLoadHookResult { content, module_type: ModuleType::Css },
        ),
        Err(msg) => HookResult::Failed(CompilationError::Io { path: *id, msg }),
    }
}

/// Merging keeps the members' order: the stylesheet of a pot whose members
/// are `first` followed by `second` is the stylesheet of `first` followed by
/// the stylesheet of `second`. For members `[a, b, c]` it is the rules of
/// `a`, then those of `b`, then those of `c`.
pub proof fn lemma_merge_preserves_member_order(
    graph: &ModuleGraph,
    first: Seq<Seq<char>>,
    second: Seq<Seq<char>>,
)
    ensures
        merged_rules(graph, first + second) == merged_rules(graph, first) + merged_rules(
            graph,
            second,
        ),
    decreases second.len(),
{
    if second.len() == 0 {
        assert(first + second =~= first);
        assert(merged_rules(graph, first) + Seq::<Rule>::empty() =~= merged_rules(graph, first));
    } else {
        assert((first + second).drop_last() =~= first + second.drop_last());
        assert((first + second).last() == second.last());
        lemma_merge_preserves_member_order(graph, first, second.drop_last());
        assert(merged_rules(graph, first) + merged_rules(graph, second) =~= merged_rules(graph, first)
            + merged_rules(graph, second.drop_last()) + module_rules(graph, second.last()));
    }
}

/// The stylesheet of a pot with three members is the first member's rules,
/// then the second's, then the third's.
pub proof fn lemma_merge_of_three(graph: &ModuleGraph, a: Seq<char>, b: Seq<char>, c: Seq<char>)
    ensures
        merged_rules(graph, seq![a, b, c]) == module_rules(graph, a) + module_rules(graph, b)
            + module_rules(graph, c),
{
    let s = seq![a, b, c];
    assert(s.drop_last() =~= seq![a, b]);
    assert(seq![a, b].drop_last() =~= seq![a]);
    assert(seq![a].drop_last() =~= Seq::<Seq<char>>::empty());
    assert(Seq::<Rule>::empty() + module_rules(graph, a) =~= module_rules(graph, a));
    assert(merged_rules(graph, Seq::<Seq<char>>::empty()) == Seq::<Rule>::empty());
    assert(seq![a].last() == a && seq![a, b].last() == b && s.last() == c);
    assert(merged_rules(graph, seq![a]) == module_rules(graph, a));
    assert(merged_rules(graph, seq![a, b]) == module_rules(graph, a) + module_rules(graph, b));
    assert(merged_rules(graph, s) == merged_rules(graph, seq![a, b]) + module_rules(graph, c));
}

} // verus!
