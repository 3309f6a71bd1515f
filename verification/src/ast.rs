use vstd::prelude::*;
use vstd::string::*;

use crate::text::dec_chars;

verus! {

/// The host-side spelling of a typed identifier: its category prefix
/// joined to the bare name by an underscore.
pub open spec fn id_rendered(id: StatementParameterId) -> Seq<char> {
    match id {
        StatementParameterId::AnimationId(name) => "anim_"@ + name@,
        StatementParameterId::FactionId(name) => "fac_"@ + name@,
        StatementParameterId::InfoPageId(name) => "id_"@ + name@,
        StatementParameterId::ItemId(name) => "itm_"@ + name@,
        StatementParameterId::MapIconId(name) => "icon_"@ + name@,
        StatementParameterId::GameMenuId(name) => "menu_"@ + name@,
        StatementParameterId::MeshId(name) => "mesh_"@ + name@,
        StatementParameterId::MissionTemplateId(name) => "mst_"@ + name@,
        StatementParameterId::ParticleSystemId(name) => "psys_"@ + name@,
        StatementParameterId::PartyId(name) => "p_"@ + name@,
        StatementParameterId::PartyTemplateId(name) => "pt_"@ + name@,
        StatementParameterId::PostfxId(name) => "pfx_"@ + name@,
        StatementParameterId::PresentationId(name) => "prsnt_"@ + name@,
        StatementParameterId::QuestId(name) => "qst_"@ + name@,
        StatementParameterId::ScenePropId(name) => "spr_"@ + name@,
        StatementParameterId::SceneId(name) => "scn_"@ + name@,
        StatementParameterId::ScriptId(name) => "script_"@ + name@,
        StatementParameterId::SkillId(name) => "skl_"@ + name@,
        StatementParameterId::SoundId(name) => "snd_"@ + name@,
        StatementParameterId::StringId(name) => "str_"@ + name@,
        StatementParameterId::TableauMaterialId(name) => "tableau_"@ + name@,
        StatementParameterId::TroopId(name) => "trp_"@ + name@,
    }
}

/// What a parameter renders to for the host, where the rendering is
/// a plain string: the three variable forms and the typed
/// identifiers. Numbers, registers and bare identifiers project
/// through other channels and render to no string here.
pub open spec fn param_rendered(p: StatementParameter) -> Option<Seq<char>> {
    match p {
        StatementParameter::LocalVariable(name) => Some(":"@ + name@),
        StatementParameter::GlobalVariable(name) => Some("$"@ + name@),
        StatementParameter::AutoPrefixedGlobalVariable(name) => Some("$g_"@ + name@),
        StatementParameter::StatementParamId(id) => Some(id_rendered(id)),
        _ => None,
    }
}

/// The symbol-table key a register parameter resolves through.
pub open spec fn register_key_chars(code: u8) -> Seq<char> {
    "reg"@ + dec_chars(code as nat)
}

/// One of the 21 typed-identifier categories, each holding the bare
/// name written after its source prefix. Resolution to the host's
/// rendered form (`anim_name`, `fac_name`, ...) happens at projection
/// time and never consults the symbol table.
#[derive(Debug, Clone, PartialEq, Eq)]
pub enum StatementParameterId {
    AnimationId(String),
    FactionId(String),
    InfoPageId(String),
    ItemId(String),
    MapIconId(String),
    GameMenuId(String),
    MeshId(String),
    MissionTemplateId(String),
    ParticleSystemId(String),
    PartyId(String),
    PartyTemplateId(String),
    PostfxId(String),
    PresentationId(String),
    QuestId(String),
    ScenePropId(String),
    SceneId(String),
    ScriptId(String),
    SkillId(String),
    SoundId(String),
    StringId(String),
    TableauMaterialId(String),
    TroopId(String),
}

impl StatementParameterId {
    /// Spells the identifier as the host sees it: category prefix,
    /// underscore, bare name.
    pub fn render(&self) -> (r: String)
        ensures
            r@ == id_rendered(*self),
    {
        match self {
            StatementParameterId::AnimationId(name) => String::from_str("anim_").concat(
                name.as_str(),
            ),
            StatementParameterId::FactionId(name) => String::from_str("fac_").concat(name.as_str()),
            StatementParameterId::InfoPageId(name) => String::from_str("id_").concat(name.as_str()),
            StatementParameterId::ItemId(name) => String::from_str("itm_").concat(name.as_str()),
            StatementParameterId::MapIconId(name) => String::from_str("icon_").concat(
                name.as_str(),
            ),
            StatementParameterId::GameMenuId(name) => String::from_str("menu_").concat(
                name.as_str(),
            ),
            StatementParameterId::MeshId(name) => String::from_str("mesh_").concat(name.as_str()),
            StatementParameterId::MissionTemplateId(name) => String::from_str("mst_").concat(
                name.as_str(),
            ),
            StatementParameterId::ParticleSystemId(name) => String::from_str("psys_").concat(
                name.as_str(),
            ),
            StatementParameterId::PartyId(name) => String::from_str("p_").concat(name.as_str()),
            StatementParameterId::PartyTemplateId(name) => String::from_str("pt_").concat(
                name.as_str(),
            ),
            StatementParameterId::PostfxId(name) => String::from_str("pfx_").concat(name.as_str()),
            StatementParameterId::PresentationId(name) => String::from_str("prsnt_").concat(
                name.as_str(),
            ),
            StatementParameterId::QuestId(name) => String::from_str("qst_").concat(name.as_str()),
            StatementParameterId::ScenePropId(name) => String::from_str("spr_").concat(
                name.as_str(),
            ),
            StatementParameterId::SceneId(name) => String::from_str("scn_").concat(name.as_str()),
            StatementParameterId::ScriptId(name) => String::from_str("script_").concat(
                name.as_str(),
            ),
            StatementParameterId::SkillId(name) => String::from_str("skl_").concat(name.as_str()),
            StatementParameterId::SoundId(name) => String::from_str("snd_").concat(name.as_str()),
            StatementParameterId::StringId(name) => String::from_str("str_").concat(name.as_str()),
            StatementParameterId::TableauMaterialId(name) => String::from_str("tableau_").concat(
                name.as_str(),
            ),
            StatementParameterId::TroopId(name) => String::from_str("trp_").concat(name.as_str()),
        }
    }
}

/// One parameter of a statement: the closed set of token shapes the
/// grammar recognises, already validated and narrowed to typed data.
#[derive(Debug, Clone, PartialEq, Eq)]
pub enum StatementParameter {
    /// A bare name, looked up in the symbol table at projection time.
    Identifier(String),
    /// `reg.<code>`; resolved via the synthesized key `reg<code>`.
    Register(u8),
    /// `str.<code>`; numeric, no table lookup.
    StringRegister(u8),
    /// `pos.<code>`; numeric, no table lookup.
    PositionRegister(u8),
    /// `:<name>`; renders as `:name`.
    LocalVariable(String),
    /// `$<name>`; renders as `$name`.
    GlobalVariable(String),
    /// `g.<name>`; renders as `$g_name`.
    AutoPrefixedGlobalVariable(String),
    /// One of the 21 typed-identifier forms.
    StatementParamId(StatementParameterId),
    /// A signed 64-bit integer literal.
    Number(i64),
}

impl StatementParameter {
    /// The string this parameter renders to for the host, if it
    /// renders to one.
    pub fn rendered(&self) -> (r: Option<String>)
        ensures
            match param_rendered(*self) {
                Some(c) => r matches Some(s) && s@ == c,
                None => r is None,
            },
    {
        match self {
            StatementParameter::LocalVariable(name) => Some(
                String::from_str(":").concat(name.as_str()),
            ),
            StatementParameter::GlobalVariable(name) => Some(
                String::from_str("$").concat(name.as_str()),
            ),
            StatementParameter::AutoPrefixedGlobalVariable(name) => Some(
                String::from_str("$g_").concat(name.as_str()),
            ),
            StatementParameter::StatementParamId(id) => Some(id.render()),
            _ => None,
        }
    }
}

/// The key under which a register parameter is looked up in the
/// symbol table at projection time.
pub fn register_key(code: u8) -> (r: String)
    ensures
        r@ == register_key_chars(code),
{
    String::from_str("reg").concat(crate::text::u64_to_string(code as u64).as_str())
}

/// One operation invocation: the leading identifier, kept verbatim,
/// and its ordered parameters.
#[derive(Debug, Clone, PartialEq, Eq)]
pub struct Statement {
    pub operation: String,
    pub parameters: Vec<StatementParameter>,
}

impl Statement {
    pub fn new(operation: String, parameters: Vec<StatementParameter>) -> (r: Statement)
        ensures
            r.operation == operation,
            r.parameters == parameters,
    {
        Statement { operation, parameters }
    }
}

/// A fully parsed script: its caller-supplied label and the ordered
/// statements, immutable once the parse returns.
#[derive(Debug, Clone, PartialEq, Eq)]
pub struct Script {
    pub name: String,
    pub statements: Vec<Statement>,
}

impl Script {
    pub fn new(name: &str) -> (r: Script)
        ensures
            r.name@ == name@,
            r.statements@ == Seq::<Statement>::empty(),
    {
        Script { name: name.to_owned(), statements: Vec::new() }
    }

    pub fn push_statement(&mut self, statement: Statement)
        ensures
            final(self).name == old(self).name,
            final(self).statements@ == old(self).statements@.push(statement),
    {
        self.statements.push(statement);
    }
}

} // verus!
