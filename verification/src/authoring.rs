//! Customer agent sources: which files a package may hold, and the package itself,
//! a canonical definition with its content digest. Reading the files stays with the
//! caller, which hands each file's bytes to [`Packager::add`] once [`Packager::check_source`] accepted it.
use vstd::prelude::*;
use vstd::string::StringSliceAdditionalSpecFns;
use vstd::utf8::encode_utf8;
use crate::deps::{base64_encode, base64_of, json_string, json_string_of, sha256_hex, sha256_hex_of, utf8_error_text,
    utf8_error_text_of, utf8_string};
use crate::text::{append_text, lemma_split_join, lemma_split_single, push_range, chars_of, contains_char, ends_with, has_suffix, is_white, join_first, join_slash,
    lemma_text_lt_irreflexive, lemma_text_lt_total, lemma_text_lt_transitive, split_on, split_parts, starts_with,
    string_of, text_before, text_equal, text_lt};

verus! {

/// Why a package was refused.
#[derive(Debug, Clone, PartialEq, Eq)]
pub enum AuthoringError {
    InvalidName,
    SourceCount,
    InvalidNamedAgent,
    Unsupported,
    Traversal,
    SourceTooLarge,
    /// The source is not UTF-8; the text is the decoder's account of where.
    NotUtf8(String),
    NulByte,
    MissingAgentInstructions,
    MissingSkill,
    NoInstructions,
    DefinitionTooLarge,
}

impl AuthoringError {
    /// The message reported for this refusal; for text that is not UTF-8, the
    /// decoder's own account.
    pub fn message(&self) -> (r: String)
        ensures
            *self == AuthoringError::Unsupported ==> r@ == "Invalid, duplicate, or unsupported authored source path/kind"@,
            *self == AuthoringError::NoInstructions ==> r@ == "At least one nonempty instruction source is required"@,
            *self matches AuthoringError::NotUtf8(t) ==> r@ == t@,
    {
        let text = match self {
            AuthoringError::NotUtf8(t) => { return t.clone(); },
            AuthoringError::InvalidName => "Agent name must start with a lowercase letter or digit and contain only lowercase letters, digits and hyphens (up to 64 characters)",
            AuthoringError::SourceCount => "Specify between 1 and 100 sources",
            AuthoringError::InvalidNamedAgent => "Invalid named agent path",
            AuthoringError::Unsupported => "Invalid, duplicate, or unsupported authored source path/kind",
            AuthoringError::Traversal => "Source paths must be relative without traversal",
            AuthoringError::SourceTooLarge => "Source exceeds 1 MB",
            AuthoringError::NulByte => "Source contains a NUL byte",
            AuthoringError::MissingAgentInstructions => "Named agent requires instructions.md",
            AuthoringError::MissingSkill => "Skill asset requires an authored parent SKILL.md",
            AuthoringError::NoInstructions => "At least one nonempty instruction source is required",
            AuthoringError::DefinitionTooLarge => "Packaged definition exceeds 1 MB",
        };
        text.to_string()
    }
}

/// The largest source, and the largest packaged definition, in bytes.
pub const SOURCE_LIMIT: usize = 1000000;

/// An agent name: 1 to 64 bytes of lowercase letters, digits and hyphens,
/// starting with a lowercase letter or digit.
pub open spec fn spec_valid_name(name: Seq<char>) -> bool {
    &&& name.len() > 0
    &&& name.len() <= 64
    &&& forall|i: int| 0 <= i < name.len() ==> ('a' <= #[trigger] name[i] <= 'z' || '0' <= name[i] <= '9'
        || name[i] == '-')
    &&& ('a' <= name[0] <= 'z' || '0' <= name[0] <= '9')
}

/// Accepts an agent name.
pub fn validate_name(name: &str) -> (r: Result<(), AuthoringError>)
    ensures
        r is Ok <==> spec_valid_name(name@),
        r is Err ==> r == Err::<(), AuthoringError>(AuthoringError::InvalidName),
{
    let c = chars_of(name);
    if c.len() == 0 || c.len() > 64 {
        return Err(AuthoringError::InvalidName);
    }
    let mut i: usize = 0;
    while i < c.len()
        invariant
            i <= c@.len(),
            c@ == name@,
            forall|k: int| 0 <= k < i ==> ('a' <= #[trigger] c@[k] <= 'z' || '0' <= c@[k] <= '9' || c@[k] == '-'),
        decreases c@.len() - i,
    {
        let ch = c[i];
        if !(('a' <= ch && ch <= 'z') || ('0' <= ch && ch <= '9') || ch == '-') {
            return Err(AuthoringError::InvalidName);
        }
        i = i + 1;
    }
    let first = c[0];
    if !(('a' <= first && first <= 'z') || ('0' <= first && first <= '9')) {
        return Err(AuthoringError::InvalidName);
    }
    Ok(())
}

/// The kinds of authored source.
#[derive(Debug, Clone, Copy, PartialEq, Eq, Structural)]
pub enum SourceKind {
    AgentMd,
    AgentSkill,
    SkillAsset,
    EvalMd,
}

impl SourceKind {
    /// The kind as the manifest names it.
    pub fn as_str(&self) -> (r: &'static str)
        ensures
            r@ == kind_name(*self),
    {
        match self {
            SourceKind::AgentMd => "agent_md",
            SourceKind::AgentSkill => "agent_skill",
            SourceKind::SkillAsset => "skill_asset",
            SourceKind::EvalMd => "eval_md",
        }
    }
}

/// The manifest name of a kind.
pub open spec fn kind_name(k: SourceKind) -> Seq<char> {
    match k {
        SourceKind::AgentMd => "agent_md"@,
        SourceKind::AgentSkill => "agent_skill"@,
        SourceKind::SkillAsset => "skill_asset"@,
        SourceKind::EvalMd => "eval_md"@,
    }
}

/// An ASCII letter or digit.
pub open spec fn is_alnum(c: char) -> bool {
    ('a' <= c <= 'z') || ('A' <= c <= 'Z') || ('0' <= c <= '9')
}

/// A named agent or skill: letters, digits, `_` and `-`, starting with a letter or digit.
pub open spec fn valid_segment(n: Seq<char>) -> bool {
    n.len() > 0 && is_alnum(n[0]) && forall|i: int| 0 <= i < n.len() ==> is_alnum(#[trigger] n[i]) || n[i] == '_'
        || n[i] == '-'
}

fn segment_ok(n: &Vec<char>) -> (r: bool)
    ensures
        r == valid_segment(n@),
{
    if n.len() == 0 {
        return false;
    }
    let f = n[0];
    if !(('a' <= f && f <= 'z') || ('A' <= f && f <= 'Z') || ('0' <= f && f <= '9')) {
        return false;
    }
    let mut i: usize = 0;
    while i < n.len()
        invariant
            i <= n@.len(),
            forall|k: int| 0 <= k < i ==> is_alnum(#[trigger] n@[k]) || n@[k] == '_' || n@[k] == '-',
        decreases n@.len() - i,
    {
        let c = n[i];
        if !(('a' <= c && c <= 'z') || ('A' <= c && c <= 'Z') || ('0' <= c && c <= '9') || c == '_' || c == '-') {
            return false;
        }
        i = i + 1;
    }
    true
}

/// The kind a listed source has, if its path suits it. A path under `agents/NAME/`
/// belongs to a named agent; the rest of the path is what the kind constrains.
pub open spec fn spec_source_kind(path: Seq<char>, kind: Seq<char>) -> Result<SourceKind, AuthoringError> {
    let parts = split_parts(path, '/');
    let named = parts[0] == "agents"@;
    if named && (parts.len() < 3 || !valid_segment(parts[1])) {
        Err(AuthoringError::InvalidNamedAgent)
    } else {
        let scoped = if named { parts.skip(2) } else { parts };
        if kind == "agent_md"@ {
            if scoped == seq!["instructions.md"@] || (!named && scoped == seq!["AGENTS.md"@]) {
                Ok(SourceKind::AgentMd)
            } else {
                Err(AuthoringError::Unsupported)
            }
        } else if kind == "agent_skill"@ {
            if scoped.len() > 0 && scoped[0] == "skills"@ && ends_with(path, ".md"@) {
                Ok(SourceKind::AgentSkill)
            } else {
                Err(AuthoringError::Unsupported)
            }
        } else if kind == "skill_asset"@ {
            if scoped.len() >= 4 && scoped[0] == "skills"@ && valid_segment(scoped[1]) && (scoped[2]
                == "scripts"@ || scoped[2] == "references"@ || scoped[2] == "assets"@) {
                Ok(SourceKind::SkillAsset)
            } else {
                Err(AuthoringError::Unsupported)
            }
        } else if kind == "eval_md"@ {
            if !named && scoped.len() > 0 && scoped[0] == "evals"@ && ends_with(path, ".md"@) {
                Ok(SourceKind::EvalMd)
            } else {
                Err(AuthoringError::Unsupported)
            }
        } else {
            Err(AuthoringError::Unsupported)
        }
    }
}

fn is_word(v: &Vec<char>, w: &str) -> (r: bool)
    ensures
        r == (v@ == w@),
{
    let s = string_of(v.as_slice());
    text_equal(s.as_str(), w)
}

/// The kind of a listed source whose path suits it.
pub fn source_kind(path: &str, kind: &str) -> (r: Result<SourceKind, AuthoringError>)
    ensures
        r == spec_source_kind(path@, kind@),
{
    let parts = split_on(path, '/');
    let ghost views = parts@.map_values(|w: Vec<char>| w@);
    assert(views[0] == parts@[0]@);
    let named = is_word(&parts[0], "agents");
    if named {
        if parts.len() < 3 {
            return Err(AuthoringError::InvalidNamedAgent);
        }
        assert(views[1] == parts@[1]@);
        if !segment_ok(&parts[1]) {
            return Err(AuthoringError::InvalidNamedAgent);
        }
    }
    let start: usize = if named { 2 } else { 0 };
    let ghost scoped = if named { views.skip(2) } else { views };
    assert(scoped =~= views.skip(start as int));
    let n = parts.len() - start;
    assert(scoped.len() == n);
    proof {
        if n > 0 {
            assert(scoped[0] == parts@[start as int]@);
        }
        if n > 1 {
            assert(scoped[1] == parts@[start + 1]@);
        }
        if n > 2 {
            assert(scoped[2] == parts@[start + 2]@);
        }
    }
    if text_equal(kind, "agent_md") {
        let only_instructions = n == 1 && is_word(&parts[start], "instructions.md");
        let only_agents = !named && n == 1 && is_word(&parts[start], "AGENTS.md");
        proof {
            if n == 1 {
                assert(scoped =~= seq![parts@[start as int]@]);
            }
            reveal_strlit("instructions.md");
            reveal_strlit("AGENTS.md");
        }
        if only_instructions || only_agents {
            Ok(SourceKind::AgentMd)
        } else {
            Err(AuthoringError::Unsupported)
        }
    } else if text_equal(kind, "agent_skill") {
        if n > 0 && is_word(&parts[start], "skills") && has_suffix(path, ".md") {
            Ok(SourceKind::AgentSkill)
        } else {
            Err(AuthoringError::Unsupported)
        }
    } else if text_equal(kind, "skill_asset") {
        if n >= 4 && is_word(&parts[start], "skills") && segment_ok(&parts[start + 1]) && (is_word(
            &parts[start + 2],
            "scripts",
        ) || is_word(&parts[start + 2], "references") || is_word(&parts[start + 2], "assets")) {
            Ok(SourceKind::SkillAsset)
        } else {
            Err(AuthoringError::Unsupported)
        }
    } else if text_equal(kind, "eval_md") {
        if !named && n > 0 && is_word(&parts[start], "evals") && has_suffix(path, ".md") {
            Ok(SourceKind::EvalMd)
        } else {
            Err(AuthoringError::Unsupported)
        }
    } else {
        Err(AuthoringError::Unsupported)
    }
}

/// A relative path without traversal: no backslash, and no empty, `.` or `..` part.
pub open spec fn spec_safe_relative(path: Seq<char>) -> bool {
    !path.contains('\\') && forall|i: int| 0 <= i < split_parts(path, '/').len() ==> {
        let p = #[trigger] split_parts(path, '/')[i];
        p.len() > 0 && p != "."@ && p != ".."@
    }
}

/// Whether `path` is relative and does not traverse.
pub fn safe_relative(path: &str) -> (r: bool)
    ensures
        r == spec_safe_relative(path@),
{
    if contains_char(path, '\\') {
        return false;
    }
    let parts = split_on(path, '/');
    let ghost views = parts@.map_values(|w: Vec<char>| w@);
    let mut i: usize = 0;
    while i < parts.len()
        invariant
            i <= parts@.len(),
            views == parts@.map_values(|w: Vec<char>| w@),
            views == split_parts(path@, '/'),
            forall|k: int| 0 <= k < i ==> {
                let p = #[trigger] views[k];
                p.len() > 0 && p != "."@ && p != ".."@
            },
        decreases parts@.len() - i,
    {
        assert(views[i as int] == parts@[i as int]@);
        if parts[i].len() == 0 || is_word(&parts[i], ".") || is_word(&parts[i], "..") {
            return false;
        }
        i = i + 1;
    }
    true
}

/// The text of a source file: UTF-8 without NUL.
pub fn safe_file(bytes: Vec<u8>) -> (r: Result<String, AuthoringError>)
    ensures
        !vstd::utf8::valid_utf8(bytes@) ==> (r matches Err(AuthoringError::NotUtf8(t)) && t@ == utf8_error_text_of(
            bytes@,
        )),
        vstd::utf8::valid_utf8(bytes@) && vstd::utf8::decode_utf8(bytes@).contains('\0') ==> r == Err::<
            String,
            AuthoringError,
        >(AuthoringError::NulByte),
        vstd::utf8::valid_utf8(bytes@) && !vstd::utf8::decode_utf8(bytes@).contains('\0') ==> (r matches Ok(s)
            && s@ == vstd::utf8::decode_utf8(bytes@)),
{
    let kept = crate::text::bytes_copy(bytes.as_slice());
    match utf8_string(bytes) {
        None => Err(AuthoringError::NotUtf8(utf8_error_text(kept.as_slice()))),
        Some(text) => if contains_char(text.as_str(), '\0') {
            Err(AuthoringError::NulByte)
        } else {
            Ok(text)
        },
    }
}

/// One packaged source: its path, its kind, and its content, base64 for an asset.
#[derive(Debug)]
pub struct PackagedSource {
    pub path: String,
    pub kind: SourceKind,
    pub content: String,
}

pub struct PackagedSourceView {
    pub path: Seq<char>,
    pub kind: SourceKind,
    pub content: Seq<char>,
}

impl View for PackagedSource {
    type V = PackagedSourceView;

    open spec fn view(&self) -> PackagedSourceView {
        PackagedSourceView { path: self.path@, kind: self.kind, content: self.content@ }
    }
}

impl Clone for PackagedSource {
    fn clone(&self) -> (r: Self)
        ensures
            r@ == self@,
    {
        PackagedSource { path: self.path.clone(), kind: self.kind, content: self.content.clone() }
    }
}

/// The views of `s`.
pub open spec fn source_views(s: Seq<PackagedSource>) -> Seq<PackagedSourceView> {
    s.map_values(|x: PackagedSource| x@)
}

/// No two sources share a path.
pub open spec fn paths_distinct(s: Seq<PackagedSourceView>) -> bool {
    forall|i: int, j: int| 0 <= i < s.len() && 0 <= j < s.len() && i != j ==> s[i].path != s[j].path
}

/// Sources in strictly increasing path order.
pub open spec fn sorted_by_path(s: Seq<PackagedSourceView>) -> bool {
    forall|i: int, j: int| 0 <= i < j < s.len() ==> text_lt(s[i].path, s[j].path)
}

/// `x` is one of `s`.
pub open spec fn occurs(x: PackagedSourceView, s: Seq<PackagedSourceView>) -> bool {
    exists|j: int| 0 <= j < s.len() && s[j] == x
}

/// Both sequences hold the same sources.
pub open spec fn same_sources(a: Seq<PackagedSourceView>, b: Seq<PackagedSourceView>) -> bool {
    &&& forall|i: int| 0 <= i < a.len() ==> occurs(#[trigger] a[i], b)
    &&& forall|j: int| 0 <= j < b.len() ==> occurs(#[trigger] b[j], a)
}

/// A source belongs to a named agent.
pub open spec fn in_named_agent(path: Seq<char>) -> bool {
    starts_with(path, "agents/"@)
}

/// The JSON object of one packaged source, with its keys in order.
pub open spec fn source_json(s: PackagedSourceView) -> Seq<char> {
    if s.kind == SourceKind::SkillAsset {
        "{\"content\":"@ + json_string_of(s.content) + ",\"encoding\":\"base64\",\"kind\":"@ + json_string_of(
            kind_name(s.kind),
        ) + ",\"path\":"@ + json_string_of(s.path) + "}"@
    } else {
        "{\"content\":"@ + json_string_of(s.content) + ",\"kind\":"@ + json_string_of(kind_name(s.kind))
            + ",\"path\":"@ + json_string_of(s.path) + "}"@
    }
}

/// The JSON objects of `s`, separated by commas.
pub open spec fn sources_json(s: Seq<PackagedSourceView>) -> Seq<char>
    decreases s.len(),
{
    if s.len() == 0 {
        Seq::empty()
    } else if s.len() == 1 {
        source_json(s[0])
    } else {
        sources_json(s.drop_last()) + ","@ + source_json(s.last())
    }
}

/// The canonical definition of a package whose sources, in order, are `s`.
pub open spec fn definition_text(s: Seq<PackagedSourceView>) -> Seq<char> {
    "{\"schema\":\"sikaru.agent.contract.v1\",\"sources\":["@ + sources_json(s) + "]}"@
}

/// The path of the instructions of named agent `agent`.
pub open spec fn agent_instructions(agent: Seq<char>) -> Seq<char> {
    "agents/"@ + agent + "/instructions.md"@
}

/// The parent skill file of asset `path`: the first two parts of its path, four
/// under a named agent, followed by `/SKILL.md`.
pub open spec fn parent_skill(path: Seq<char>) -> Seq<char> {
    let parts = split_parts(path, '/');
    let depth: int = if in_named_agent(path) { 4 } else { 2 };
    let n = if parts.len() < depth { parts.len() as int } else { depth };
    join_slash(parts.take(n)) + "/SKILL.md"@
}

/// Some source has path `path` and kind `kind`.
pub open spec fn has_source(s: Seq<PackagedSourceView>, path: Seq<char>, kind: SourceKind) -> bool {
    exists|j: int| 0 <= j < s.len() && (#[trigger] s[j]).path == path && s[j].kind == kind
}

/// The sources from the `i`-th on have what they need: a named agent's source its
/// agent's instructions, an asset its parent skill.
pub open spec fn spec_parents(s: Seq<PackagedSourceView>, i: int) -> Result<(), AuthoringError>
    decreases s.len() - i,
{
    if i < 0 || i >= s.len() {
        Ok(())
    } else if in_named_agent(s[i].path) && !has_source(s, agent_instructions(split_parts(s[i].path, '/')[1]), SourceKind::AgentMd) {
        Err(AuthoringError::MissingAgentInstructions)
    } else if s[i].kind == SourceKind::SkillAsset && !has_source(s, parent_skill(s[i].path), SourceKind::AgentSkill) {
        Err(AuthoringError::MissingSkill)
    } else {
        spec_parents(s, i + 1)
    }
}

/// A package ready to publish.
#[derive(Debug)]
pub struct Package {
    pub name: String,
    /// The sources in path order.
    pub sources: Vec<PackagedSource>,
    /// The canonical definition, as JSON.
    pub definition: Vec<u8>,
    /// `sha256:` and the digest of the definition.
    pub content_digest: String,
}

/// A package being assembled from a manifest's sources, in manifest order.
#[derive(Debug)]
pub struct Packager {
    pub name: String,
    pub sources: Vec<PackagedSource>,
    /// Some top-level instruction source is not blank.
    pub instructions: bool,
}

/// Text that is empty once trimmed.
pub open spec fn blank(s: Seq<char>) -> bool {
    forall|i: int| 0 <= i < s.len() ==> is_white(#[trigger] s[i])
}

/// The most sources one package holds.
pub const MAX_SOURCES: usize = 100;

/// Some top-level instruction source of `s` is not blank.
pub open spec fn has_instructions(s: Seq<PackagedSourceView>) -> bool {
    exists|j: int| 0 <= j < s.len() && (#[trigger] s[j]).kind == SourceKind::AgentMd && !in_named_agent(s[j].path)
        && !blank(s[j].content)
}

impl Packager {
    /// Distinct source paths, at most [`MAX_SOURCES`] of them, and the instruction
    /// flag says whether some top-level instruction source is not blank.
    pub open spec fn wf(&self) -> bool {
        &&& paths_distinct(source_views(self.sources@))
        &&& self.sources@.len() <= MAX_SOURCES
        &&& self.instructions == has_instructions(source_views(self.sources@))
    }

    /// Starts the package of agent `name` from a manifest listing `count` sources:
    /// a valid name and between 1 and 100 sources.
    pub fn new(name: &str, count: usize) -> (r: Result<Packager, AuthoringError>)
        ensures
            !spec_valid_name(name@) ==> r == Err::<Packager, AuthoringError>(AuthoringError::InvalidName),
            spec_valid_name(name@) && (count == 0 || count > 100) ==> r == Err::<Packager, AuthoringError>(
                AuthoringError::SourceCount,
            ),
            spec_valid_name(name@) && 1 <= count <= 100 ==> (r matches Ok(p) && p.name@ == name@ && p.sources@.len()
                == 0 && !p.instructions && p.wf()),
    {
        validate_name(name)?;
        if count == 0 || count > 100 {
            return Err(AuthoringError::SourceCount);
        }
        let p = Packager { name: name.to_owned(), sources: Vec::new(), instructions: false };
        assert(source_views(p.sources@) =~= Seq::<PackagedSourceView>::empty());
        assert(!has_instructions(source_views(p.sources@)));
        Ok(p)
    }

    /// Whether a source with `path` was already added.
    pub open spec fn has_path(&self, path: Seq<char>) -> bool {
        exists|j: int| 0 <= j < self.sources@.len() && (#[trigger] self.sources@[j]).path@ == path
    }

    fn find_path(&self, path: &str) -> (r: bool)
        ensures
            r == self.has_path(path@),
    {
        let mut j: usize = 0;
        while j < self.sources.len()
            invariant
                j <= self.sources@.len(),
                forall|k: int| 0 <= k < j ==> (#[trigger] self.sources@[k]).path@ != path@,
            decreases self.sources@.len() - j,
        {
            if text_equal(self.sources[j].path.as_str(), path) {
                return true;
            }
            j = j + 1;
        }
        false
    }

    /// Checks a listed source before it is read: its path must suit its kind, must
    /// not repeat an earlier source, and must not traverse.
    pub fn check_source(&self, path: &str, kind: &str) -> (r: Result<SourceKind, AuthoringError>)
        ensures
            spec_source_kind(path@, kind@) is Err ==> r == spec_source_kind(path@, kind@),
            spec_source_kind(path@, kind@) is Ok && self.has_path(path@) ==> r == Err::<SourceKind, AuthoringError>(
                AuthoringError::Unsupported,
            ),
            spec_source_kind(path@, kind@) is Ok && !self.has_path(path@) && !spec_safe_relative(path@) ==> r
                == Err::<SourceKind, AuthoringError>(AuthoringError::Traversal),
            spec_source_kind(path@, kind@) is Ok && !self.has_path(path@) && spec_safe_relative(path@) ==> r
                == spec_source_kind(path@, kind@),
    {
        let k = source_kind(path, kind)?;
        if self.find_path(path) {
            return Err(AuthoringError::Unsupported);
        }
        if !safe_relative(path) {
            return Err(AuthoringError::Traversal);
        }
        Ok(k)
    }

    /// Adds an admitted source read as `bytes`: an asset as base64, any other source
    /// as UTF-8 text without NUL. A top-level instruction source that is not blank
    /// satisfies the instruction requirement.
    pub fn add(&mut self, path: &str, kind: SourceKind, bytes: Vec<u8>) -> (r: Result<(), AuthoringError>)
        requires
            old(self).wf(),
        ensures
            final(self).wf(),
            final(self).name == old(self).name,
            old(self).sources@.len() >= MAX_SOURCES ==> r == Err::<(), AuthoringError>(AuthoringError::SourceCount)
                && final(self).sources@ == old(self).sources@ && final(self).instructions == old(self).instructions,
            old(self).sources@.len() < MAX_SOURCES && old(self).has_path(path@) ==> r == Err::<(), AuthoringError>(AuthoringError::Unsupported)
                && final(self).sources@ == old(self).sources@ && final(self).instructions == old(self).instructions,
            old(self).sources@.len() < MAX_SOURCES && !old(self).has_path(path@) && bytes@.len() > SOURCE_LIMIT ==> r == Err::<(), AuthoringError>(
                AuthoringError::SourceTooLarge,
            ) && final(self).sources@ == old(self).sources@ && final(self).instructions == old(self).instructions,
            old(self).sources@.len() < MAX_SOURCES && !old(self).has_path(path@) && bytes@.len() <= SOURCE_LIMIT && kind == SourceKind::SkillAsset ==> {
                &&& r is Ok
                &&& source_views(final(self).sources@) == source_views(old(self).sources@).push(
                    PackagedSourceView { path: path@, kind, content: base64_of(bytes@) },
                )
                &&& final(self).instructions == old(self).instructions
            },
            old(self).sources@.len() < MAX_SOURCES && !old(self).has_path(path@) && bytes@.len() <= SOURCE_LIMIT && kind != SourceKind::SkillAsset ==> match safe_file_spec(bytes@) {
                None => (r matches Err(e) && file_refusal(bytes@, e)) && final(self).sources@ == old(self).sources@
                    && final(self).instructions == old(self).instructions,
                Some(t) => {
                    &&& r is Ok
                    &&& source_views(final(self).sources@) == source_views(old(self).sources@).push(
                        PackagedSourceView { path: path@, kind, content: t },
                    )
                    &&& final(self).instructions == (old(self).instructions || (kind == SourceKind::AgentMd
                        && !in_named_agent(path@) && !blank(t)))
                },
            },
    {
        if self.sources.len() >= MAX_SOURCES {
            return Err(AuthoringError::SourceCount);
        }
        if self.find_path(path) {
            return Err(AuthoringError::Unsupported);
        }
        if bytes.len() > SOURCE_LIMIT {
            return Err(AuthoringError::SourceTooLarge);
        }
        let content = if kind == SourceKind::SkillAsset {
            base64_encode(bytes.as_slice())
        } else {
            let text = safe_file(bytes)?;
            let top = !has_prefix_text(path, "agents/");
            if kind == SourceKind::AgentMd && top && !crate::tasks::is_blank(text.as_str()) {
                self.instructions = true;
            }
            text
        };
        let ghost before = self.sources@;
        let item = PackagedSource { path: path.to_owned(), kind, content };
        let ghost pushed = item;
        self.sources.push(item);
        proof {
            crate::text::lemma_map_values_push(before, pushed, |x: PackagedSource| x@);
            assert forall|i: int, j: int| 0 <= i < self.sources@.len() && 0 <= j < self.sources@.len() && i != j
                implies source_views(self.sources@)[i].path != source_views(self.sources@)[j].path by {
                if i < before.len() && j < before.len() {
                    assert(source_views(before)[i] == source_views(self.sources@)[i]);
                    assert(source_views(before)[j] == source_views(self.sources@)[j]);
                } else if i < before.len() {
                    assert(source_views(self.sources@)[i].path == before[i].path@);
                } else {
                    assert(source_views(self.sources@)[j].path == before[j].path@);
                }
            }
            let vb = source_views(before);
            let va = source_views(self.sources@);
            assert(va == vb.push(pushed@));
            if has_instructions(vb) {
                let j = choose|j: int| 0 <= j < vb.len() && (#[trigger] vb[j]).kind == SourceKind::AgentMd
                    && !in_named_agent(vb[j].path) && !blank(vb[j].content);
                assert(va[j] == vb[j]);
            }
            if has_instructions(va) {
                let j = choose|j: int| 0 <= j < va.len() && (#[trigger] va[j]).kind == SourceKind::AgentMd
                    && !in_named_agent(va[j].path) && !blank(va[j].content);
                if j < vb.len() {
                    assert(vb[j] == va[j]);
                }
            }
            let last = va.len() - 1;
            assert(va[last] == pushed@);
        }
        Ok(())
    }

    /// Completes the package: every named agent's source needs its agent's
    /// instructions and every asset its parent skill; some top-level instruction
    /// must not be blank; the sources are put in path order; the canonical
    /// definition must not exceed 1 MB; its digest identifies the package.
    pub fn finish(self) -> (r: Result<Package, AuthoringError>)
        requires
            self.wf(),
        ensures
            spec_parents(source_views(self.sources@), 0) is Err ==> r == Err::<Package, AuthoringError>(
                spec_parents(source_views(self.sources@), 0)->Err_0,
            ),
            spec_parents(source_views(self.sources@), 0) is Ok && !has_instructions(source_views(self.sources@)) ==> r == Err::<Package, AuthoringError>(
                AuthoringError::NoInstructions,
            ),
            spec_parents(source_views(self.sources@), 0) is Ok && has_instructions(source_views(self.sources@)) ==> exists|ps: Seq<PackagedSourceView>| {
                &&& sorted_by_path(ps)
                &&& same_sources(ps, source_views(self.sources@))
                &&& ps.len() == self.sources@.len()
                &&& if encode_utf8(definition_text(ps)).len() > SOURCE_LIMIT {
                    r == Err::<Package, AuthoringError>(AuthoringError::DefinitionTooLarge)
                } else {
                    r matches Ok(p) && p.name@ == self.name@ && source_views(p.sources@) == ps && p.definition@
                        == encode_utf8(definition_text(ps)) && p.content_digest@ == "sha256:"@ + sha256_hex_of(
                        encode_utf8(definition_text(ps)),
                    )
                }
            },
    {
        check_parents(&self.sources)?;
        if !self.instructions {
            return Err(AuthoringError::NoInstructions);
        }
        let sorted = sort_by_path(&self.sources);
        let text = definition(&sorted);
        let bytes = crate::text::bytes_copy(text.as_str().as_bytes());
        if bytes.len() > SOURCE_LIMIT {
            return Err(AuthoringError::DefinitionTooLarge);
        }
        let mut digest = String::new();
        append_text(&mut digest, "sha256:");
        let hex = sha256_hex(bytes.as_slice());
        append_text(&mut digest, hex.as_str());
        Ok(Package { name: self.name, sources: sorted, definition: bytes, content_digest: digest })
    }
}

/// Two path-ordered listings of the same sources are the same listing.
proof fn lemma_sorted_sources_unique(a: Seq<PackagedSourceView>, b: Seq<PackagedSourceView>)
    requires
        sorted_by_path(a),
        sorted_by_path(b),
        same_sources(a, b),
    ensures
        a == b,
    decreases a.len(),
{
    if a.len() == 0 {
        if b.len() > 0 {
            assert(occurs(b[0], a));
        }
        assert(a =~= b);
    } else {
        assert(occurs(a[0], b));
        assert(b.len() > 0);
        assert(occurs(b[0], a));
        let j = choose|j: int| 0 <= j < b.len() && b[j] == a[0];
        let i = choose|i: int| 0 <= i < a.len() && a[i] == b[0];
        if j > 0 {
            assert(text_lt(b[0].path, b[j].path));
            if i > 0 {
                assert(text_lt(a[0].path, a[i].path));
                lemma_text_lt_transitive(a[0].path, a[i].path, a[0].path);
            }
            lemma_text_lt_irreflexive(a[0].path);
        }
        assert(a[0] == b[0]);
        let a1 = a.skip(1);
        let b1 = b.skip(1);
        assert forall|x: int, y: int| 0 <= x < y < a1.len() implies text_lt(a1[x].path, a1[y].path) by {
            assert(a1[x] == a[x + 1] && a1[y] == a[y + 1]);
        }
        assert forall|x: int, y: int| 0 <= x < y < b1.len() implies text_lt(b1[x].path, b1[y].path) by {
            assert(b1[x] == b[x + 1] && b1[y] == b[y + 1]);
        }
        assert forall|x: int| 0 <= x < a1.len() implies occurs(#[trigger] a1[x], b1) by {
            assert(a1[x] == a[x + 1]);
            assert(occurs(a[x + 1], b));
            let k = choose|k: int| 0 <= k < b.len() && b[k] == a[x + 1];
            assert(text_lt(a[0].path, a[x + 1].path));
            if k == 0 {
                lemma_text_lt_irreflexive(a[0].path);
            }
            assert(b1[k - 1] == b[k]);
        }
        assert forall|y: int| 0 <= y < b1.len() implies occurs(#[trigger] b1[y], a1) by {
            assert(b1[y] == b[y + 1]);
            assert(occurs(b[y + 1], a));
            let k = choose|k: int| 0 <= k < a.len() && a[k] == b[y + 1];
            assert(text_lt(b[0].path, b[y + 1].path));
            if k == 0 {
                lemma_text_lt_irreflexive(b[0].path);
            }
            assert(a1[k - 1] == a[k]);
        }
        lemma_sorted_sources_unique(a1, b1);
        assert(a =~= seq![a[0]] + a1);
        assert(b =~= seq![b[0]] + b1);
    }
}

/// Packaging unchanged sources again gives the same package: whatever order
/// [`Packager::finish`] puts the same listed sources in, the definition bytes and
/// the content digest are the same.
pub proof fn law_repackaging_is_stable(
    listed: Seq<PackagedSourceView>,
    ordered: Seq<PackagedSourceView>,
    again: Seq<PackagedSourceView>,
)
    requires
        sorted_by_path(ordered),
        same_sources(ordered, listed),
        sorted_by_path(again),
        same_sources(again, listed),
    ensures
        encode_utf8(definition_text(ordered)) == encode_utf8(definition_text(again)),
        "sha256:"@ + sha256_hex_of(encode_utf8(definition_text(ordered)))
            == "sha256:"@ + sha256_hex_of(encode_utf8(definition_text(again))),
{
    assert forall|i: int| 0 <= i < listed.len() implies occurs(#[trigger] listed[i], listed) by {}
    law_definition_ignores_listing_order(listed, listed, ordered, again);
}

/// A package's definition does not depend on the order in which its manifest lists
/// the sources: any two listings of the same sources, each put in path order, give
/// the same canonical definition.
pub proof fn law_definition_ignores_listing_order(
    listed: Seq<PackagedSourceView>,
    relisted: Seq<PackagedSourceView>,
    ordered: Seq<PackagedSourceView>,
    reordered: Seq<PackagedSourceView>,
)
    requires
        same_sources(listed, relisted),
        sorted_by_path(ordered),
        same_sources(ordered, listed),
        sorted_by_path(reordered),
        same_sources(reordered, relisted),
    ensures
        ordered == reordered,
        definition_text(ordered) == definition_text(reordered),
{
    assert forall|x: int| 0 <= x < ordered.len() implies occurs(#[trigger] ordered[x], reordered) by {
        assert(occurs(ordered[x], listed));
        let i = choose|i: int| 0 <= i < listed.len() && listed[i] == ordered[x];
        assert(occurs(listed[i], relisted));
        let j = choose|j: int| 0 <= j < relisted.len() && relisted[j] == listed[i];
        assert(occurs(relisted[j], reordered));
    }
    assert forall|y: int| 0 <= y < reordered.len() implies occurs(#[trigger] reordered[y], ordered) by {
        assert(occurs(reordered[y], relisted));
        let j = choose|j: int| 0 <= j < relisted.len() && relisted[j] == reordered[y];
        assert(occurs(relisted[j], listed));
        let i = choose|i: int| 0 <= i < listed.len() && listed[i] == relisted[j];
        assert(occurs(listed[i], ordered));
    }
    lemma_sorted_sources_unique(ordered, reordered);
}

/// A package digest: `sha256:` and 64 lowercase hexadecimal digits.
pub open spec fn is_package_digest(d: Seq<char>) -> bool {
    d.len() == 71 && d.subrange(0, 7) == "sha256:"@ && crate::text::is_lower_hex_text(d.subrange(7, 71), 64)
}

/// The display name of the draft agent of agent `name`: the name and ` (draft)`.
pub fn draft_display_name(name: &str) -> (r: String)
    ensures
        r@ == name@ + " (draft)"@,
{
    let mut out = String::new();
    append_text(&mut out, name);
    append_text(&mut out, " (draft)");
    out
}

/// The idempotency key of the turn a draft session `session_id` is started with:
/// `dev-` and the session's id, so a repeated request queues the turn once.
pub fn dev_turn_key(session_id: &str) -> (r: String)
    ensures
        r@ == "dev-"@ + session_id@,
{
    let mut out = String::new();
    append_text(&mut out, "dev-");
    append_text(&mut out, session_id);
    out
}

/// Whether `d` is a package digest: `sha256:` and 64 lowercase hexadecimal digits.
pub fn package_digest_ok(d: &str) -> (r: bool)
    ensures
        r == is_package_digest(d@),
{
    let v = chars_of(d);
    if v.len() != 71 {
        return false;
    }
    let prefix = ['s', 'h', 'a', '2', '5', '6', ':'];
    proof {
        reveal_strlit("sha256:");
    }
    assert(prefix@ =~= "sha256:"@);
    let mut i: usize = 0;
    while i < 7
        invariant
            i <= 7,
            v@ == d@,
            v@.len() == 71,
            prefix@ == "sha256:"@,
            forall|k: int| 0 <= k < i ==> v@[k] == prefix@[k],
        decreases 7 - i,
    {
        if v[i] != prefix[i] {
            assert(d@.subrange(0, 7)[i as int] != "sha256:"@[i as int]);
            return false;
        }
        i = i + 1;
    }
    assert(d@.subrange(0, 7) =~= "sha256:"@);
    let mut hex: Vec<char> = Vec::new();
    push_range(&mut hex, v.as_slice(), 7, 71);
    let tail = string_of(hex.as_slice());
    let r = crate::text::lower_hex_text(tail.as_str(), 64);
    assert(tail@ =~= d@.subrange(7, 71));
    r
}

/// The slug of the draft agent for a package of agent `name` with digest `digest`:
/// the name, `-draft-` and the first twelve digits of the digest.
pub fn draft_slug(name: &str, digest: &str) -> (r: String)
    requires
        is_package_digest(digest@),
    ensures
        r@ == name@ + "-draft-"@ + digest@.subrange(7, 19),
{
    let d = chars_of(digest);
    let mut out = String::new();
    append_text(&mut out, name);
    append_text(&mut out, "-draft-");
    let mut i: usize = 7;
    while i < 19
        invariant
            7 <= i <= 19,
            d@ == digest@,
            d@.len() == 71,
            out@ == name@ + "-draft-"@ + d@.subrange(7, i as int),
        decreases 19 - i,
    {
        out.push(d[i]);
        i = i + 1;
        assert(d@.subrange(7, i as int) =~= d@.subrange(7, i - 1).push(d@[i - 1]));
    }
    out
}

/// The text of a source file, when it is UTF-8 without NUL.
pub open spec fn safe_file_spec(bytes: Seq<u8>) -> Option<Seq<char>> {
    if !vstd::utf8::valid_utf8(bytes) || vstd::utf8::decode_utf8(bytes).contains('\0') {
        None
    } else {
        Some(vstd::utf8::decode_utf8(bytes))
    }
}

/// How a source file that is not UTF-8 without NUL is refused: with the
/// decoder's account when it is not UTF-8, otherwise for its NUL byte.
pub open spec fn file_refusal(bytes: Seq<u8>, e: AuthoringError) -> bool {
    if !vstd::utf8::valid_utf8(bytes) {
        e matches AuthoringError::NotUtf8(t) && t@ == utf8_error_text_of(bytes)
    } else {
        e == AuthoringError::NulByte
    }
}

fn has_prefix_text(s: &str, p: &str) -> (r: bool)
    ensures
        r == starts_with(s@, p@),
{
    let a = chars_of(s);
    let b = chars_of(p);
    crate::text::has_prefix(a.as_slice(), b.as_slice())
}

fn has_source_exec(s: &Vec<PackagedSource>, path: &str, kind: SourceKind) -> (r: bool)
    ensures
        r == has_source(source_views(s@), path@, kind),
{
    let mut j: usize = 0;
    while j < s.len()
        invariant
            j <= s@.len(),
            forall|k: int| 0 <= k < j ==> !((#[trigger] s@[k]).path@ == path@ && s@[k].kind == kind),
        decreases s@.len() - j,
    {
        if text_equal(s[j].path.as_str(), path) && s[j].kind == kind {
            assert(source_views(s@)[j as int] == s@[j as int]@);
            return true;
        }
        j = j + 1;
    }
    proof {
        if has_source(source_views(s@), path@, kind) {
            let k = choose|k: int| 0 <= k < source_views(s@).len() && (#[trigger] source_views(s@)[k]).path == path@
                && source_views(s@)[k].kind == kind;
            assert(source_views(s@)[k] == s@[k]@);
        }
    }
    false
}

/// The parent skill file of the asset at `path`.
fn parent_skill_exec(path: &str) -> (r: String)
    ensures
        r@ == parent_skill(path@),
{
    let parts = split_on(path, '/');
    let depth: usize = if has_prefix_text(path, "agents/") { 4 } else { 2 };
    let n = if parts.len() < depth { parts.len() } else { depth };
    let joined = join_first(&parts, n);
    let mut out = string_of(joined.as_slice());
    append_text(&mut out, "/SKILL.md");
    out
}

/// Checks that every named agent's source has its instructions and every asset its
/// parent skill.
fn check_parents(s: &Vec<PackagedSource>) -> (r: Result<(), AuthoringError>)
    ensures
        r == spec_parents(source_views(s@), 0),
{
    let ghost views = source_views(s@);
    let mut i: usize = 0;
    while i < s.len()
        invariant
            i <= s@.len(),
            views == source_views(s@),
            spec_parents(views, 0) == spec_parents(views, i as int),
        decreases s@.len() - i,
    {
        let path = s[i].path.as_str();
        assert(views[i as int] == s@[i as int]@);
        if has_prefix_text(path, "agents/") {
            let parts = split_on(path, '/');
            proof {
                let v = parts@.map_values(|w: Vec<char>| w@);
                assert(v.len() >= 2) by {
                    assert(starts_with(path@, "agents/"@));
                    crate::text::lemma_split_after_prefix(path@);
                }
                assert(v[1] == parts@[1]@);
            }
            let mut wanted = String::new();
            append_text(&mut wanted, "agents/");
            let agent = string_of(parts[1].as_slice());
            append_text(&mut wanted, agent.as_str());
            append_text(&mut wanted, "/instructions.md");
            if !has_source_exec(s, wanted.as_str(), SourceKind::AgentMd) {
                return Err(AuthoringError::MissingAgentInstructions);
            }
        }
        if s[i].kind == SourceKind::SkillAsset {
            let skill = parent_skill_exec(path);
            if !has_source_exec(s, skill.as_str(), SourceKind::AgentSkill) {
                return Err(AuthoringError::MissingSkill);
            }
        }
        i = i + 1;
    }
    Ok(())
}

proof fn lemma_insert_point(before: Seq<PackagedSourceView>, xv: PackagedSourceView, p: int)
    requires
        0 <= p <= before.len(),
        sorted_by_path(before),
        forall|j: int| 0 <= j < before.len() ==> (#[trigger] before[j]).path != xv.path,
        forall|k: int| 0 <= k < p ==> text_lt(#[trigger] before[k].path, xv.path),
        p < before.len() ==> !text_lt(before[p].path, xv.path),
    ensures
        forall|k: int| p <= k < before.len() ==> text_lt(xv.path, #[trigger] before[k].path),
{
    assert forall|k: int| p <= k < before.len() implies text_lt(xv.path, #[trigger] before[k].path) by {
        assert(before[p].path != xv.path);
        lemma_text_lt_total(xv.path, before[p].path);
        if k > p {
            lemma_text_lt_transitive(xv.path, before[p].path, before[k].path);
        }
    }
}

proof fn lemma_insert_sorted(before: Seq<PackagedSourceView>, xv: PackagedSourceView, p: int)
    requires
        0 <= p <= before.len(),
        sorted_by_path(before),
        forall|k: int| 0 <= k < p ==> text_lt(#[trigger] before[k].path, xv.path),
        forall|k: int| p <= k < before.len() ==> text_lt(xv.path, #[trigger] before[k].path),
    ensures
        sorted_by_path(before.insert(p, xv)),
{
    let after = before.insert(p, xv);
    assert forall|a: int, b: int| 0 <= a < b < after.len() implies text_lt(after[a].path, after[b].path) by {
        if b < p {
            assert(after[a] == before[a] && after[b] == before[b]);
        } else if b == p {
            assert(after[a] == before[a]);
        } else if a < p {
            assert(after[a] == before[a] && after[b] == before[b - 1]);
            lemma_text_lt_transitive(before[a].path, xv.path, before[b - 1].path);
        } else if a == p {
            assert(after[b] == before[b - 1]);
        } else {
            assert(after[a] == before[a - 1] && after[b] == before[b - 1]);
        }
    }
}

proof fn lemma_insert_same(before: Seq<PackagedSourceView>, xv: PackagedSourceView, p: int, prior: Seq<PackagedSourceView>)
    requires
        0 <= p <= before.len(),
        same_sources(before, prior),
    ensures
        same_sources(before.insert(p, xv), prior.push(xv)),
{
    let after = before.insert(p, xv);
    let target = prior.push(xv);
    assert forall|a: int| 0 <= a < after.len() implies occurs(#[trigger] after[a], target) by {
        if a < p {
            assert(occurs(before[a], prior));
            let j = choose|j: int| 0 <= j < prior.len() && prior[j] == before[a];
            assert(after[a] == before[a]);
            assert(target[j] == prior[j]);
        } else if a == p {
            assert(after[a] == target[prior.len() as int]);
        } else {
            assert(occurs(before[a - 1], prior));
            let j = choose|j: int| 0 <= j < prior.len() && prior[j] == before[a - 1];
            assert(after[a] == before[a - 1]);
            assert(target[j] == prior[j]);
        }
    }
    assert forall|j: int| 0 <= j < target.len() implies occurs(#[trigger] target[j], after) by {
        if j == prior.len() {
            assert(after[p] == target[j]);
        } else {
            assert(occurs(prior[j], before));
            let a = choose|a: int| 0 <= a < before.len() && before[a] == prior[j];
            assert(target[j] == prior[j]);
            if a < p {
                assert(after[a] == before[a]);
            } else {
                assert(after[a + 1] == before[a]);
            }
        }
    }
}

/// Inserts `x` into `out`, kept in increasing path order, where no source has
/// its path; returns where it went.
fn insert_by_path(out: &mut Vec<PackagedSource>, x: PackagedSource) -> (p: usize)
    requires
        sorted_by_path(source_views(old(out)@)),
        forall|k: int| 0 <= k < old(out)@.len() ==> (#[trigger] old(out)@[k]).path@ != x.path@,
    ensures
        p <= old(out)@.len(),
        source_views(final(out)@) == source_views(old(out)@).insert(p as int, x@),
        sorted_by_path(source_views(final(out)@)),
{
    let ghost before = source_views(out@);
    let mut p: usize = 0;
    while p < out.len() && text_before(out[p].path.as_str(), x.path.as_str())
        invariant
            p <= out@.len(),
            before == source_views(out@),
            forall|k: int| 0 <= k < p ==> text_lt(#[trigger] before[k].path, x.path@),
        decreases out@.len() - p,
    {
        assert(before[p as int] == out@[p as int]@);
        p = p + 1;
    }
    let ghost xv = x@;
    proof {
        if p < out@.len() {
            assert(before[p as int] == out@[p as int]@);
        }
        assert forall|j: int| 0 <= j < before.len() implies (#[trigger] before[j]).path != xv.path by {
            assert(before[j] == out@[j]@);
        }
        lemma_insert_point(before, xv, p as int);
        lemma_insert_sorted(before, xv, p as int);
    }
    let ghost old_out = out@;
    out.insert(p, x);
    proof {
        assert(out@ == old_out.insert(p as int, x));
        assert(source_views(out@) =~= before.insert(p as int, xv));
    }
    p
}

/// The sources of `s` in strictly increasing path order.
fn sort_by_path(s: &Vec<PackagedSource>) -> (r: Vec<PackagedSource>)
    requires
        paths_distinct(source_views(s@)),
    ensures
        sorted_by_path(source_views(r@)),
        same_sources(source_views(r@), source_views(s@)),
        r@.len() == s@.len(),
{
    let ghost sv = source_views(s@);
    let mut out: Vec<PackagedSource> = Vec::new();
    let mut i: usize = 0;
    assert(source_views(out@) =~= Seq::<PackagedSourceView>::empty());
    assert(sv.take(0) =~= Seq::<PackagedSourceView>::empty());
    while i < s.len()
        invariant
            i <= s@.len(),
            sv == source_views(s@),
            paths_distinct(sv),
            out@.len() == i,
            sorted_by_path(source_views(out@)),
            same_sources(source_views(out@), sv.take(i as int)),
        decreases s@.len() - i,
    {
        let x = s[i].clone();
        let ghost before = source_views(out@);
        let ghost xv = x@;
        proof {
            assert(xv == sv[i as int]);
            assert forall|k: int| 0 <= k < out@.len() implies (#[trigger] out@[k]).path@ != xv.path by {
                assert(before[k] == out@[k]@);
                assert(occurs(before[k], sv.take(i as int)));
                let j = choose|j: int| 0 <= j < sv.take(i as int).len() && sv.take(i as int)[j] == before[k];
                assert(sv.take(i as int)[j] == sv[j]);
            }
        }
        let p = insert_by_path(&mut out, x);
        proof {
            lemma_insert_same(before, xv, p as int, sv.take(i as int));
            assert(sv.take(i + 1) =~= sv.take(i as int).push(xv));
        }
        i = i + 1;
    }
    assert(sv.take(s@.len() as int) =~= sv);
    out
}

/// The canonical definition of a package whose sources, in order, are `s`.
fn definition(s: &Vec<PackagedSource>) -> (r: String)
    ensures
        r@ == definition_text(source_views(s@)),
{
    let ghost sv = source_views(s@);
    let mut text = String::new();
    append_text(&mut text, "{\"schema\":\"sikaru.agent.contract.v1\",\"sources\":[");
    let ghost head = text@;
    let mut i: usize = 0;
    assert(sv.take(0) =~= Seq::<PackagedSourceView>::empty());
    while i < s.len()
        invariant
            i <= s@.len(),
            sv == source_views(s@),
            text@ == head + sources_json(sv.take(i as int)),
        decreases s@.len() - i,
    {
        if i > 0 {
            append_text(&mut text, ",");
        }
        let x = &s[i];
        assert(sv[i as int] == x@);
        append_text(&mut text, "{\"content\":");
        append_text(&mut text, json_string(x.content.as_str()).as_str());
        if x.kind == SourceKind::SkillAsset {
            append_text(&mut text, ",\"encoding\":\"base64\",\"kind\":");
        } else {
            append_text(&mut text, ",\"kind\":");
        }
        append_text(&mut text, json_string(x.kind.as_str()).as_str());
        append_text(&mut text, ",\"path\":");
        append_text(&mut text, json_string(x.path.as_str()).as_str());
        append_text(&mut text, "}");
        proof {
            assert(sv.take(i + 1).drop_last() =~= sv.take(i as int));
            if i == 0 {
                assert(text@ =~= head + sources_json(sv.take(1)));
            } else {
                assert(text@ =~= head + sources_json(sv.take(i + 1)));
            }
        }
        i = i + 1;
    }
    append_text(&mut text, "]}");
    assert(sv.take(s@.len() as int) =~= sv);
    assert(text@ =~= definition_text(sv));
    text
}


/// An asset of a skill is accepted in each of the skill's asset folders: a path
/// `skills/NAME/FOLDER/FILE` with a valid skill name, `FOLDER` one of `scripts`,
/// `references` and `assets`, and a file name, has kind `skill_asset`.
pub proof fn law_skill_assets_in_each_folder(name: Seq<char>, folder: Seq<char>, file: Seq<char>)
    requires
        valid_segment(name),
        folder == "scripts"@ || folder == "references"@ || folder == "assets"@,
        !file.contains('/'),
    ensures
        spec_source_kind("skills/"@ + name + "/"@ + folder + "/"@ + file, "skill_asset"@) == Ok::<
            SourceKind,
            AuthoringError,
        >(SourceKind::SkillAsset),
{
    reveal_strlit("skills/");
    reveal_strlit("skills");
    reveal_strlit("/");
    reveal_strlit("scripts");
    reveal_strlit("references");
    reveal_strlit("assets");
    reveal_strlit("agents");
    reveal_strlit("agent_md");
    reveal_strlit("agent_skill");
    reveal_strlit("skill_asset");
    let sk = "skills"@;
    let path = "skills/"@ + name + "/"@ + folder + "/"@ + file;
    let tail2 = folder + seq!['/'] + file;
    let tail1 = name + seq!['/'] + tail2;
    assert(path =~= sk + seq!['/'] + tail1);
    assert(!name.contains('/')) by {
        if name.contains('/') {
            let i = choose|i: int| 0 <= i < name.len() && name[i] == '/';
            assert(is_alnum(name[i]) || name[i] == '_' || name[i] == '-');
        }
    }
    assert(!folder.contains('/')) by {
        if folder.contains('/') {
            let i = choose|i: int| 0 <= i < folder.len() && folder[i] == '/';
        }
    }
    assert(!sk.contains('/')) by {
        if sk.contains('/') {
            let i = choose|i: int| 0 <= i < sk.len() && sk[i] == '/';
        }
    }
    lemma_split_join(sk, tail1, '/');
    lemma_split_join(name, tail2, '/');
    lemma_split_join(folder, file, '/');
    lemma_split_single(sk, '/');
    lemma_split_single(name, '/');
    lemma_split_single(folder, '/');
    lemma_split_single(file, '/');
    let parts = split_parts(path, '/');
    assert(parts =~= seq![sk, name, folder, file]);
    assert(parts[0] != "agents"@) by {
        assert(parts[0][0] != "agents"@[0]);
    }
    assert("skill_asset"@ != "agent_md"@) by {
        assert("skill_asset"@[1] != "agent_md"@[1]);
    }
    assert("skill_asset"@ != "agent_skill"@) by {
        assert("skill_asset"@[1] != "agent_skill"@[1]);
    }
}

} // verus!
