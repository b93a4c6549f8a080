//! Skills: pluggable transformations of source material into a proposed
//! wiki page, the two built-in skills, and the registry that finds skills
//! by id.

use vstd::prelude::*;
use crate::diff::{generate_diff, line_diff, rendered};
use crate::text::text_equals;

verus! {

broadcast use {vstd::map::group_map_axioms, vstd::set::group_set_axioms};

/// What a skill works on.
#[derive(Debug, Clone)]
pub struct SkillContext {
    pub instruction: Option<String>,
    pub original_content: String,
    pub source_path: Option<String>,
    /// `my-wiki` or `agent-wiki`.
    pub target_wiki: Option<String>,
}

/// Metadata a skill attaches to its proposal.
#[derive(Debug, Clone)]
pub struct SkillMeta {
    pub source: Option<String>,
    pub created_by: String,
    pub wiki_type: Option<String>,
}

/// What a skill proposes.
#[derive(Debug, Clone)]
pub struct SkillOutput {
    pub proposed_content: String,
    pub diff: Option<String>,
    pub title_suggestion: Option<String>,
    pub meta: Option<SkillMeta>,
}

/// A skill.
pub trait Skill {
    /// The skill's id.
    spec fn spec_id(&self) -> Seq<char>;

    /// The skill's name.
    spec fn spec_name(&self) -> Seq<char>;

    /// The skill's unique id.
    fn id(&self) -> (r: &'static str)
        ensures
            r@ == self.spec_id(),
    ;

    /// The name shown for the skill.
    fn name(&self) -> (r: &'static str)
        ensures
            r@ == self.spec_name(),
    ;

    /// Runs the skill on a context.
    fn execute(&self, context: SkillContext) -> Result<SkillOutput, String>;
}

/// Text after the source material in an organized page.
pub open spec fn sources_footer() -> Seq<char> {
    "\n\n## Sources\n- Extracted from raw notes."@
}

/// The heading an automatically organized page starts with.
pub open spec fn auto_heading() -> Seq<char> {
    "# 自动整理结果\n\n"@
}

/// The prompt of the organize skill.
pub open spec fn organize_prompt_text(instruction: Option<Seq<char>>, source: Seq<char>) -> Seq<char> {
    "You are a wiki author. Write a clear, well-structured markdown page.\n"@
        + "Draw facts only from the provided source material.\n"@
        + "Include a ## Sources section at the end listing the source document.\n"@
        + "Suggest [[wikilinks]] to related concepts where appropriate.\n\n"@ + match instruction {
        Some(i) => "User Instruction: "@ + i + "\n\n"@,
        None => Seq::empty(),
    } + "--- SOURCE MATERIAL ---\n\n"@ + source
}

/// The prompt of the automatic organization skill.
pub open spec fn auto_prompt_text(source: Seq<char>) -> Seq<char> {
    "You are the knowledge compiler for an LLM wiki.\n"@
        + "Your job is to read a new raw source, extract distinct concepts, and make the wiki more coherent and better linked.\n"@
        + "Assign an evidence_type to each claim: EXTRACTED | INFERRED.\n"@
        + "Use [[wikilink]] syntax for all cross-references.\n\n"@ + "--- SOURCE MATERIAL ---\n\n"@
        + source
}

/// The view of an optional string.
pub open spec fn opt_view(o: Option<String>) -> Option<Seq<char>> {
    match o {
        Some(s) => Some(s@),
        None => None,
    }
}

/// Whether `out` is what the organize skill proposes for `content` taken
/// from `source`: the content followed by a sources section, its diff
/// against the content, the title `整理后的页面`, and metadata naming the
/// source and the AI as author, with no wiki type.
pub open spec fn organized(content: Seq<char>, source: Option<Seq<char>>, out: SkillOutput) -> bool {
    &&& out.proposed_content@ == content + sources_footer()
    &&& out.diff matches Some(d) && d@ == rendered(line_diff(content, out.proposed_content@))
    &&& out.title_suggestion matches Some(t) && t@ == "整理后的页面"@
    &&& out.meta matches Some(m) && opt_view(m.source) == source && m.created_by@ == "ai"@
        && m.wiki_type is None
}

/// Whether `out` is what the automatic organization skill proposes for
/// `content` taken from `source`: the content under the heading
/// `# 自动整理结果`, its diff against the content, the title `自动提取的知识点`,
/// and metadata naming the source, the AI as author and the agent wiki.
pub open spec fn auto_extracted(content: Seq<char>, source: Option<Seq<char>>, out: SkillOutput) -> bool {
    &&& out.proposed_content@ == auto_heading() + content
    &&& out.diff matches Some(d) && d@ == rendered(line_diff(content, out.proposed_content@))
    &&& out.title_suggestion matches Some(t) && t@ == "自动提取的知识点"@
    &&& out.meta matches Some(m) && opt_view(m.source) == source && m.created_by@ == "ai"@
        && opt_view(m.wiki_type) == Some("agent-wiki"@)
}

/// Organize To Wiki (整理到 Wiki): turns source material into a wiki page
/// with a sources section.
pub struct OrganizeToWikiSkill;

impl OrganizeToWikiSkill {
    /// The prompt for the model.
    pub fn prompt(&self, context: &SkillContext) -> (r: String)
        ensures
            r@ == organize_prompt_text(opt_view(context.instruction), context.original_content@),
    {
        let mut prompt = String::from_str(
            "You are a wiki author. Write a clear, well-structured markdown page.\n",
        );
        prompt.append("Draw facts only from the provided source material.\n");
        prompt.append("Include a ## Sources section at the end listing the source document.\n");
        prompt.append("Suggest [[wikilinks]] to related concepts where appropriate.\n\n");
        match &context.instruction {
            Some(inst) => {
                prompt.append("User Instruction: ");
                prompt.append(inst.as_str());
                prompt.append("\n\n");
            },
            None => {},
        }
        prompt.append("--- SOURCE MATERIAL ---\n\n");
        prompt.append(context.original_content.as_str());
        prompt
    }
}

impl Skill for OrganizeToWikiSkill {
    open spec fn spec_id(&self) -> Seq<char> {
        "organize_to_wiki"@
    }

    open spec fn spec_name(&self) -> Seq<char> {
        "整理到 Wiki"@
    }

    fn id(&self) -> (r: &'static str) {
        "organize_to_wiki"
    }

    fn name(&self) -> (r: &'static str) {
        "整理到 Wiki"
    }

    /// The source material followed by a sources section, its diff against
    /// the source, the suggested title `整理后的页面`, and metadata naming the
    /// source path and the AI as author (see `organized`).
    fn execute(&self, context: SkillContext) -> (r: Result<SkillOutput, String>)
        ensures
            r matches Ok(out) && organized(context.original_content@, opt_view(context.source_path), out),
    {
        let _prompt = self.prompt(&context);
        let mut proposed_content = context.original_content.clone();
        proposed_content.append("\n\n## Sources\n- Extracted from raw notes.");
        let diff = generate_diff(context.original_content.as_str(), proposed_content.as_str());
        Ok(
            SkillOutput {
                proposed_content,
                diff: Some(diff),
                title_suggestion: Some(String::from_str("整理后的页面")),
                meta: Some(
                    SkillMeta {
                        source: context.source_path,
                        created_by: String::from_str("ai"),
                        wiki_type: None,
                    },
                ),
            },
        )
    }
}

/// AI auto organization (AI 自动整理): files source material under a heading
/// for the agent wiki.
pub struct AutoAgentSkill;

impl AutoAgentSkill {
    /// The prompt for the model.
    pub fn prompt(&self, context: &SkillContext) -> (r: String)
        ensures
            r@ == auto_prompt_text(context.original_content@),
    {
        let mut prompt = String::from_str("You are the knowledge compiler for an LLM wiki.\n");
        prompt.append(
            "Your job is to read a new raw source, extract distinct concepts, and make the wiki more coherent and better linked.\n",
        );
        prompt.append("Assign an evidence_type to each claim: EXTRACTED | INFERRED.\n");
        prompt.append("Use [[wikilink]] syntax for all cross-references.\n\n");
        prompt.append("--- SOURCE MATERIAL ---\n\n");
        prompt.append(context.original_content.as_str());
        prompt
    }
}

impl Skill for AutoAgentSkill {
    open spec fn spec_id(&self) -> Seq<char> {
        "auto_agent_extract"@
    }

    open spec fn spec_name(&self) -> Seq<char> {
        "AI 自动整理"@
    }

    fn id(&self) -> (r: &'static str) {
        "auto_agent_extract"
    }

    fn name(&self) -> (r: &'static str) {
        "AI 自动整理"
    }

    /// The source material under the heading `# 自动整理结果`, its diff
    /// against the source, the suggested title `自动提取的知识点`, and
    /// metadata naming the source path, the AI as author and the agent wiki
    /// (see `auto_extracted`).
    fn execute(&self, context: SkillContext) -> (r: Result<SkillOutput, String>)
        ensures
            r matches Ok(out) && auto_extracted(context.original_content@, opt_view(context.source_path), out),
    {
        let _prompt = self.prompt(&context);
        let mut proposed_content = String::from_str("# 自动整理结果\n\n");
        proposed_content.append(context.original_content.as_str());
        let diff = generate_diff(context.original_content.as_str(), proposed_content.as_str());
        Ok(
            SkillOutput {
                proposed_content,
                diff: Some(diff),
                title_suggestion: Some(String::from_str("自动提取的知识点")),
                meta: Some(
                    SkillMeta {
                        source: context.source_path,
                        created_by: String::from_str("ai"),
                        wiki_type: Some(String::from_str("agent-wiki")),
                    },
                ),
            },
        )
    }
}


/// Either built-in skill, so that both can share one registry.
pub enum BuiltinSkill {
    OrganizeToWiki(OrganizeToWikiSkill),
    AutoAgent(AutoAgentSkill),
}

impl Skill for BuiltinSkill {
    open spec fn spec_id(&self) -> Seq<char> {
        match self {
            BuiltinSkill::OrganizeToWiki(s) => s.spec_id(),
            BuiltinSkill::AutoAgent(s) => s.spec_id(),
        }
    }

    open spec fn spec_name(&self) -> Seq<char> {
        match self {
            BuiltinSkill::OrganizeToWiki(s) => s.spec_name(),
            BuiltinSkill::AutoAgent(s) => s.spec_name(),
        }
    }

    fn id(&self) -> (r: &'static str) {
        match self {
            BuiltinSkill::OrganizeToWiki(s) => s.id(),
            BuiltinSkill::AutoAgent(s) => s.id(),
        }
    }

    fn name(&self) -> (r: &'static str) {
        match self {
            BuiltinSkill::OrganizeToWiki(s) => s.name(),
            BuiltinSkill::AutoAgent(s) => s.name(),
        }
    }

    /// What the wrapped skill gives.
    fn execute(&self, context: SkillContext) -> (r: Result<SkillOutput, String>)
        ensures
            r is Ok,
            self matches BuiltinSkill::OrganizeToWiki(_) ==> organized(
                context.original_content@,
                opt_view(context.source_path),
                r.unwrap(),
            ),
            self matches BuiltinSkill::AutoAgent(_) ==> auto_extracted(
                context.original_content@,
                opt_view(context.source_path),
                r.unwrap(),
            ),
    {
        match self {
            BuiltinSkill::OrganizeToWiki(s) => s.execute(context),
            BuiltinSkill::AutoAgent(s) => s.execute(context),
        }
    }
}

/// A registry holding both built-in skills.
pub fn builtin_registry() -> (r: SkillRegistry<BuiltinSkill>)
    ensures
        r.skill_map().dom() == set!["organize_to_wiki"@, "auto_agent_extract"@],
        r.skill_map()["organize_to_wiki"@] is OrganizeToWiki,
        r.skill_map()["auto_agent_extract"@] is AutoAgent,
{
    proof {
        reveal_strlit("organize_to_wiki");
        reveal_strlit("auto_agent_extract");
        assert("organize_to_wiki"@[0] != "auto_agent_extract"@[0]);
    }
    let mut r = SkillRegistry::new();
    r.register(BuiltinSkill::OrganizeToWiki(OrganizeToWikiSkill));
    r.register(BuiltinSkill::AutoAgent(AutoAgentSkill));
    assert(r.skill_map().dom() =~= set!["organize_to_wiki"@, "auto_agent_extract"@]);
    r
}

/// The ids of a list of skills, in order.
pub open spec fn skill_ids<S: Skill>(skills: Seq<S>) -> Seq<Seq<char>> {
    skills.map_values(|s: S| s.spec_id())
}

proof fn lemma_index_of_unique<A>(s: Seq<A>, j: int)
    requires
        s.no_duplicates(),
        0 <= j < s.len(),
    ensures
        s.index_of(s[j]) == j,
{
    assert(s.contains(s[j]));
    let i = s.index_of(s[j]);
    assert(0 <= i < s.len() && s[i] == s[j]);
}

/// Skills by id.  A registry holds skills of one type; `BuiltinSkill`
/// holds either built-in skill.
pub struct SkillRegistry<S: Skill> {
    skills: Vec<S>,
}

impl<S: Skill> SkillRegistry<S> {
    #[verifier::type_invariant]
    spec fn ids_distinct(&self) -> bool {
        skill_ids(self.skills@).no_duplicates()
    }

    /// The registered skills, by id.
    pub closed spec fn skill_map(&self) -> Map<Seq<char>, S> {
        let ids = skill_ids(self.skills@);
        Map::new(|k: Seq<char>| ids.contains(k), |k: Seq<char>| self.skills@[ids.index_of(k)])
    }

    /// An empty registry.
    pub fn new() -> (r: Self)
        ensures
            r.skill_map() == Map::<Seq<char>, S>::empty(),
    {
        let r = SkillRegistry { skills: Vec::new() };
        assert(r.skill_map() =~= Map::<Seq<char>, S>::empty());
        r
    }

    /// Registers a skill under its id, replacing a skill registered under
    /// the same id; the other skills stay.
    pub fn register(&mut self, skill: S)
        ensures
            final(self).skill_map() == old(self).skill_map().insert(skill.spec_id(), skill),
    {
        proof {
            use_type_invariant(&*self);
        }
        let ghost old_skills = self.skills@;
        let ghost ids = skill_ids(old_skills);
        let id = skill.id();
        let mut i: usize = 0;
        let mut found = false;
        while i < self.skills.len() && !found
            invariant
                i <= self.skills.len(),
                self.skills@ == old_skills,
                ids == skill_ids(old_skills),
                id@ == skill.spec_id(),
                found ==> i < self.skills.len() && ids[i as int] == id@,
                !found ==> forall|k: int| 0 <= k < i ==> ids[k] != id@,
            decreases self.skills.len() - i + (if found { 0int } else { 1int }),
        {
            if text_equals(self.skills[i].id(), id) {
                found = true;
            } else {
                i = i + 1;
            }
        }
        let ghost new_map = old(self).skill_map().insert(skill.spec_id(), skill);
        if found {
            assert(ids[i as int] == id@);
            let mut skills: Vec<S> = Vec::new();
            std::mem::swap(&mut skills, &mut self.skills);
            skills.set(i, skill);
            proof {
                assert(skill_ids(skills@) =~= ids);
            }
            self.skills = skills;
            proof {
                let nids = skill_ids(self.skills@);
                assert(nids =~= ids);
                lemma_index_of_unique(ids, i as int);
                assert forall|k: Seq<char>| #[trigger] nids.contains(k) implies self.skills@[nids.index_of(k)]
                    == new_map[k] by {
                    let j = nids.index_of(k);
                    assert(0 <= j < nids.len() && nids[j] == k);
                    lemma_index_of_unique(ids, j);
                }
                assert(self.skill_map() =~= new_map);
            }
        } else {
            let mut skills: Vec<S> = Vec::new();
            std::mem::swap(&mut skills, &mut self.skills);
            skills.push(skill);
            proof {
                assert(skill_ids(skills@) =~= ids.push(id@));
            }
            self.skills = skills;
            proof {
                let nids = skill_ids(self.skills@);
                assert(nids =~= ids.push(id@));
                assert(nids.no_duplicates());
                lemma_index_of_unique(nids, ids.len() as int);
                assert forall|k: Seq<char>| #[trigger] nids.contains(k) implies self.skills@[nids.index_of(k)]
                    == new_map[k] by {
                    let j = nids.index_of(k);
                    assert(0 <= j < nids.len() && nids[j] == k);
                    lemma_index_of_unique(nids, j);
                    if j < ids.len() {
                        assert(ids[j] == k);
                        lemma_index_of_unique(ids, j);
                    }
                }
                assert forall|k: Seq<char>| #[trigger] nids.contains(k) <==> new_map.dom().contains(k) by {
                    if ids.contains(k) {
                        let j = ids.index_of(k);
                        assert(nids[j] == k);
                    }
                    if nids.contains(k) && k != id@ {
                        let j = nids.index_of(k);
                        assert(ids[j] == k);
                    }
                }
                assert(self.skill_map() =~= new_map);
            }
        }
    }

    /// The skill registered under `id`, if any.
    pub fn get_skill(&self, id: &str) -> (r: Option<&S>)
        ensures
            match r {
                Some(s) => self.skill_map().dom().contains(id@) && *s == self.skill_map()[id@],
                None => !self.skill_map().dom().contains(id@),
            },
    {
        proof {
            use_type_invariant(self);
        }
        let ghost ids = skill_ids(self.skills@);
        let mut i: usize = 0;
        while i < self.skills.len()
            invariant
                i <= self.skills.len(),
                ids == skill_ids(self.skills@),
                ids.no_duplicates(),
                forall|k: int| 0 <= k < i ==> ids[k] != id@,
            decreases self.skills.len() - i,
        {
            if text_equals(self.skills[i].id(), id) {
                proof {
                    lemma_index_of_unique(ids, i as int);
                }
                return Some(&self.skills[i]);
            }
            i = i + 1;
        }
        None
    }

    /// The id and name of every registered skill, each skill once.
    pub fn list_skills(&self) -> (r: Vec<(&'static str, &'static str)>)
        ensures
            r@.len() == self.skill_map().dom().len(),
            forall|k: Seq<char>|
                self.skill_map().dom().contains(k) <==> exists|i: int|
                    0 <= i < r@.len() && #[trigger] r@[i].0@ == k,
            forall|i: int|
                0 <= i < r@.len() ==> self.skill_map().dom().contains(r@[i].0@) && r@[i].1@
                    == self.skill_map()[r@[i].0@].spec_name(),
    {
        proof {
            use_type_invariant(self);
        }
        let ghost ids = skill_ids(self.skills@);
        let mut r: Vec<(&'static str, &'static str)> = Vec::new();
        let mut i: usize = 0;
        while i < self.skills.len()
            invariant
                i <= self.skills.len(),
                ids == skill_ids(self.skills@),
                ids.no_duplicates(),
                r@.len() == i,
                forall|k: int| 0 <= k < i ==> r@[k].0@ == ids[k] && r@[k].1@ == self.skills@[k].spec_name(),
            decreases self.skills.len() - i,
        {
            let s = &self.skills[i];
            r.push((s.id(), s.name()));
            i = i + 1;
        }
        proof {
            ids.unique_seq_to_set();
            assert(self.skill_map().dom() =~= ids.to_set());
            assert forall|k: Seq<char>|
                self.skill_map().dom().contains(k) <==> exists|i: int|
                    0 <= i < r@.len() && #[trigger] r@[i].0@ == k by {
                if self.skill_map().dom().contains(k) {
                    assert(ids.contains(k));
                    let j = ids.index_of(k);
                    assert(0 <= j < ids.len() && ids[j] == k);
                    assert(r@[j].0@ == k);
                }
                if exists|i: int| 0 <= i < r@.len() && #[trigger] r@[i].0@ == k {
                    let i = choose|i: int| 0 <= i < r@.len() && #[trigger] r@[i].0@ == k;
                    assert(ids[i] == k);
                    assert(ids.contains(k));
                }
            }
            assert forall|i: int| 0 <= i < r@.len() implies self.skill_map().dom().contains(r@[i].0@)
                && r@[i].1@ == self.skill_map()[r@[i].0@].spec_name() by {
                assert(ids.contains(ids[i]));
                lemma_index_of_unique(ids, i);
            }
        }
        r
    }
}

impl<S: Skill> Default for SkillRegistry<S> {
    /// An empty registry.
    fn default() -> (r: Self)
        ensures
            r.skill_map() == Map::<Seq<char>, S>::empty(),
    {
        Self::new()
    }
}

/// Registering a skill makes it the one found under its id, and leaves the
/// skills under every other id as they were.
pub proof fn lemma_register_then_get<S: Skill>(before: Map<Seq<char>, S>, skill: S, other: Seq<char>)
    requires
        other != skill.spec_id(),
    ensures
        before.insert(skill.spec_id(), skill).dom().contains(skill.spec_id()),
        before.insert(skill.spec_id(), skill)[skill.spec_id()] == skill,
        before.insert(skill.spec_id(), skill).dom().contains(other) == before.dom().contains(other),
        before.dom().contains(other) ==> before.insert(skill.spec_id(), skill)[other] == before[other],
{
}


/// A skill as listed for the user.
#[derive(Debug, Clone)]
pub struct SkillInfo {
    pub id: String,
    pub name: String,
}

/// A request to run a skill on some content.
#[derive(Debug, Clone)]
pub struct ExecuteSkillPayload {
    pub skill_id: String,
    pub original_content: String,
    pub instruction: Option<String>,
    pub source_path: Option<String>,
    pub target_wiki: Option<String>,
}

/// Whether `info` lists a built-in skill: its id with its name.
pub open spec fn lists_builtin(id: Seq<char>, name: Seq<char>) -> bool {
    (id == "organize_to_wiki"@ && name == "整理到 Wiki"@) || (id == "auto_agent_extract"@ && name
        == "AI 自动整理"@)
}

/// The built-in skills, each once, with their ids and names.
pub fn list_skills() -> (r: Vec<SkillInfo>)
    ensures
        r@.len() == 2,
        r@[0].id@ != r@[1].id@,
        forall|i: int| 0 <= i < r@.len() ==> lists_builtin(#[trigger] r@[i].id@, r@[i].name@),
{
    let registry = builtin_registry();
    proof {
        reveal_strlit("organize_to_wiki");
        reveal_strlit("auto_agent_extract");
        assert("organize_to_wiki"@ != "auto_agent_extract"@) by {
            assert("organize_to_wiki"@[0] != "auto_agent_extract"@[0]);
        }
        let d = set!["organize_to_wiki"@, "auto_agent_extract"@];
        assert(d =~= set!["organize_to_wiki"@].insert("auto_agent_extract"@));
        assert(registry.skill_map().dom().len() == 2);
    }
    let listed = registry.list_skills();
    proof {
        assert forall|i: int| 0 <= i < listed@.len() implies lists_builtin(
            #[trigger] listed@[i].0@,
            listed@[i].1@,
        ) by {
            let k = listed@[i].0@;
            assert(registry.skill_map().dom().contains(k));
        }
        let k0 = listed@[0].0@;
        let k1 = listed@[1].0@;
        if k0 == k1 {
            assert(registry.skill_map().dom().contains("organize_to_wiki"@));
            assert(registry.skill_map().dom().contains("auto_agent_extract"@));
            let ia = choose|i: int| 0 <= i < listed@.len() && #[trigger] listed@[i].0@ == "organize_to_wiki"@;
            let ib = choose|i: int| 0 <= i < listed@.len() && #[trigger] listed@[i].0@ == "auto_agent_extract"@;
            assert(false);
        }
    }
    let mut r: Vec<SkillInfo> = Vec::new();
    let mut i: usize = 0;
    while i < listed.len()
        invariant
            i <= listed.len(),
            r@.len() == i,
            forall|k: int| 0 <= k < i ==> r@[k].id@ == listed@[k].0@ && r@[k].name@ == listed@[k].1@,
        decreases listed.len() - i,
    {
        let (id, name) = listed[i];
        r.push(SkillInfo { id: String::from_str(id), name: String::from_str(name) });
        i = i + 1;
    }
    r
}

/// The error text for an unknown skill.
pub open spec fn skill_not_found(id: Seq<char>) -> Seq<char> {
    "Skill not found: "@ + id
}

/// Runs the built-in skill that the payload names on its content: the
/// error `Skill not found: <id>` when no built-in skill has that id.
pub fn execute_skill(payload: ExecuteSkillPayload) -> (r: Result<SkillOutput, String>)
    ensures
        payload.skill_id@ == "organize_to_wiki"@ ==> r is Ok && organized(
            payload.original_content@,
            opt_view(payload.source_path),
            r.unwrap(),
        ),
        payload.skill_id@ == "auto_agent_extract"@ ==> r is Ok && auto_extracted(
            payload.original_content@,
            opt_view(payload.source_path),
            r.unwrap(),
        ),
        payload.skill_id@ != "organize_to_wiki"@ && payload.skill_id@ != "auto_agent_extract"@ ==> (r
            matches Err(e) && e@ == skill_not_found(payload.skill_id@)),
{
    let registry = builtin_registry();
    let found = registry.get_skill(payload.skill_id.as_str());
    match found {
        None => {
            let mut e = String::from_str("Skill not found: ");
            e.append(payload.skill_id.as_str());
            Err(e)
        },
        Some(skill) => {
            let context = SkillContext {
                instruction: payload.instruction,
                original_content: payload.original_content,
                source_path: payload.source_path,
                target_wiki: payload.target_wiki,
            };
            proof {
                reveal_strlit("organize_to_wiki");
                reveal_strlit("auto_agent_extract");
                assert("organize_to_wiki"@[0] != "auto_agent_extract"@[0]);
            }
            skill.execute(context)
        },
    }
}

} // verus!
