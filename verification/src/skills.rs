//! Skills: named capabilities that an agent advertises and can be told to use.

use vstd::prelude::*;

use crate::context::{instructions_only, no_context, AIContext};
use crate::table::Table;
use crate::text::{
    cat5, char_index, chars_of, find, find_char, find_from, law_char_index_is_the_first, split, split_on, stands, stands_at, str_eq, string_of, trim,
    trimmed,
};
use crate::types::clone_opt_string;

verus! {

/// Supplementary content attached to a skill.
#[derive(Debug)]
pub struct SkillResource {
    /// Resource identifier.
    pub name: String,
    /// MIME type hint.
    pub media_type: Option<String>,
    /// The resource content.
    pub content: String,
}

/// What a resource holds.
#[verifier::ext_equal]
pub struct SkillResourceView {
    pub name: Seq<char>,
    pub media_type: Option<Seq<char>>,
    pub content: Seq<char>,
}

impl View for SkillResource {
    type V = SkillResourceView;

    open spec fn view(&self) -> SkillResourceView {
        SkillResourceView { name: self.name@, media_type: self.media_type.deep_view(), content: self.content@ }
    }
}

impl DeepView for SkillResource {
    type V = SkillResourceView;

    open spec fn deep_view(&self) -> SkillResourceView {
        self@
    }
}

impl Clone for SkillResource {
    fn clone(&self) -> (copy: Self)
        ensures
            copy@ == self@,
    {
        SkillResource {
            name: self.name.clone(),
            media_type: clone_opt_string(&self.media_type),
            content: self.content.clone(),
        }
    }
}

/// A named, self-describing agent capability.
#[derive(Debug)]
pub struct Skill {
    /// Unique skill identifier.
    pub name: String,
    /// Human-readable description shown to the model.
    pub description: String,
    /// Detailed instructions that are injected when the skill is activated.
    pub instructions: Option<String>,
    /// Supplementary resources.
    pub resources: Vec<SkillResource>,
}

/// What a skill holds.
#[verifier::ext_equal]
pub struct SkillView {
    pub name: Seq<char>,
    pub description: Seq<char>,
    pub instructions: Option<Seq<char>>,
    pub resources: Seq<SkillResourceView>,
}

impl View for Skill {
    type V = SkillView;

    open spec fn view(&self) -> SkillView {
        SkillView {
            name: self.name@,
            description: self.description@,
            instructions: self.instructions.deep_view(),
            resources: self.resources.deep_view(),
        }
    }
}

impl DeepView for Skill {
    type V = SkillView;

    open spec fn deep_view(&self) -> SkillView {
        self@
    }
}

impl Clone for Skill {
    fn clone(&self) -> (copy: Self)
        ensures
            copy@ == self@,
    {
        let resources = self.resources.clone();
        assert(resources.deep_view() =~= self.resources.deep_view());
        Skill {
            name: self.name.clone(),
            description: self.description.clone(),
            instructions: clone_opt_string(&self.instructions),
            resources,
        }
    }
}

/// A script that belongs to a skill.
#[derive(Debug)]
pub struct SkillScript {
    /// The skill this script belongs to.
    pub skill: Skill,
    /// The script content.
    pub script: String,
}

/// The first skill of a name.
pub open spec fn skill_named(skills: Seq<SkillView>, name: Seq<char>) -> Option<SkillView>
    decreases skills.len(),
{
    if skills.len() == 0 {
        None
    } else {
        match skill_named(skills.drop_last(), name) {
            Some(skill) => Some(skill),
            None => if skills.last().name == name {
                Some(skills.last())
            } else {
                None
            },
        }
    }
}

/// A skill found among the first ones is the one found among all.
proof fn lemma_skill_named(skills: Seq<SkillView>, name: Seq<char>, n: int)
    requires
        0 <= n <= skills.len(),
        skill_named(skills.take(n), name) is Some,
    ensures
        skill_named(skills, name) == skill_named(skills.take(n), name),
    decreases skills.len() - n,
{
    if n < skills.len() {
        assert(skills.take(n + 1).drop_last() =~= skills.take(n));
        lemma_skill_named(skills, name, n + 1);
    } else {
        assert(skills.take(n) =~= skills);
    }
}

/// The first skill of a name.
pub fn find_skill<'a>(skills: &'a Vec<Skill>, name: &str) -> (found: Option<&'a Skill>)
    ensures
        match found {
            Some(skill) => skill_named(skills.deep_view(), name@) == Some(skill@),
            None => skill_named(skills.deep_view(), name@) is None,
        },
{
    let ghost all = skills.deep_view();
    let mut i: usize = 0;
    while i < skills.len()
        invariant
            i <= skills@.len(),
            all == skills.deep_view(),
            skill_named(all.take(i as int), name@) is None,
        decreases skills@.len() - i,
    {
        assert(all.take(i + 1).drop_last() =~= all.take(i as int));
        if str_eq(skills[i].name.as_str(), name) {
            proof {
                lemma_skill_named(all, name@, i + 1);
            }
            return Some(&skills[i]);
        }
        i += 1;
    }
    assert(all.take(i as int) =~= all);
    None
}

/// A skill source backed by a list.
#[derive(Debug)]
pub struct InMemorySkillSource {
    pub skills: Vec<Skill>,
}

impl Default for InMemorySkillSource {
    fn default() -> (source: Self)
        ensures
            source.skills.deep_view() == Seq::<SkillView>::empty(),
    {
        InMemorySkillSource::new()
    }
}

impl InMemorySkillSource {
    /// A source without skills.
    pub fn new() -> (source: Self)
        ensures
            source.skills.deep_view() == Seq::<SkillView>::empty(),
    {
        let source = InMemorySkillSource { skills: Vec::new() };
        assert(source.skills.deep_view() =~= Seq::<SkillView>::empty());
        source
    }

    /// The source with one more skill.
    pub fn add(self, skill: Skill) -> (source: Self)
        ensures
            source.skills.deep_view() == self.skills.deep_view().push(skill@),
    {
        let mut source = self;
        source.skills.push(skill);
        assert(source.skills.deep_view() =~= self.skills.deep_view().push(skill@));
        source
    }

    /// All skills of the source.
    pub fn list_skills(&self) -> (skills: Vec<Skill>)
        ensures
            skills.deep_view() == self.skills.deep_view(),
    {
        let skills = self.skills.clone();
        assert(skills.deep_view() =~= self.skills.deep_view());
        skills
    }

    /// The first skill of a name.
    pub fn get_skill(&self, name: &str) -> (found: Option<Skill>)
        ensures
            found.deep_view() == skill_named(self.skills.deep_view(), name@),
    {
        match find_skill(&self.skills, name) {
            Some(skill) => Some(skill.clone()),
            None => None,
        }
    }
}

// ---------------------------------------------------------------------------
// Skill files
// ---------------------------------------------------------------------------

/// The key and the value of a line of a front matter: what stands before and
/// after its first colon, without white space around them.
pub open spec fn key_value(line: Seq<char>) -> Option<(Seq<char>, Seq<char>)> {
    let t = trimmed(line);
    match char_index(t, ':') {
        Some(i) => Some((trimmed(t.take(i)), trimmed(t.skip(i + 1)))),
        None => None,
    }
}

/// The fields that lines set, one after the other.
pub open spec fn fields_of(lines: Seq<Seq<char>>) -> Map<Seq<char>, Seq<char>>
    decreases lines.len(),
{
    if lines.len() == 0 {
        Map::empty()
    } else {
        match key_value(lines.last()) {
            Some((key, value)) => fields_of(lines.drop_last()).insert(key, value),
            None => fields_of(lines.drop_last()),
        }
    }
}

/// The front matter of a text and what follows it. A text that does not start
/// with a block between two lines of dashes is all body.
pub open spec fn front_matter(content: Seq<char>) -> (Map<Seq<char>, Seq<char>>, Seq<char>) {
    let t = trimmed(content);
    if stands_at(t, "---"@, 0) {
        let after = t.skip(3);
        match find_from(after, "---"@, 0) {
            Some(end) => (fields_of(split_on(after.take(end), '\n')), after.skip(end + 3)),
            None => (Map::empty(), content),
        }
    } else {
        (Map::empty(), content)
    }
}

/// Set the field that a line states, if it states one.
fn add_field(fields: &mut Table<String>, line: &str)
    ensures
        final(fields)@ == match key_value(line@) {
            Some((key, value)) => old(fields)@.insert(key, value),
            None => old(fields)@,
        },
{
    let t = trim(line);
    let chars = chars_of(t.as_str());
    if let Some(i) = find_char(&chars, ':') {
        let key = trim(string_of(&chars, 0, i).as_str());
        let value = trim(string_of(&chars, i + 1, chars.len()).as_str());
        assert(chars@.subrange(0, i as int) =~= chars@.take(i as int));
        assert(chars@.subrange(i + 1, chars@.len() as int) =~= chars@.skip(i + 1));
        fields.insert(key.as_str(), value);
    }
}

/// Split a text into the fields of its front matter and its body.
pub fn parse_frontmatter(content: &str) -> (parts: (Table<String>, String))
    ensures
        parts.0@ == front_matter(content@).0,
        parts.1@ == front_matter(content@).1,
{
    let mut fields: Table<String> = Table::new();
    let t = trim(content);
    let chars = chars_of(t.as_str());
    let dashes = chars_of("---");
    proof {
        reveal_strlit("---");
    }
    if !stands(&chars, &dashes, 0) {
        return (fields, content.to_owned());
    }
    let after = chars_of(string_of(&chars, 3, chars.len()).as_str());
    assert(after@ =~= trimmed(content@).skip(3));
    match find(&after, &dashes, 0) {
        Some(end) => {
            let block = string_of(&after, 0, end);
            assert(block@ =~= after@.take(end as int));
            let lines = split(block.as_str(), '\n');
            let ghost all = lines.deep_view();
            let mut i: usize = 0;
            while i < lines.len()
                invariant
                    i <= lines@.len(),
                    all == lines.deep_view(),
                    fields@ == fields_of(all.take(i as int)),
                decreases lines@.len() - i,
            {
                assert(all.take(i + 1).drop_last() =~= all.take(i as int));
                add_field(&mut fields, lines[i].as_str());
                i += 1;
            }
            assert(all.take(i as int) =~= all);
            let body = string_of(&after, end + 3, after.len());
            assert(body@ =~= after@.skip(end + 3));
            (fields, body)
        },
        None => (fields, content.to_owned()),
    }
}

/// The skill that a file states. `directory` is the name of the directory that
/// the file stands in.
pub open spec fn skill_of_file(content: Seq<char>, directory: Option<Seq<char>>) -> SkillView {
    let (fields, body) = front_matter(content);
    let name = if fields.dom().contains("name"@) {
        fields["name"@]
    } else {
        match directory {
            Some(d) => d,
            None => "unnamed"@,
        }
    };
    SkillView {
        name,
        description: if fields.dom().contains("description"@) {
            fields["description"@]
        } else {
            name
        },
        instructions: if trimmed(body).len() == 0 {
            None
        } else {
            Some(body)
        },
        resources: Seq::empty(),
    }
}

/// A source that finds skills in files named `SKILL.md` under a directory.
#[derive(Debug)]
pub struct FileSkillSource {
    /// The path of the directory.
    pub root: String,
}

impl FileSkillSource {
    /// A source for the skill files under a directory.
    pub fn new(root: &str) -> (source: Self)
        ensures
            source.root@ == root@,
    {
        FileSkillSource { root: root.to_owned() }
    }

    /// Whether a file of this name states a skill.
    pub fn is_skill_file(file_name: &str) -> (yes: bool)
        ensures
            yes == (file_name@ == "SKILL.md"@),
    {
        str_eq(file_name, "SKILL.md")
    }

    /// The skill that a file states, from its content and the name of its directory.
    pub fn parse_skill_file(content: &str, directory: Option<&str>) -> (skill: Skill)
        ensures
            skill@ == skill_of_file(content@, directory.deep_view()),
    {
        let (fields, body) = parse_frontmatter(content);
        let name = match fields.get("name") {
            Some(name) => name.clone(),
            None => match directory {
                Some(d) => d.to_owned(),
                None => "unnamed".to_owned(),
            },
        };
        let description = match fields.get("description") {
            Some(description) => description.clone(),
            None => name.clone(),
        };
        let instructions = if trim(body.as_str()).as_str().is_empty() {
            None
        } else {
            Some(body)
        };
        let skill = Skill { name, description, instructions, resources: Vec::new() };
        assert(skill.resources.deep_view() =~= Seq::empty());
        skill
    }
}

// ---------------------------------------------------------------------------
// Provider
// ---------------------------------------------------------------------------

/// Advertises skills to the model, and injects the instructions of the active ones.
#[derive(Debug)]
pub struct SkillsProvider {
    /// Names of the skills whose instructions are injected.
    pub active_skills: Vec<String>,
}

/// The skills of several sources.
pub open spec fn skills_of_all(sources: Seq<Seq<SkillView>>) -> Seq<SkillView>
    decreases sources.len(),
{
    if sources.len() == 0 {
        Seq::empty()
    } else {
        skills_of_all(sources.drop_last()) + sources.last()
    }
}

/// The lines that advertise skills.
pub open spec fn directory_text(skills: Seq<SkillView>) -> Seq<char>
    decreases skills.len(),
{
    if skills.len() == 0 {
        "## Available Skills\n\n"@
    } else {
        directory_text(skills.drop_last()) + ("- **"@ + skills.last().name + "**: "@ + skills.last().description
            + "\n"@)
    }
}

/// The section of a skill that is active, empty if it has no instructions.
pub open spec fn active_section(skills: Seq<SkillView>, name: Seq<char>) -> Seq<char> {
    match skill_named(skills, name) {
        Some(skill) => match skill.instructions {
            Some(text) => "\n### Skill: "@ + skill.name + "\n\n"@ + text + "\n"@,
            None => Seq::empty(),
        },
        None => Seq::empty(),
    }
}

/// The sections of the active skills, in the order in which they were activated.
pub open spec fn active_sections(skills: Seq<SkillView>, active: Seq<Seq<char>>) -> Seq<char>
    decreases active.len(),
{
    if active.len() == 0 {
        Seq::empty()
    } else {
        active_sections(skills, active.drop_last()) + active_section(skills, active.last())
    }
}

impl Default for SkillsProvider {
    fn default() -> (provider: Self)
        ensures
            provider.active_skills.deep_view() == Seq::<Seq<char>>::empty(),
    {
        SkillsProvider::new()
    }
}

impl SkillsProvider {
    /// A provider without active skills.
    pub fn new() -> (provider: Self)
        ensures
            provider.active_skills.deep_view() == Seq::<Seq<char>>::empty(),
    {
        let provider = SkillsProvider { active_skills: Vec::new() };
        assert(provider.active_skills.deep_view() =~= Seq::<Seq<char>>::empty());
        provider
    }

    /// Activate specific skills by name.
    pub fn activate(self, skills: Vec<String>) -> (provider: Self)
        ensures
            provider.active_skills == skills,
    {
        SkillsProvider { active_skills: skills }
    }

    /// The skills of all sources, source by source.
    pub fn all_skills(sources: Vec<Vec<Skill>>) -> (skills: Vec<Skill>)
        ensures
            skills.deep_view() == skills_of_all(sources.deep_view()),
    {
        let ghost all = sources.deep_view();
        let mut rest = sources;
        let mut skills: Vec<Skill> = Vec::new();
        let ghost mut done: int = 0;
        assert(all.skip(0) =~= all);
        assert(skills.deep_view() =~= Seq::<SkillView>::empty());
        while rest.len() > 0
            invariant
                0 <= done <= all.len(),
                rest.deep_view() == all.skip(done),
                skills.deep_view() == skills_of_all(all.take(done)),
            decreases rest@.len(),
        {
            let ghost before = rest.deep_view();
            let ghost collected = skills.deep_view();
            let mut source = rest.remove(0);
            let ghost added = source.deep_view();
            assert(before.len() > 0);
            assert(before[0] == added);
            assert(rest.deep_view() =~= before.skip(1));
            assert(all.take(done + 1).drop_last() =~= all.take(done));
            skills.append(&mut source);
            assert(skills.deep_view() =~= collected + added);
            proof {
                done = done + 1;
            }
            assert(rest.deep_view() =~= all.skip(done));
        }
        assert(rest.deep_view().len() == 0);
        assert(all.take(done) =~= all);
        skills
    }

    /// The context that the skills of all sources make: none if there are no
    /// skills, else the list of them and the sections of the active ones.
    pub fn context_for(&self, skills: &Vec<Skill>) -> (context: AIContext)
        ensures
            context@ == if skills@.len() == 0 {
                no_context()
            } else {
                instructions_only(
                    directory_text(skills.deep_view()) + active_sections(
                        skills.deep_view(),
                        self.active_skills.deep_view(),
                    ),
                )
            },
    {
        if skills.len() == 0 {
            return AIContext::default();
        }
        let mut text = "## Available Skills\n\n".to_owned();
        let ghost all = skills.deep_view();
        let mut i: usize = 0;
        while i < skills.len()
            invariant
                i <= skills@.len(),
                all == skills.deep_view(),
                text@ == directory_text(all.take(i as int)),
            decreases skills@.len() - i,
        {
            assert(all.take(i + 1).drop_last() =~= all.take(i as int));
            let line = cat5("- **", skills[i].name.as_str(), "**: ", skills[i].description.as_str(), "\n");
            text.append(line.as_str());
            i += 1;
        }
        assert(all.take(i as int) =~= all);
        let ghost head = text@;
        let ghost active = self.active_skills.deep_view();
        assert(head + Seq::<char>::empty() =~= head);
        let mut k: usize = 0;
        while k < self.active_skills.len()
            invariant
                k <= self.active_skills@.len(),
                all == skills.deep_view(),
                active == self.active_skills.deep_view(),
                text@ == head + active_sections(all, active.take(k as int)),
            decreases self.active_skills@.len() - k,
        {
            assert(active.take(k + 1).drop_last() =~= active.take(k as int));
            let ghost before = active_sections(all, active.take(k as int));
            assert(before + Seq::<char>::empty() =~= before);
            if let Some(skill) = find_skill(skills, self.active_skills[k].as_str()) {
                if let Some(instructions) = &skill.instructions {
                    let section = cat5("\n### Skill: ", skill.name.as_str(), "\n\n", instructions.as_str(), "\n");
                    text.append(section.as_str());
                    assert(text@ =~= head + (before + section@));
                }
            }
            k += 1;
        }
        assert(active.take(k as int) =~= active);
        AIContext::of_instructions(text)
    }
}

// ---------------------------------------------------------------------------
// Laws of skills
// ---------------------------------------------------------------------------

/// The skill of a name is the first one of that name, and there is none only if no skill
/// has it.
pub proof fn law_first_skill_of_a_name(skills: Seq<SkillView>, name: Seq<char>)
    ensures
        match skill_named(skills, name) {
            Some(skill) => exists|i: int|
                {
                    &&& 0 <= i < skills.len()
                    &&& #[trigger] skills[i] == skill
                    &&& skill.name == name
                    &&& forall|k: int| 0 <= k < i ==> (#[trigger] skills[k]).name != name
                },
            None => forall|k: int| 0 <= k < skills.len() ==> (#[trigger] skills[k]).name != name,
        },
    decreases skills.len(),
{
    if skills.len() > 0 {
        let rest = skills.drop_last();
        law_first_skill_of_a_name(rest, name);
        assert forall|k: int| 0 <= k < rest.len() implies (#[trigger] skills[k]) == rest[k] by {}
        match skill_named(rest, name) {
            Some(skill) => {
                let i = choose|i: int|
                    {
                        &&& 0 <= i < rest.len()
                        &&& #[trigger] rest[i] == skill
                        &&& skill.name == name
                        &&& forall|k: int| 0 <= k < i ==> (#[trigger] rest[k]).name != name
                    };
                assert(skills[i] == skill);
                assert forall|k: int| 0 <= k < i implies (#[trigger] skills[k]).name != name by {
                    assert(rest[k].name != name);
                }
            },
            None => {
                assert forall|k: int| 0 <= k < rest.len() implies (#[trigger] skills[k]).name != name by {
                    assert(rest[k].name != name);
                }
                assert(skills[skills.len() - 1] == skills.last());
            },
        }
    }
}

/// A line of a front matter sets the field before its first colon to what follows it,
/// both without white space around them; a line without a colon sets nothing, and a
/// later line wins.
pub proof fn law_lines_set_fields(lines: Seq<Seq<char>>, line: Seq<char>, key: Seq<char>, value: Seq<char>)
    ensures
        fields_of(Seq::empty()) == Map::<Seq<char>, Seq<char>>::empty(),
        key_value(line) is None ==> fields_of(lines.push(line)) == fields_of(lines),
        key_value(line) matches Some(field) ==> fields_of(lines.push(line)) == fields_of(lines).insert(
            field.0,
            field.1,
        ),
        key_value(line) is Some <==> trimmed(line).contains(':'),
        trimmed(line) == key + seq![':'] + value && !key.contains(':') ==> key_value(line) == Some(
            (trimmed(key), trimmed(value)),
        ),
{
    assert(lines.push(line).drop_last() =~= lines);
    let t = trimmed(line);
    law_char_index_is_the_first(t, ':');
    if trimmed(line) == key + seq![':'] + value && !key.contains(':') {
        let n = key.len() as int;
        assert(t[n] == ':');
        let i = char_index(t, ':')->Some_0;
        if i < n {
            assert(t[i] == key[i]);
            assert(key.contains(key[i]));
        }
        assert(i == n);
        assert(t.take(n) =~= key);
        assert(t.skip(n + 1) =~= value);
    }
}

/// A text that starts with a block between two marks of dashes has the fields that the
/// lines of the block set, and the rest is its body; any other text is all body.
pub proof fn law_front_matter(content: Seq<char>, block: Seq<char>, body: Seq<char>)
    ensures
        trimmed(content) == "---"@ + block + "---"@ + body && find_from(block + "---"@ + body, "---"@, 0) == Some(
            block.len() as int,
        ) ==> front_matter(content).0 == fields_of(split_on(block, '\n')) && front_matter(content).1 == body,
        !stands_at(trimmed(content), "---"@, 0) ==> front_matter(content).0 == Map::<Seq<char>, Seq<char>>::empty()
            && front_matter(content).1 == content,
        stands_at(trimmed(content), "---"@, 0) && find_from(trimmed(content).skip(3), "---"@, 0) is None
            ==> front_matter(content).0 == Map::<Seq<char>, Seq<char>>::empty() && front_matter(content).1 == content,
{
    reveal_strlit("---");
    if trimmed(content) == "---"@ + block + "---"@ + body && find_from(block + "---"@ + body, "---"@, 0) == Some(
        block.len() as int,
    ) {
        let t = trimmed(content);
        assert(t.subrange(0, 3) =~= "---"@);
        assert(t.skip(3) =~= block + "---"@ + body);
        assert(t.skip(3).take(block.len() as int) =~= block);
        assert(t.skip(3).skip((block.len() + 3) as int) =~= body);
    }
}

/// A skill file states the skill of the name and the description in its front matter;
/// without a name it has that of its directory, without a description its name, and its
/// body is the instructions unless it is blank.
pub proof fn law_skill_files(content: Seq<char>, directory: Option<Seq<char>>)
    ensures
        ({
            let fields = front_matter(content).0;
            let body = front_matter(content).1;
            let skill = skill_of_file(content, directory);
            &&& fields.dom().contains("name"@) ==> skill.name == fields["name"@]
            &&& !fields.dom().contains("name"@) && directory is Some ==> skill.name == directory->0
            &&& !fields.dom().contains("name"@) && directory is None ==> skill.name == "unnamed"@
            &&& fields.dom().contains("description"@) ==> skill.description == fields["description"@]
            &&& !fields.dom().contains("description"@) ==> skill.description == skill.name
            &&& trimmed(body).len() == 0 ==> skill.instructions is None
            &&& trimmed(body).len() > 0 ==> skill.instructions == Some(body)
            &&& skill.resources.len() == 0
        }),
{
}

/// The model is told of every skill, by its name and description, in order; and of an
/// active one its instructions, under its name. A name that no skill has adds nothing,
/// nor does a skill without instructions.
pub proof fn law_skills_are_advertised(
    skills: Seq<SkillView>,
    skill: SkillView,
    active: Seq<Seq<char>>,
    name: Seq<char>,
    sources: Seq<Seq<SkillView>>,
)
    ensures
        directory_text(Seq::empty()) == "## Available Skills\n\n"@,
        directory_text(skills.push(skill)) == directory_text(skills) + ("- **"@ + skill.name + "**: "@
            + skill.description + "\n"@),
        active_sections(skills, Seq::empty()).len() == 0,
        active_sections(skills, active.push(name)) == active_sections(skills, active) + active_section(skills, name),
        skill_named(skills, name) is None ==> active_section(skills, name).len() == 0,
        skill_named(skills, name) is Some && skill_named(skills, name)->0.instructions is None ==> active_section(
            skills,
            name,
        ).len() == 0,
        skill_named(skills, name) is Some && skill_named(skills, name)->0.instructions is Some ==> active_section(
            skills,
            name,
        ) == "\n### Skill: "@ + skill_named(skills, name)->0.name + "\n\n"@ + skill_named(
            skills,
            name,
        )->0.instructions->0 + "\n"@,
        skills_of_all(Seq::empty()).len() == 0,
        skills_of_all(sources.push(skills)) == skills_of_all(sources) + skills,
{
    assert(skills.push(skill).drop_last() =~= skills);
    assert(active.push(name).drop_last() =~= active);
    assert(sources.push(skills).drop_last() =~= sources);
}

/// The model of a skill has all that the skill holds, and that of a resource too.
pub proof fn law_skill_model_is_complete(skill: Skill, resource: SkillResource)
    ensures
        skill@.name == skill.name@,
        skill@.description == skill.description@,
        skill@.instructions == skill.instructions.deep_view(),
        skill@.resources == skill.resources.deep_view(),
        resource@.name == resource.name@,
        resource@.media_type == resource.media_type.deep_view(),
        resource@.content == resource.content@,
{
}

} // verus!
