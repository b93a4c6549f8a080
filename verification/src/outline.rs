//! Wiki generation in three phases: an outline from the documents, one
//! section per outline line, and the merge of the sections.

use vstd::prelude::*;
use crate::text::{decimal, decimal_string, split_on, split_string, trim, trim_string, text_equals, views, chars_of, push_char};
use crate::paths::{join, path_join, file_name, path_file_name};

verus! {

/// One section of a generated wiki.
#[derive(Debug, Clone)]
pub struct WikiSection {
    pub title: String,
    pub content: String,
}

impl WikiSection {
    /// A section with the same title and content.
    pub fn duplicate(&self) -> (r: WikiSection)
        ensures
            r.title@ == self.title@,
            r.content@ == self.content@,
    {
        WikiSection { title: self.title.clone(), content: self.content.clone() }
    }
}

/// A generated wiki: its sections in order.
#[derive(Debug)]
pub struct WikiOutline {
    pub sections: Vec<WikiSection>,
}

/// The writing styles a wiki can be asked for.
#[derive(Debug, Clone, Copy, PartialEq, Eq, Structural)]
pub enum WikiStyle {
    Literary,
    Technical,
    Simple,
    Detailed,
}

impl Default for WikiStyle {
    /// The technical style.
    fn default() -> (s: Self)
        ensures
            s == WikiStyle::Technical,
    {
        WikiStyle::Technical
    }
}

/// The name of each style.
pub open spec fn style_name(style: WikiStyle) -> Seq<char> {
    match style {
        WikiStyle::Literary => "文艺风格"@,
        WikiStyle::Technical => "技术风格"@,
        WikiStyle::Simple => "简洁风格"@,
        WikiStyle::Detailed => "详细风格"@,
    }
}

impl WikiStyle {
    /// The style's name.
    pub fn as_str(&self) -> (r: &'static str)
        ensures
            r@ == style_name(*self),
    {
        match self {
            WikiStyle::Literary => "文艺风格",
            WikiStyle::Technical => "技术风格",
            WikiStyle::Simple => "简洁风格",
            WikiStyle::Detailed => "详细风格",
        }
    }
}

/// The style a request names: the literary, simple or detailed style by
/// its name, and the technical style for anything else or nothing.
pub open spec fn requested_style(name: Option<Seq<char>>) -> WikiStyle {
    match name {
        Some(n) => if n == style_name(WikiStyle::Literary) {
            WikiStyle::Literary
        } else if n == style_name(WikiStyle::Simple) {
            WikiStyle::Simple
        } else if n == style_name(WikiStyle::Detailed) {
            WikiStyle::Detailed
        } else {
            WikiStyle::Technical
        },
        None => WikiStyle::Technical,
    }
}

/// The style that a request's style name selects (see `requested_style`).
pub fn style_from_request(name: Option<&str>) -> (s: WikiStyle)
    ensures
        s == requested_style(match name {
            Some(n) => Some(n@),
            None => None,
        }),
{
    match name {
        Some(n) => {
            if text_equals(n, "文艺风格") {
                WikiStyle::Literary
            } else if text_equals(n, "简洁风格") {
                WikiStyle::Simple
            } else if text_equals(n, "详细风格") {
                WikiStyle::Detailed
            } else {
                WikiStyle::Technical
            }
        },
        None => WikiStyle::Technical,
    }
}

/// The outline the coordinator writes for `n` documents.
pub open spec fn outline_text(style: WikiStyle, n: nat) -> Seq<char> {
    "# Wiki Outline ("@ + style_name(style) + ")\n\nBased on "@ + decimal(n) + " documents provided."@
}

/// The coordinator's outline for the documents.
pub fn coordinator_generate_outline(docs: &[String], style: &WikiStyle) -> (r: String)
    ensures
        r@ == outline_text(*style, docs@.len()),
{
    let mut r = String::from_str("# Wiki Outline (");
    r.append(style.as_str());
    r.append(")\n\nBased on ");
    let n = decimal_string(docs.len() as u64);
    r.append(n.as_str());
    r.append(" documents provided.");
    r
}

/// The content a worker writes for the section titled `title`.
pub open spec fn section_text(title: Seq<char>, style: WikiStyle, n: nat) -> Seq<char> {
    "Content for '"@ + title + "' in "@ + style_name(style) + " style. Based on "@ + decimal(n)
        + " docs."@
}

/// A worker's content for one section.
pub fn worker_generate_section(section_title: &str, docs: &[String], style: &WikiStyle) -> (r: String)
    ensures
        r@ == section_text(section_title@, *style, docs@.len()),
{
    let mut r = String::from_str("Content for '");
    r.append(section_title);
    r.append("' in ");
    r.append(style.as_str());
    r.append(" style. Based on ");
    let n = decimal_string(docs.len() as u64);
    r.append(n.as_str());
    r.append(" docs.");
    r
}

/// The merged sections: the same sections, in the same order.
pub fn merger_merge_sections(sections: &[WikiSection]) -> (r: Vec<WikiSection>)
    ensures
        r@.len() == sections@.len(),
        forall|i: int|
            0 <= i < r@.len() ==> r@[i].title@ == sections@[i].title@ && r@[i].content@
                == sections@[i].content@,
{
    let mut r: Vec<WikiSection> = Vec::new();
    let mut i: usize = 0;
    while i < sections.len()
        invariant
            i <= sections.len(),
            r@.len() == i,
            forall|k: int|
                0 <= k < i ==> r@[k].title@ == sections@[k].title@ && r@[k].content@
                    == sections@[k].content@,
        decreases sections.len() - i,
    {
        r.push(sections[i].duplicate());
        i = i + 1;
    }
    r
}

/// The trimmed lines that are not blank, in order.
pub open spec fn nonblank_lines(lines: Seq<Seq<char>>) -> Seq<Seq<char>>
    decreases lines.len(),
{
    if lines.len() == 0 {
        Seq::empty()
    } else {
        let rest = nonblank_lines(lines.drop_last());
        let t = trim(lines.last());
        if t.len() > 0 {
            rest.push(t)
        } else {
            rest
        }
    }
}

/// The outline's entries: the lines of the text, trimmed, blank ones left out.
pub open spec fn outline_entries(text: Seq<char>) -> Seq<Seq<char>> {
    nonblank_lines(split_on(text, '\n'))
}

/// The outline's entries are its lines, each trimmed, with the blank ones
/// left out, in order.
pub proof fn lemma_outline_entries_are_trimmed_lines(lines: Seq<Seq<char>>)
    ensures
        nonblank_lines(lines) == lines.map_values(|l: Seq<char>| trim(l)).filter(|t: Seq<char>| t.len() > 0),
    decreases lines.len(),
{
    reveal(Seq::filter);
    let f = |l: Seq<char>| trim(l);
    let p = |t: Seq<char>| t.len() > 0;
    if lines.len() > 0 {
        lemma_outline_entries_are_trimmed_lines(lines.drop_last());
        let m = lines.map_values(f);
        assert(m.drop_last() =~= lines.drop_last().map_values(f));
        assert(m.last() == trim(lines.last()));
    } else {
        assert(lines.map_values(f) =~= Seq::<Seq<char>>::empty());
    }
}

/// The title of the section at index `i`: `Section <i + 1>`.
pub open spec fn numbered_title(i: nat) -> Seq<char> {
    "Section "@ + decimal(i + 1)
}

/// The sections of an outline: one per entry, in order, titled by position.
pub fn parse_outline(outline_text: &str) -> (r: Vec<WikiSection>)
    ensures
        r@.len() == outline_entries(outline_text@).len(),
        forall|i: int| 0 <= i < r@.len() ==> r@[i].title@ == numbered_title(i as nat),
        forall|i: int| 0 <= i < r@.len() ==> r@[i].content@ == outline_entries(outline_text@)[i],
{
    let lines = split_string(outline_text, '\n');
    let ghost ls = split_on(outline_text@, '\n');
    let mut r: Vec<WikiSection> = Vec::new();
    let mut i: usize = 0;
    while i < lines.len()
        invariant
            i <= lines.len(),
            views(lines@) == ls,
            r@.len() == nonblank_lines(ls.take(i as int)).len(),
            r@.len() <= i,
            forall|k: int|
                0 <= k < r@.len() ==> r@[k].title@ == numbered_title(k as nat) && r@[k].content@
                    == nonblank_lines(ls.take(i as int))[k],
        decreases lines.len() - i,
    {
        let t = trim_string(lines[i].as_str());
        assert(views(lines@)[i as int] == lines@[i as int]@);
        assert(ls.take(i + 1).drop_last() =~= ls.take(i as int));
        assert(ls.take(i + 1).last() == ls[i as int]);
        let ghost prev = nonblank_lines(ls.take(i as int));
        if chars_of(t.as_str()).len() > 0 {
            let mut title = String::from_str("Section ");
            let n = decimal_string((r.len() + 1) as u64);
            title.append(n.as_str());
            let ghost k = r@.len() as int;
            r.push(WikiSection { title, content: t });
            assert(nonblank_lines(ls.take(i + 1)) == prev.push(trim(ls[i as int])));
            assert(r@[k].title@ == numbered_title(k as nat));
            assert forall|j: int| 0 <= j < r@.len() implies r@[j].title@ == numbered_title(j as nat)
                && r@[j].content@ == nonblank_lines(ls.take(i + 1))[j] by {
                if j < k {
                    assert(nonblank_lines(ls.take(i + 1))[j] == prev[j]);
                }
            }
        } else {
            assert(nonblank_lines(ls.take(i + 1)) == prev);
            assert forall|j: int| 0 <= j < r@.len() implies r@[j].title@ == numbered_title(j as nat)
                && r@[j].content@ == nonblank_lines(ls.take(i + 1))[j] by {
                assert(nonblank_lines(ls.take(i + 1))[j] == prev[j]);
            }
        }
        i = i + 1;
    }
    assert(ls.take(lines.len() as int) =~= ls);
    assert(nonblank_lines(ls.take(lines.len() as int)) == outline_entries(outline_text@));
    assert forall|j: int| 0 <= j < r@.len() implies r@[j].title@ == numbered_title(j as nat) by {
        assert(r@[j].content@ == nonblank_lines(ls.take(i as int))[j]);
    }
    r
}

/// The sections drafted for a set of documents: the coordinator's outline,
/// parsed into numbered sections.
pub fn section_drafts(docs: &[String], style: &WikiStyle) -> (r: Vec<WikiSection>)
    ensures
        r@.len() == outline_entries(outline_text(*style, docs@.len())).len(),
        forall|i: int| 0 <= i < r@.len() ==> r@[i].title@ == numbered_title(i as nat),
        forall|i: int|
            0 <= i < r@.len() ==> r@[i].content@ == outline_entries(outline_text(*style, docs@.len()))[i],
{
    let outline = coordinator_generate_outline(docs, style);
    let text = outline.as_str();
    assert(text@ == outline_text(*style, docs@.len()));
    parse_outline(text)
}

/// The file a section is saved to: its title with spaces made `_`, and `.md`.
pub open spec fn section_file(title: Seq<char>) -> Seq<char> {
    title.map_values(|c: char| if c == ' ' { '_' } else { c }) + ".md"@
}

/// The file name of a section (see `section_file`).
pub fn section_file_name(title: &str) -> (r: String)
    ensures
        r@ == section_file(title@),
{
    let cs = chars_of(title);
    let mut r = String::new();
    let mut i: usize = 0;
    while i < cs.len()
        invariant
            i <= cs.len(),
            cs@ == title@,
            r@ == cs@.take(i as int).map_values(|c: char| if c == ' ' { '_' } else { c }),
        decreases cs.len() - i,
    {
        let c = cs[i];
        push_char(&mut r, if c == ' ' { '_' } else { c });
        i = i + 1;
        assert(r@ =~= cs@.take(i as int).map_values(|c: char| if c == ' ' { '_' } else { c }));
    }
    assert(cs@.take(cs.len() as int) =~= cs@);
    r.append(".md");
    r
}

/// The saved text of a section: `# <title>`, a blank line, the content.
pub open spec fn section_document(title: Seq<char>, content: Seq<char>) -> Seq<char> {
    "# "@ + title + "\n\n"@ + content
}

/// The saved text of a section (see `section_document`).
pub fn section_file_text(section: &WikiSection) -> (r: String)
    ensures
        r@ == section_document(section.title@, section.content@),
{
    let mut r = String::from_str("# ");
    r.append(section.title.as_str());
    r.append("\n\n");
    r.append(section.content.as_str());
    r
}

/// The directory a workspace's wiki notes are saved to:
/// `<workspace>/notes/<workspace name>-wiki-notes`, the name being
/// `workspace` when the workspace path has none.
pub open spec fn wiki_notes_dir(workspace: Seq<char>) -> Seq<char> {
    let name = match file_name(workspace) {
        Some(n) => n,
        None => "workspace"@,
    };
    join(join(workspace, "notes"@), name + "-wiki-notes"@)
}

/// The wiki notes directory of a workspace (see `wiki_notes_dir`).
pub fn wiki_notes_dir_path(workspace_path: &str) -> (r: String)
    ensures
        r@ == wiki_notes_dir(workspace_path@),
{
    let mut name = match path_file_name(workspace_path) {
        Some(n) => n,
        None => String::from_str("workspace"),
    };
    name.append("-wiki-notes");
    let notes = path_join(workspace_path, "notes");
    path_join(notes.as_str(), name.as_str())
}

} // verus!
