//! The tools offered to the model: their names, descriptions and input
//! schemas.

use vstd::prelude::*;
use crate::chat::{known_tool, needed_fields};
use crate::text::views;

verus! {

/// The JSON type of a tool parameter: `string` or `boolean`.
#[derive(Debug, Clone, Copy, PartialEq, Eq, Structural)]
pub enum ParamType {
    Text,
    Flag,
}

/// A parameter of a tool: its name, its JSON type and its description.
#[derive(Debug, Clone)]
pub struct ToolParam {
    pub name: String,
    pub param_type: ParamType,
    pub description: String,
}

/// A tool as the model is told of it: its name, what it does, its
/// parameters, and the parameters it requires (when the schema lists any).
#[derive(Debug, Clone)]
pub struct ToolSpec {
    pub name: String,
    pub description: String,
    pub params: Vec<ToolParam>,
    pub required: Option<Vec<String>>,
}

impl View for ToolParam {
    type V = (Seq<char>, ParamType, Seq<char>);

    open spec fn view(&self) -> (Seq<char>, ParamType, Seq<char>) {
        (self.name@, self.param_type, self.description@)
    }
}

/// A tool description as plain values.
#[verifier::ext_equal]
pub struct ToolSpecView {
    pub name: Seq<char>,
    pub description: Seq<char>,
    pub params: Seq<(Seq<char>, ParamType, Seq<char>)>,
    pub required: Option<Seq<Seq<char>>>,
}

impl View for ToolSpec {
    type V = ToolSpecView;

    open spec fn view(&self) -> ToolSpecView {
        ToolSpecView {
            name: self.name@,
            description: self.description@,
            params: self.params@.map_values(|p: ToolParam| p@),
            required: match self.required {
                Some(r) => Some(views(r@)),
                None => None,
            },
        }
    }
}

/// The views of a list of tools.
pub open spec fn tool_views(v: Seq<ToolSpec>) -> Seq<ToolSpecView> {
    v.map_values(|t: ToolSpec| t@)
}

/// The tools offered to the model, in order.
pub open spec fn offered_tools() -> Seq<ToolSpecView> {
    seq![
        ToolSpecView {
            name: "Read"@,
            description: "Read the contents of a file from the filesystem."@,
            params: seq![("path"@, ParamType::Text, "The path to the file to read"@)],
            required: Some(seq!["path"@]),
        },
        ToolSpecView {
            name: "Write"@,
            description: "Create a new file or overwrite an existing file with new content."@,
            params: seq![
                ("path"@, ParamType::Text, "The path where the file should be written"@),
                ("content"@, ParamType::Text, "The content to write to the file"@),
            ],
            required: Some(seq!["path"@, "content"@]),
        },
        ToolSpecView {
            name: "Edit"@,
            description: "Make a targeted edit to an existing file by replacing exact text."@,
            params: seq![
                ("path"@, ParamType::Text, "The path to the file to edit"@),
                ("old_string"@, ParamType::Text, "The exact text to find in the file"@),
                ("new_string"@, ParamType::Text, "The replacement text"@),
                ("replace_all"@, ParamType::Flag, "Replace all occurrences (default: false)"@),
            ],
            required: Some(seq!["path"@, "old_string"@, "new_string"@]),
        },
        ToolSpecView {
            name: "ListDir"@,
            description: "List files and directories in a folder."@,
            params: seq![("path"@, ParamType::Text, "The path to the directory to list"@)],
            required: Some(seq!["path"@]),
        },
        ToolSpecView {
            name: "Glob"@,
            description: "Search for files matching a glob pattern."@,
            params: seq![
                ("pattern"@, ParamType::Text, "The glob pattern (e.g., **/*.md)"@),
                ("path"@, ParamType::Text, "The base directory to search in"@),
            ],
            required: None,
        },
        ToolSpecView {
            name: "Grep"@,
            description: "Search for text within files using regex."@,
            params: seq![
                ("pattern"@, ParamType::Text, "The regex pattern to search for"@),
                ("path"@, ParamType::Text, "The directory or file to search in"@),
                ("-i"@, ParamType::Flag, "Case insensitive search"@),
            ],
            required: Some(seq!["pattern"@]),
        },
    ]
}

fn param(name: &str, param_type: ParamType, description: &str) -> (p: ToolParam)
    ensures
        p@ == (name@, param_type, description@),
{
    ToolParam { name: String::from_str(name), param_type, description: String::from_str(description) }
}

fn names1(a: &str) -> (r: Vec<String>)
    ensures
        views(r@) == seq![a@],
{
    let mut r: Vec<String> = Vec::new();
    r.push(String::from_str(a));
    assert(views(r@) =~= seq![a@]);
    r
}

fn names2(a: &str, b: &str) -> (r: Vec<String>)
    ensures
        views(r@) == seq![a@, b@],
{
    let mut r: Vec<String> = Vec::new();
    r.push(String::from_str(a));
    r.push(String::from_str(b));
    assert(views(r@) =~= seq![a@, b@]);
    r
}

fn names3(a: &str, b: &str, c: &str) -> (r: Vec<String>)
    ensures
        views(r@) == seq![a@, b@, c@],
{
    let mut r: Vec<String> = Vec::new();
    r.push(String::from_str(a));
    r.push(String::from_str(b));
    r.push(String::from_str(c));
    assert(views(r@) =~= seq![a@, b@, c@]);
    r
}

fn tool(name: &str, description: &str, params: Vec<ToolParam>, required: Option<Vec<String>>) -> (t: ToolSpec)
    ensures
        t@.name == name@,
        t@.description == description@,
        t@.params == params@.map_values(|p: ToolParam| p@),
        t@.required == match required {
            Some(r) => Some(views(r@)),
            None => None,
        },
{
    ToolSpec { name: String::from_str(name), description: String::from_str(description), params, required }
}

/// The tools offered to the model (see `offered_tools`).
pub fn get_tools() -> (r: Vec<ToolSpec>)
    ensures
        tool_views(r@) == offered_tools(),
{
    let mut tools: Vec<ToolSpec> = Vec::new();

    let mut ps: Vec<ToolParam> = Vec::new();
    ps.push(param("path", ParamType::Text, "The path to the file to read"));
    let read = tool("Read", "Read the contents of a file from the filesystem.", ps, Some(names1("path")));
    assert(read@ =~~= offered_tools()[0]);
    tools.push(read);

    let mut ps: Vec<ToolParam> = Vec::new();
    ps.push(param("path", ParamType::Text, "The path where the file should be written"));
    ps.push(param("content", ParamType::Text, "The content to write to the file"));
    let req = names2("path", "content");
    let write = tool(
        "Write",
        "Create a new file or overwrite an existing file with new content.",
        ps,
        Some(req),
    );
    assert(write@ =~~= offered_tools()[1]);
    tools.push(write);

    let mut ps: Vec<ToolParam> = Vec::new();
    ps.push(param("path", ParamType::Text, "The path to the file to edit"));
    ps.push(param("old_string", ParamType::Text, "The exact text to find in the file"));
    ps.push(param("new_string", ParamType::Text, "The replacement text"));
    ps.push(param("replace_all", ParamType::Flag, "Replace all occurrences (default: false)"));
    let req = names3("path", "old_string", "new_string");
    let edit = tool(
        "Edit",
        "Make a targeted edit to an existing file by replacing exact text.",
        ps,
        Some(req),
    );
    assert(edit@ =~~= offered_tools()[2]);
    tools.push(edit);

    let mut ps: Vec<ToolParam> = Vec::new();
    ps.push(param("path", ParamType::Text, "The path to the directory to list"));
    let list_dir = tool("ListDir", "List files and directories in a folder.", ps, Some(names1("path")));
    assert(list_dir@ =~~= offered_tools()[3]);
    tools.push(list_dir);

    let mut ps: Vec<ToolParam> = Vec::new();
    ps.push(param("pattern", ParamType::Text, "The glob pattern (e.g., **/*.md)"));
    ps.push(param("path", ParamType::Text, "The base directory to search in"));
    let glob = tool("Glob", "Search for files matching a glob pattern.", ps, None);
    assert(glob@ =~~= offered_tools()[4]);
    tools.push(glob);

    let mut ps: Vec<ToolParam> = Vec::new();
    ps.push(param("pattern", ParamType::Text, "The regex pattern to search for"));
    ps.push(param("path", ParamType::Text, "The directory or file to search in"));
    ps.push(param("-i", ParamType::Flag, "Case insensitive search"));
    let grep = tool("Grep", "Search for text within files using regex.", ps, Some(names1("pattern")));
    assert(grep@ =~~= offered_tools()[5]);
    tools.push(grep);

    assert(tool_views(tools@) =~~= offered_tools());
    tools
}

/// The members a tool's schema marks as required (none when it lists none).
pub open spec fn required_list(t: ToolSpecView) -> Seq<Seq<char>> {
    match t.required {
        Some(r) => r,
        None => Seq::empty(),
    }
}

/// Whether a tool's schema has a parameter of that name.
pub open spec fn has_param(t: ToolSpecView, name: Seq<char>) -> bool {
    exists|m: int| 0 <= m < t.params.len() && (#[trigger] t.params[m]).0 == name
}

proof fn lemma_tool_literals()
    ensures
        "Read"@ != "Write"@ && "Read"@ != "Edit"@ && "Read"@ != "ListDir"@ && "Read"@ != "Glob"@
            && "Read"@ != "Grep"@,
        "Write"@ != "Edit"@ && "Write"@ != "ListDir"@ && "Write"@ != "Glob"@ && "Write"@ != "Grep"@,
        "Edit"@ != "ListDir"@ && "Edit"@ != "Glob"@ && "Edit"@ != "Grep"@,
        "ListDir"@ != "Glob"@ && "ListDir"@ != "Grep"@,
        "Glob"@ != "Grep"@,
{
    reveal_strlit("Read");
    reveal_strlit("Write");
    reveal_strlit("Edit");
    reveal_strlit("Glob");
    reveal_strlit("Grep");
    reveal_strlit("ListDir");
    assert("Read"@[0] != "Write"@[0] && "Read"@[0] != "Edit"@[0] && "Read"@[0] != "Glob"@[0]);
    assert("Read"@[0] != "Grep"@[0] && "Read"@[0] != "ListDir"@[0]);
    assert("Write"@[0] != "Edit"@[0] && "Write"@[0] != "ListDir"@[0] && "Write"@[0] != "Glob"@[0]);
    assert("Write"@[0] != "Grep"@[0] && "Edit"@[0] != "ListDir"@[0] && "Edit"@[0] != "Glob"@[0]);
    assert("Edit"@[0] != "Grep"@[0] && "ListDir"@[0] != "Glob"@[0] && "ListDir"@[0] != "Grep"@[0]);
    assert("Glob"@[1] != "Grep"@[1]);
}

/// Each tool offered to the model is one that a call can be planned for;
/// the members its schema marks as required are exactly those whose absence
/// planning reports, in the order planning checks them; and each of them is
/// a parameter of the schema.
pub proof fn lemma_offered_tool_matches_planning(i: int)
    requires
        0 <= i < offered_tools().len(),
    ensures
        known_tool(offered_tools()[i].name),
        needed_fields(offered_tools()[i].name) == required_list(offered_tools()[i]),
        forall|k: int|
            0 <= k < required_list(offered_tools()[i]).len() ==> has_param(
                offered_tools()[i],
                #[trigger] required_list(offered_tools()[i])[k],
            ),
{
    lemma_tool_literals();
    let t = offered_tools()[i];
    assert forall|k: int| 0 <= k < required_list(offered_tools()[i]).len() implies has_param(
        offered_tools()[i],
        #[trigger] required_list(offered_tools()[i])[k],
    ) by {
        let o = offered_tools();
        if i == 0 {
            assert(t == o[0]);
        } else if i == 1 {
            assert(t == o[1]);
        } else if i == 2 {
            assert(t == o[2]);
        } else if i == 3 {
            assert(t == o[3]);
        } else if i == 4 {
            assert(t == o[4]);
        } else {
            assert(t == o[5]);
        }
        assert(k < t.params.len());
        assert(offered_tools()[i].params[k].0 == required_list(offered_tools()[i])[k]);
        assert(has_param(offered_tools()[i], required_list(offered_tools()[i])[k]));
    }
    assert(needed_fields(t.name) =~= required_list(t));
}

/// Every tool that a call can be planned for is offered to the model, and
/// no tool is offered twice.
pub proof fn lemma_every_known_tool_offered(name: Seq<char>, i: int, j: int)
    requires
        0 <= i < j < offered_tools().len(),
    ensures
        known_tool(name) ==> exists|k: int|
            0 <= k < offered_tools().len() && (#[trigger] offered_tools()[k]).name == name,
        offered_tools()[i].name != offered_tools()[j].name,
{
    lemma_tool_literals();
    let o = offered_tools();
    if known_tool(name) {
        if name == "Read"@ {
            assert(o[0].name == name);
        } else if name == "Write"@ {
            assert(o[1].name == name);
        } else if name == "Edit"@ {
            assert(o[2].name == name);
        } else if name == "ListDir"@ {
            assert(o[3].name == name);
        } else if name == "Glob"@ {
            assert(o[4].name == name);
        } else {
            assert(o[5].name == name);
        }
    }
}

} // verus!
