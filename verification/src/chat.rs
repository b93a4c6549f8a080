//! The chat command's logic: the system prompt, which tool a model call
//! asks for, the directory listing filter, the reading of one streamed turn
//! and the loop of requests and tool calls.

use vstd::prelude::*;
use crate::text::{digit_spec, chars_of, push_char, text_equals, text_ends_with, ends_with, starts_with, views};
use crate::wiki::join_with;
use crate::paths::{file_name, path_file_name};

verus! {

/// A message of the conversation as the user interface sends it.
#[derive(Debug, Clone)]
pub struct ChatMessage {
    pub role: String,
    pub content: String,
}

/// Token counts of a chat reply.
#[derive(Debug, Clone, Copy)]
pub struct ChatUsage {
    pub input_tokens: u32,
    pub output_tokens: u32,
}

/// The reply to a chat request.
#[derive(Debug, Clone)]
pub struct ChatResponse {
    pub content: String,
    pub usage: Option<ChatUsage>,
    pub tools_used: Option<Vec<String>>,
}

/// The fixed part of the system prompt.
pub open spec fn base_prompt() -> Seq<char> {
    "You are WikiMind, an AI assistant that helps users manage their personal wiki knowledge base.\n\nYou have access to tools that let you read, write, and edit files in the user's workspace.\n\nIMPORTANT: You can directly modify files using the Write and Edit tools. Always use these tools when the user asks you to create, update, or modify wiki content.\n\nWhen the user asks you to update or create wiki content, you should:\n1. Use ListDir to see what files exist\n2. Use Read to see the content of existing wiki files\n3. Use Write or Edit to create or modify files\n4. Confirm what you did to the user\n\nAvailable tools:\n- Read(path): Read a file's contents\n- Write(path, content): Create or overwrite a file\n- Edit(path, old_string, new_string, replace_all?): Edit specific text in a file\n- ListDir(path): List files in a directory\n- Glob(pattern, path?): Search for files matching a pattern\n- Grep(pattern, path?, -i?): Search for text in files\n\nWiki Update Command:\n- /update: Compare my-notes/ and wiki/ directories, find changed files,\nshow diff (before/after at line level), and sync changes to wiki notes\n"@
}

/// The list of Markdown files, one `  - <file>` line each.
pub open spec fn file_lines(files: Seq<Seq<char>>) -> Seq<char>
    decreases files.len(),
{
    if files.len() == 0 {
        Seq::empty()
    } else {
        file_lines(files.drop_last()) + "  - "@ + files.last() + "\n"@
    }
}

/// The file list of the system prompt has one line per file, in order:
/// `  - <file>` and a line break; the list of files one after another is
/// the list of the first files followed by that of the others.
pub proof fn lemma_file_lines_one_per_file(a: Seq<Seq<char>>, b: Seq<Seq<char>>, f: Seq<char>)
    ensures
        file_lines(seq![f]) == "  - "@ + f + "\n"@,
        file_lines(a + b) == file_lines(a) + file_lines(b),
    decreases b.len(),
{
    assert(seq![f].drop_last() =~= Seq::<Seq<char>>::empty());
    assert(seq![f].last() == f);
    assert(file_lines(Seq::<Seq<char>>::empty()) == Seq::<char>::empty());
    assert(file_lines(seq![f]) =~= "  - "@ + f + "\n"@);
    if b.len() == 0 {
        assert(a + b =~= a);
        assert(file_lines(a) + file_lines(b) =~= file_lines(a));
    } else {
        lemma_file_lines_one_per_file(a, b.drop_last(), f);
        assert((a + b).drop_last() =~= a + b.drop_last());
        assert((a + b).last() == b.last());
        assert(file_lines(a) + file_lines(b) =~= file_lines(a) + file_lines(b.drop_last()) + "  - "@ + b.last()
            + "\n"@);
    }
}

/// The system prompt: the fixed part and, for a workspace with Markdown
/// files, the workspace path and one line per file.
pub open spec fn system_prompt(workspace: Option<Seq<char>>, files: Seq<Seq<char>>) -> Seq<char> {
    match workspace {
        Some(p) => if files.len() > 0 {
            base_prompt() + "\nCurrent workspace: "@ + p + "\n"@ + "Markdown files in workspace:\n"@
                + file_lines(files)
        } else {
            base_prompt()
        },
        None => base_prompt(),
    }
}

/// The system prompt for a workspace and the Markdown files found in it.
pub fn build_system_prompt(workspace_path: Option<&str>, markdown_files: &Vec<String>) -> (r: String)
    ensures
        r@ == system_prompt(
            match workspace_path {
                Some(p) => Some(p@),
                None => None,
            },
            views(markdown_files@),
        ),
{
    let mut prompt = String::from_str("You are WikiMind, an AI assistant that helps users manage their personal wiki knowledge base.\n\nYou have access to tools that let you read, write, and edit files in the user's workspace.\n\nIMPORTANT: You can directly modify files using the Write and Edit tools. Always use these tools when the user asks you to create, update, or modify wiki content.\n\nWhen the user asks you to update or create wiki content, you should:\n1. Use ListDir to see what files exist\n2. Use Read to see the content of existing wiki files\n3. Use Write or Edit to create or modify files\n4. Confirm what you did to the user\n\nAvailable tools:\n- Read(path): Read a file's contents\n- Write(path, content): Create or overwrite a file\n- Edit(path, old_string, new_string, replace_all?): Edit specific text in a file\n- ListDir(path): List files in a directory\n- Glob(pattern, path?): Search for files matching a pattern\n- Grep(pattern, path?, -i?): Search for text in files\n\nWiki Update Command:\n- /update: Compare my-notes/ and wiki/ directories, find changed files,\nshow diff (before/after at line level), and sync changes to wiki notes\n");
    match workspace_path {
        Some(path) => {
            if markdown_files.len() > 0 {
                prompt.append("\nCurrent workspace: ");
                prompt.append(path);
                prompt.append("\n");
                prompt.append("Markdown files in workspace:\n");
                let ghost fs = views(markdown_files@);
                let ghost head = prompt@;
                let mut i: usize = 0;
                assert(fs.take(0) =~= Seq::<Seq<char>>::empty());
                while i < markdown_files.len()
                    invariant
                        i <= markdown_files.len(),
                        fs == views(markdown_files@),
                        prompt@ == head + file_lines(fs.take(i as int)),
                    decreases markdown_files.len() - i,
                {
                    prompt.append("  - ");
                    prompt.append(markdown_files[i].as_str());
                    prompt.append("\n");
                    assert(fs.take(i + 1).drop_last() =~= fs.take(i as int));
                    assert(fs[i as int] == markdown_files@[i as int]@);
                    i = i + 1;
                }
                assert(fs.take(markdown_files.len() as int) =~= fs);
            }
        },
        None => {},
    }
    prompt
}

/// Whether a directory entry is listed: names starting with `.` or `_` are
/// hidden; of the rest, directories and `.md` files are listed.
pub open spec fn listed_entry(name: Seq<char>, is_dir: bool) -> bool {
    !(name.len() > 0 && (name[0] == '.' || name[0] == '_')) && (is_dir || ends_with(name, ".md"@))
}

/// The listing hides an entry by its first character alone: a name that
/// starts with `.` or `_` is never listed; any other name is listed exactly
/// when it is a directory or has the form `<something>.md`, whatever else
/// it contains.
pub proof fn lemma_listing_rule(first: char, rest: Seq<char>, is_dir: bool)
    ensures
        (first == '.' || first == '_') ==> !listed_entry(seq![first] + rest, is_dir),
        (first != '.' && first != '_') ==> (listed_entry(seq![first] + rest, is_dir) <==> (is_dir
            || exists|p: Seq<char>| seq![first] + rest == p + ".md"@)),
{
    reveal_strlit(".md");
    let name = seq![first] + rest;
    assert(name[0] == first);
    if ends_with(name, ".md"@) {
        let p = name.take(name.len() - 3);
        assert(name =~= p + ".md"@);
    }
    if exists|p: Seq<char>| name == p + ".md"@ {
        let p = choose|p: Seq<char>| name == p + ".md"@;
        assert(name.subrange(name.len() - 3, name.len() as int) =~= ".md"@);
    }
}

/// Whether the directory listing tool shows an entry (see `listed_entry`).
pub fn list_dir_keeps(name: &str, is_dir: bool) -> (r: bool)
    ensures
        r == listed_entry(name@, is_dir),
{
    let cs = chars_of(name);
    if cs.len() > 0 && (cs[0] == '.' || cs[0] == '_') {
        return false;
    }
    is_dir || text_ends_with(name, ".md")
}

/// The index of the last `.` in `n`, or -1.
pub open spec fn last_dot(n: Seq<char>) -> int
    decreases n.len(),
{
    if n.len() == 0 {
        -1
    } else if n.last() == '.' {
        n.len() - 1
    } else {
        last_dot(n.drop_last())
    }
}

/// The extension of the file a path names, as `Path::extension` gives it:
/// what follows the last `.` of the file name, unless that `.` starts it.
pub open spec fn extension(p: Seq<char>) -> Option<Seq<char>> {
    match file_name(p) {
        Some(n) => if last_dot(n) > 0 {
            Some(n.subrange(last_dot(n) + 1, n.len() as int))
        } else {
            None
        },
        None => None,
    }
}

proof fn lemma_last_dot_take(n: Seq<char>, k: int)
    requires
        0 <= k <= n.len(),
        forall|j: int| k <= j < n.len() ==> n[j] != '.',
    ensures
        last_dot(n) == last_dot(n.take(k)),
    decreases n.len() - k,
{
    if k < n.len() {
        assert(n.drop_last().take(k) =~= n.take(k));
        lemma_last_dot_take(n.drop_last(), k);
    } else {
        assert(n.take(k) =~= n);
    }
}

proof fn lemma_last_dot_bounds(n: Seq<char>)
    ensures
        -1 <= last_dot(n) < n.len(),
        last_dot(n) >= 0 ==> n[last_dot(n)] == '.',
        forall|j: int| last_dot(n) < j < n.len() ==> n[j] != '.',
    decreases n.len(),
{
    if n.len() > 0 && n.last() != '.' {
        lemma_last_dot_bounds(n.drop_last());
        assert forall|j: int| last_dot(n) < j < n.len() implies n[j] != '.' by {
            if j < n.len() - 1 {
                assert(n.drop_last()[j] == n[j]);
            }
        }
    }
}

/// A path names a Markdown file exactly when its file name is some
/// non-empty text followed by `.md`.
pub proof fn lemma_markdown_names(p: Seq<char>)
    ensures
        extension(p) == Some("md"@) <==> (exists|a: Seq<char>| a.len() > 0 && file_name(p) == Some(a + ".md"@)),
{
    reveal_strlit("md");
    reveal_strlit(".md");
    match file_name(p) {
        Some(n) => {
            lemma_last_dot_bounds(n);
            if extension(p) == Some("md"@) {
                let d = last_dot(n);
                let ext = n.subrange(d + 1, n.len() as int);
                assert(ext.len() == 2);
                let a = n.take(d);
                assert(n =~= a + ".md"@) by {
                    assert(ext[0] == 'm' && ext[1] == 'd');
                }
            }
            if exists|a: Seq<char>| a.len() > 0 && file_name(p) == Some(a + ".md"@) {
                let a = choose|a: Seq<char>| a.len() > 0 && file_name(p) == Some(a + ".md"@);
                assert(n == a + ".md"@);
                assert(n[n.len() - 1] == 'd' && n[n.len() - 2] == 'm' && n[n.len() - 3] == '.');
                assert(n.last() != '.');
                assert(n.drop_last().last() != '.');
                assert(n.drop_last().drop_last().last() == '.');
                assert(last_dot(n) == n.len() - 3);
                assert(n.subrange(n.len() - 2, n.len() as int) =~= "md"@);
            }
        },
        None => {},
    }
}

/// Whether a path names a Markdown file: its extension is `md`.
pub fn has_markdown_extension(path: &str) -> (r: bool)
    ensures
        r == (extension(path@) == Some("md"@)),
{
    match path_file_name(path) {
        None => false,
        Some(n) => {
            let cs = chars_of(n.as_str());
            let mut i = cs.len();
            while i > 0 && cs[i - 1] != '.'
                invariant
                    i <= cs.len(),
                    cs@ == n@,
                    forall|j: int| i <= j < cs.len() ==> cs@[j] != '.',
                decreases i,
            {
                i = i - 1;
            }
            proof {
                lemma_last_dot_take(cs@, i as int);
                if i > 0 {
                    assert(cs@.take(i as int).last() == '.');
                } else {
                    assert(cs@.take(0).len() == 0);
                }
                reveal_strlit("md");
            }
            if i <= 1 {
                false
            } else {
                let dot = i - 1;
                let r = cs.len() - dot == 3 && cs[dot + 1] == 'm' && cs[dot + 2] == 'd';
                proof {
                    let ext = cs@.subrange(dot + 1, cs@.len() as int);
                    if r {
                        assert(ext =~= "md"@);
                    } else {
                        if ext.len() == 2 {
                            assert(ext[0] != 'm' || ext[1] != 'd');
                        }
                    }
                }
                r
            }
        },
    }
}


/// The members of a tool call's JSON input that the tools read, each present
/// when the member exists and has the expected JSON type (`-B`, `-A`, `-C`,
/// `-i` and `type` under the names below).
#[derive(Debug, Clone)]
pub struct ToolInput {
    pub path: Option<String>,
    pub content: Option<String>,
    pub old_string: Option<String>,
    pub new_string: Option<String>,
    pub replace_all: Option<bool>,
    pub pattern: Option<String>,
    pub offset: Option<u64>,
    pub limit: Option<u64>,
    pub glob: Option<String>,
    pub output_mode: Option<String>,
    pub before: Option<u64>,
    pub after: Option<u64>,
    pub context: Option<u64>,
    pub case_insensitive: Option<bool>,
    pub file_type: Option<String>,
    pub head_limit: Option<u64>,
    pub multiline: Option<bool>,
}

/// A tool input as plain values.
pub struct ToolInputView {
    pub path: Option<Seq<char>>,
    pub content: Option<Seq<char>>,
    pub old_string: Option<Seq<char>>,
    pub new_string: Option<Seq<char>>,
    pub replace_all: Option<bool>,
    pub pattern: Option<Seq<char>>,
    pub offset: Option<u64>,
    pub limit: Option<u64>,
    pub glob: Option<Seq<char>>,
    pub output_mode: Option<Seq<char>>,
    pub before: Option<u64>,
    pub after: Option<u64>,
    pub context: Option<u64>,
    pub case_insensitive: Option<bool>,
    pub file_type: Option<Seq<char>>,
    pub head_limit: Option<u64>,
    pub multiline: Option<bool>,
}

impl View for ToolInput {
    type V = ToolInputView;

    open spec fn view(&self) -> ToolInputView {
        ToolInputView {
            path: ov(self.path),
            content: ov(self.content),
            old_string: ov(self.old_string),
            new_string: ov(self.new_string),
            replace_all: self.replace_all,
            pattern: ov(self.pattern),
            offset: self.offset,
            limit: self.limit,
            glob: ov(self.glob),
            output_mode: ov(self.output_mode),
            before: self.before,
            after: self.after,
            context: self.context,
            case_insensitive: self.case_insensitive,
            file_type: ov(self.file_type),
            head_limit: self.head_limit,
            multiline: self.multiline,
        }
    }
}

/// A text search request.
#[derive(Debug, Clone)]
pub struct GrepRequest {
    pub pattern: String,
    pub path: Option<String>,
    pub glob: Option<String>,
    pub output_mode: Option<String>,
    pub before: Option<u64>,
    pub after: Option<u64>,
    pub context_short: Option<u64>,
    pub context: Option<u64>,
    pub line_numbers: Option<bool>,
    pub case_insensitive: Option<bool>,
    pub file_type: Option<String>,
    pub head_limit: Option<u64>,
    pub offset: Option<u64>,
    pub multiline: Option<bool>,
}

/// A tool call to carry out.
#[derive(Debug, Clone)]
pub enum ToolCall {
    Read { path: String, offset: Option<u64>, limit: Option<u64> },
    Write { path: String, content: String },
    Edit { path: String, old_string: String, new_string: String, replace_all: bool },
    Glob { pattern: String, path: Option<String> },
    Grep(GrepRequest),
    ListDir { path: String },
}

/// The error for a missing member: `Missing '<member>' field`.
pub open spec fn missing_field(member: Seq<char>) -> Seq<char> {
    "Missing '"@ + member + "' field"@
}

/// The error for an unknown tool: `Unknown tool: <name>`.
pub open spec fn unknown_tool(name: Seq<char>) -> Seq<char> {
    "Unknown tool: "@ + name
}

/// A copy of an optional string.
pub fn clone_opt(o: &Option<String>) -> (r: Option<String>)
    ensures
        ov(r) == ov(*o),
{
    match o {
        Some(s) => Some(s.clone()),
        None => None,
    }
}

fn missing_field_error(member: &str) -> (r: String)
    ensures
        r@ == missing_field(member@),
{
    let mut r = String::from_str("Missing '");
    r.append(member);
    r.append("' field");
    r
}

/// The view of an optional string.
pub open spec fn ov(o: Option<String>) -> Option<Seq<char>> {
    match o {
        Some(s) => Some(s@),
        None => None,
    }
}

/// The tools that can be called.
pub open spec fn known_tool(tool: Seq<char>) -> bool {
    tool == "Read"@ || tool == "Write"@ || tool == "Edit"@ || tool == "Glob"@ || tool == "Grep"@
        || tool == "ListDir"@
}

/// The input members a tool cannot do without, in the order they are checked.
pub open spec fn needed_fields(tool: Seq<char>) -> Seq<Seq<char>> {
    if tool == "Read"@ || tool == "ListDir"@ {
        seq!["path"@]
    } else if tool == "Write"@ {
        seq!["path"@, "content"@]
    } else if tool == "Edit"@ {
        seq!["path"@, "old_string"@, "new_string"@]
    } else if tool == "Grep"@ {
        seq!["pattern"@]
    } else {
        Seq::empty()
    }
}

/// Whether the input has the text member of that name.
pub open spec fn has_field(input: ToolInputView, member: Seq<char>) -> bool {
    if member == "path"@ {
        input.path is Some
    } else if member == "content"@ {
        input.content is Some
    } else if member == "old_string"@ {
        input.old_string is Some
    } else if member == "new_string"@ {
        input.new_string is Some
    } else if member == "pattern"@ {
        input.pattern is Some
    } else {
        false
    }
}

/// What planning a call of a known tool gives, whatever the tool: a call
/// when every needed member is present, else the error for the first one
/// that is missing.
pub open spec fn planned_uniformly(tool: Seq<char>, input: ToolInputView, r: Result<ToolCall, String>) -> bool {
    let need = needed_fields(tool);
    &&& (r is Ok <==> forall|i: int| 0 <= i < need.len() ==> has_field(input, #[trigger] need[i]))
    &&& (r matches Err(e) ==> exists|i: int|
        0 <= i < need.len() && !has_field(input, #[trigger] need[i]) && e@ == missing_field(need[i])
            && forall|j: int| 0 <= j < i ==> has_field(input, #[trigger] need[j]))
}

/// What `plan_tool_call` says of each tool, written out per tool.
pub open spec fn planned_per_tool(tool: Seq<char>, input: ToolInputView, r: Result<ToolCall, String>) -> bool {
    &&& tool == "Read"@ ==> match input.path {
        None => r matches Err(e) && e@ == missing_field("path"@),
        Some(_) => r is Ok,
    }
    &&& tool == "Write"@ ==> match (input.path, input.content) {
        (None, _) => r matches Err(e) && e@ == missing_field("path"@),
        (Some(_), None) => r matches Err(e) && e@ == missing_field("content"@),
        (Some(_), Some(_)) => r is Ok,
    }
    &&& tool == "Edit"@ ==> match (input.path, input.old_string, input.new_string) {
        (None, _, _) => r matches Err(e) && e@ == missing_field("path"@),
        (Some(_), None, _) => r matches Err(e) && e@ == missing_field("old_string"@),
        (Some(_), Some(_), None) => r matches Err(e) && e@ == missing_field("new_string"@),
        (Some(_), Some(_), Some(_)) => r is Ok,
    }
    &&& tool == "Glob"@ ==> r is Ok
    &&& tool == "Grep"@ ==> match input.pattern {
        None => r matches Err(e) && e@ == missing_field("pattern"@),
        Some(_) => r is Ok,
    }
    &&& tool == "ListDir"@ ==> match input.path {
        None => r matches Err(e) && e@ == missing_field("path"@),
        Some(_) => r is Ok,
    }
}

proof fn lemma_planned_uniformly(tool: Seq<char>, input: ToolInputView, r: Result<ToolCall, String>)
    requires
        planned_per_tool(tool, input, r),
    ensures
        known_tool(tool) ==> planned_uniformly(tool, input, r),
{
    reveal_strlit("Read");
    reveal_strlit("Write");
    reveal_strlit("Edit");
    reveal_strlit("Glob");
    reveal_strlit("Grep");
    reveal_strlit("ListDir");
    reveal_strlit("path");
    reveal_strlit("content");
    reveal_strlit("old_string");
    reveal_strlit("new_string");
    reveal_strlit("pattern");
    assert("Read"@[0] != "Write"@[0] && "Read"@[0] != "Edit"@[0] && "Read"@[0] != "Glob"@[0]);
    assert("Write"@.len() != "Edit"@.len() && "Write"@.len() != "Glob"@.len());
    assert("Edit"@[0] != "Glob"@[0] && "Glob"@[1] != "Grep"@[1]);
    assert("ListDir"@.len() != "Read"@.len() && "ListDir"@.len() != "Write"@.len());
    assert("path"@.len() != "content"@.len() && "path"@.len() != "old_string"@.len());
    assert("path"@.len() != "new_string"@.len() && "path"@.len() != "pattern"@.len());
    assert("content"@.len() != "old_string"@.len() && "content"@.len() != "new_string"@.len());
    assert("content"@[0] != "pattern"@[0] && "old_string"@[0] != "new_string"@[0]);
    assert("old_string"@.len() != "pattern"@.len() && "new_string"@.len() != "pattern"@.len());
    assert(has_field(input, "path"@) == input.path is Some);
    assert(has_field(input, "content"@) == input.content is Some);
    assert(has_field(input, "old_string"@) == input.old_string is Some);
    assert(has_field(input, "new_string"@) == input.new_string is Some);
    assert(has_field(input, "pattern"@) == input.pattern is Some);
    let need = needed_fields(tool);
    let p = "path"@;
    if tool == "Read"@ || tool == "ListDir"@ {
        assert(need =~= seq![p]);
        if input.path is None {
            assert(!has_field(input, need[0]));
        } else {
            assert forall|i: int| 0 <= i < need.len() implies has_field(input, #[trigger] need[i]) by {
                assert(i == 0);
            }
        }
    } else if tool == "Write"@ {
        assert(need =~= seq![p, "content"@]);
        if input.path is None {
            assert(!has_field(input, need[0]));
        } else if input.content is None {
            assert(has_field(input, need[0]) && !has_field(input, need[1]));
            assert forall|j: int| 0 <= j < 1 implies has_field(input, #[trigger] need[j]) by {
                assert(j == 0);
            }
        } else {
            assert forall|i: int| 0 <= i < need.len() implies has_field(input, #[trigger] need[i]) by {
                assert(i == 0 || i == 1);
            }
        }
    } else if tool == "Edit"@ {
        assert(need =~= seq![p, "old_string"@, "new_string"@]);
        if input.path is None {
            assert(!has_field(input, need[0]));
        } else if input.old_string is None {
            assert(has_field(input, need[0]) && !has_field(input, need[1]));
            assert forall|j: int| 0 <= j < 1 implies has_field(input, #[trigger] need[j]) by {
                assert(j == 0);
            }
        } else if input.new_string is None {
            assert(has_field(input, need[0]) && has_field(input, need[1]) && !has_field(input, need[2]));
            assert forall|j: int| 0 <= j < 2 implies has_field(input, #[trigger] need[j]) by {
                assert(j == 0 || j == 1);
            }
        } else {
            assert forall|i: int| 0 <= i < need.len() implies has_field(input, #[trigger] need[i]) by {
                assert(i == 0 || i == 1 || i == 2);
            }
        }
    } else if tool == "Grep"@ {
        assert(need =~= seq!["pattern"@]);
        if input.pattern is None {
            assert(!has_field(input, need[0]));
        } else {
            assert forall|i: int| 0 <= i < need.len() implies has_field(input, #[trigger] need[i]) by {
                assert(i == 0);
            }
        }
    } else if tool == "Glob"@ {
        assert(need.len() == 0);
    }
}

/// What planning a call of `tool` on `input` gives (see `plan_tool_call`).
pub open spec fn plans(tool: Seq<char>, input: ToolInputView, r: Result<ToolCall, String>) -> bool {
    &&& tool == "Read"@ ==> match input.path {
        None => r matches Err(e) && e@ == missing_field("path"@),
        Some(p) => r matches Ok(ToolCall::Read { path, offset, limit }) && path@ == p && offset
            == input.offset && limit == input.limit,
    }
    &&& tool == "Write"@ ==> match (input.path, input.content) {
        (None, _) => r matches Err(e) && e@ == missing_field("path"@),
        (Some(_), None) => r matches Err(e) && e@ == missing_field("content"@),
        (Some(p), Some(c)) => r matches Ok(ToolCall::Write { path, content }) && path@ == p
            && content@ == c,
    }
    &&& tool == "Edit"@ ==> match (input.path, input.old_string, input.new_string) {
        (None, _, _) => r matches Err(e) && e@ == missing_field("path"@),
        (Some(_), None, _) => r matches Err(e) && e@ == missing_field("old_string"@),
        (Some(_), Some(_), None) => r matches Err(e) && e@ == missing_field("new_string"@),
        (Some(p), Some(o), Some(n)) => r matches Ok(
            ToolCall::Edit { path, old_string, new_string, replace_all },
        ) && path@ == p && old_string@ == o && new_string@ == n && replace_all == (
        input.replace_all == Some(true)),
    }
    &&& tool == "Glob"@ ==> (r matches Ok(ToolCall::Glob { pattern, path }) && pattern@ == (
    match input.pattern {
        Some(p) => p,
        None => "**/*.md"@,
    }) && ov(path) == input.path)
    &&& tool == "Grep"@ ==> match input.pattern {
        None => r matches Err(e) && e@ == missing_field("pattern"@),
        Some(p) => r matches Ok(ToolCall::Grep(g)) && g.pattern@ == p && ov(g.path) == input.path
            && ov(g.glob) == input.glob && ov(g.output_mode) == input.output_mode && g.before
            == input.before && g.after == input.after && g.context_short is None && g.context
            == input.context && g.line_numbers == Some(true) && g.case_insensitive
            == input.case_insensitive && ov(g.file_type) == input.file_type && g.head_limit
            == input.head_limit && g.offset == input.offset && g.multiline == input.multiline,
    }
    &&& tool == "ListDir"@ ==> match input.path {
        None => r matches Err(e) && e@ == missing_field("path"@),
        Some(p) => r matches Ok(ToolCall::ListDir { path }) && path@ == p,
    }
    &&& !known_tool(tool) ==> (r matches Err(e) && e@ == unknown_tool(tool))
}

/// Which call a tool name and input ask for: `Read`, `Write`, `Edit` and
/// `ListDir` need `path`; `Write` needs `content` after it, and `Edit`
/// `old_string` then `new_string`; `Grep` needs `pattern`; `Glob` searches
/// `**/*.md` when it has no pattern; any other name is an unknown tool.
pub fn plan_tool_call(tool_name: &str, input: &ToolInput) -> (r: Result<ToolCall, String>)
    ensures
        plans(tool_name@, input@, r),
        known_tool(tool_name@) ==> planned_uniformly(tool_name@, input@, r),
{
    proof {
        reveal_strlit("Read");
        reveal_strlit("Write");
        reveal_strlit("Edit");
        reveal_strlit("Glob");
        reveal_strlit("Grep");
        reveal_strlit("ListDir");
        assert("Read"@[0] != "Write"@[0] && "Read"@[0] != "Edit"@[0] && "Read"@[0] != "Glob"@[0]);
        assert("Write"@.len() != "Edit"@.len() && "Write"@.len() != "Glob"@.len());
        assert("Edit"@[0] != "Glob"@[0] && "Glob"@[1] != "Grep"@[1]);
        assert("ListDir"@.len() != "Read"@.len() && "ListDir"@.len() != "Write"@.len());
    }
    let r = if text_equals(tool_name, "Read") {
        match &input.path {
            None => Err(missing_field_error("path")),
            Some(p) => Ok(ToolCall::Read { path: p.clone(), offset: input.offset, limit: input.limit }),
        }
    } else if text_equals(tool_name, "Write") {
        match &input.path {
            None => Err(missing_field_error("path")),
            Some(p) => match &input.content {
                None => Err(missing_field_error("content")),
                Some(c) => Ok(ToolCall::Write { path: p.clone(), content: c.clone() }),
            },
        }
    } else if text_equals(tool_name, "Edit") {
        match &input.path {
            None => Err(missing_field_error("path")),
            Some(p) => match &input.old_string {
                None => Err(missing_field_error("old_string")),
                Some(o) => match &input.new_string {
                    None => Err(missing_field_error("new_string")),
                    Some(n) => {
                        let replace_all = match input.replace_all {
                            Some(b) => b,
                            None => false,
                        };
                        Ok(
                            ToolCall::Edit {
                                path: p.clone(),
                                old_string: o.clone(),
                                new_string: n.clone(),
                                replace_all,
                            },
                        )
                    },
                },
            },
        }
    } else if text_equals(tool_name, "Glob") {
        let pattern = match &input.pattern {
            Some(p) => p.clone(),
            None => String::from_str("**/*.md"),
        };
        Ok(ToolCall::Glob { pattern, path: clone_opt(&input.path) })
    } else if text_equals(tool_name, "Grep") {
        match &input.pattern {
            None => Err(missing_field_error("pattern")),
            Some(p) => Ok(
                ToolCall::Grep(
                    GrepRequest {
                        pattern: p.clone(),
                        path: clone_opt(&input.path),
                        glob: clone_opt(&input.glob),
                        output_mode: clone_opt(&input.output_mode),
                        before: input.before,
                        after: input.after,
                        context_short: None,
                        context: input.context,
                        line_numbers: Some(true),
                        case_insensitive: input.case_insensitive,
                        file_type: clone_opt(&input.file_type),
                        head_limit: input.head_limit,
                        offset: input.offset,
                        multiline: input.multiline,
                    },
                ),
            ),
        }
    } else if text_equals(tool_name, "ListDir") {
        match &input.path {
            None => Err(missing_field_error("path")),
            Some(p) => Ok(ToolCall::ListDir { path: p.clone() }),
        }
    } else {
        let mut e = String::from_str("Unknown tool: ");
        e.append(tool_name);
        Err(e)
    };
    proof {
        lemma_planned_uniformly(tool_name@, input@, r);
    }
    r
}


/// What `serde_json` finds for the member `key` of the JSON text `text`
/// (`from_str` into a `Value`, then `get` and `as_str`): `None` when the
/// text is not JSON; otherwise the member's text when it is a string.
pub uninterp spec fn tool_input_json(text: Seq<char>, key: Seq<char>) -> Option<Option<Seq<char>>>;

/// As `tool_input_json`, for a member read with `as_u64`.
pub uninterp spec fn tool_input_number(text: Seq<char>, key: Seq<char>) -> Option<Option<u64>>;

/// As `tool_input_json`, for a member read with `as_bool`.
pub uninterp spec fn tool_input_flag(text: Seq<char>, key: Seq<char>) -> Option<Option<bool>>;

/// The message of the error that `serde_json::from_str` gives for a text
/// that is not JSON.
pub uninterp spec fn tool_input_error(text: Seq<char>) -> Seq<char>;

/// Parses `text` with `serde_json::from_str::<Value>` and reads the string
/// member `key` (`get`, then `as_str`); `None` when `text` is not JSON.
#[verifier::external_body]
fn json_text_member(text: &str, key: &str) -> (r: Option<Option<String>>)
    ensures
        match r {
            Some(m) => tool_input_json(text@, key@) == Some(ov(m)),
            None => tool_input_json(text@, key@) is None,
        },
{
    match serde_json::from_str::<serde_json::Value>(text) {
        Ok(v) => Some(v.get(key).and_then(|x| x.as_str()).map(|x| x.to_string())),
        Err(_) => None,
    }
}

/// Parses `text` with `serde_json::from_str::<Value>` and reads the member
/// `key` as a `u64` (`get`, then `as_u64`); `None` when `text` is not JSON.
#[verifier::external_body]
fn json_number_member(text: &str, key: &str) -> (r: Option<Option<u64>>)
    ensures
        r == tool_input_number(text@, key@),
{
    match serde_json::from_str::<serde_json::Value>(text) {
        Ok(v) => Some(v.get(key).and_then(|x| x.as_u64())),
        Err(_) => None,
    }
}

/// Parses `text` with `serde_json::from_str::<Value>` and reads the member
/// `key` as a `bool` (`get`, then `as_bool`); `None` when `text` is not JSON.
#[verifier::external_body]
fn json_flag_member(text: &str, key: &str) -> (r: Option<Option<bool>>)
    ensures
        r == tool_input_flag(text@, key@),
{
    match serde_json::from_str::<serde_json::Value>(text) {
        Ok(v) => Some(v.get(key).and_then(|x| x.as_bool())),
        Err(_) => None,
    }
}

/// Parses `text` with `serde_json::from_str::<Value>`: `None` when it is
/// JSON, else the error's message (its `Display`).  Parsing one text always
/// ends the same way, so every member reading of a JSON text finds a value
/// and every member reading of another text finds none.
#[verifier::external_body]
fn json_parse_error(text: &str) -> (r: Option<String>)
    ensures
        match r {
            Some(m) => {
                &&& m@ == tool_input_error(text@)
                &&& forall|k: Seq<char>| #[trigger] tool_input_json(text@, k) is None
                &&& forall|k: Seq<char>| #[trigger] tool_input_number(text@, k) is None
                &&& forall|k: Seq<char>| #[trigger] tool_input_flag(text@, k) is None
            },
            None => {
                &&& forall|k: Seq<char>| #[trigger] tool_input_json(text@, k) is Some
                &&& forall|k: Seq<char>| #[trigger] tool_input_number(text@, k) is Some
                &&& forall|k: Seq<char>| #[trigger] tool_input_flag(text@, k) is Some
            },
        },
{
    match serde_json::from_str::<serde_json::Value>(text) {
        Ok(_) => None,
        Err(e) => Some(e.to_string()),
    }
}

/// The member found, when the text is JSON.
pub open spec fn found<A>(o: Option<Option<A>>) -> Option<A> {
    match o {
        Some(m) => m,
        None => None,
    }
}

/// Whether a tool call's input text is JSON.
pub open spec fn is_tool_input_json(text: Seq<char>) -> bool {
    tool_input_json(text, "path"@) is Some
}

/// The tool input that a JSON input text holds: each member read as the
/// tools read it (`-B`, `-A`, `-C`, `-i` and `type` for `before`, `after`,
/// `context`, `case_insensitive` and `file_type`).
pub open spec fn json_tool_input(text: Seq<char>) -> ToolInputView {
    ToolInputView {
        path: found(tool_input_json(text, "path"@)),
        content: found(tool_input_json(text, "content"@)),
        old_string: found(tool_input_json(text, "old_string"@)),
        new_string: found(tool_input_json(text, "new_string"@)),
        replace_all: found(tool_input_flag(text, "replace_all"@)),
        pattern: found(tool_input_json(text, "pattern"@)),
        offset: found(tool_input_number(text, "offset"@)),
        limit: found(tool_input_number(text, "limit"@)),
        glob: found(tool_input_json(text, "glob"@)),
        output_mode: found(tool_input_json(text, "output_mode"@)),
        before: found(tool_input_number(text, "-B"@)),
        after: found(tool_input_number(text, "-A"@)),
        context: found(tool_input_number(text, "-C"@)),
        case_insensitive: found(tool_input_flag(text, "-i"@)),
        file_type: found(tool_input_json(text, "type"@)),
        head_limit: found(tool_input_number(text, "head_limit"@)),
        multiline: found(tool_input_flag(text, "multiline"@)),
    }
}

fn text_member(text: &str, key: &str) -> (r: Option<String>)
    requires
        tool_input_json(text@, key@) is Some,
    ensures
        ov(r) == found(tool_input_json(text@, key@)),
{
    match json_text_member(text, key) {
        Some(m) => m,
        None => None,
    }
}

fn number_member(text: &str, key: &str) -> (r: Option<u64>)
    requires
        tool_input_number(text@, key@) is Some,
    ensures
        r == found(tool_input_number(text@, key@)),
{
    match json_number_member(text, key) {
        Some(m) => m,
        None => None,
    }
}

fn flag_member(text: &str, key: &str) -> (r: Option<bool>)
    requires
        tool_input_flag(text@, key@) is Some,
    ensures
        r == found(tool_input_flag(text@, key@)),
{
    match json_flag_member(text, key) {
        Some(m) => m,
        None => None,
    }
}

/// The tool input held by a tool call's JSON input text (see
/// `json_tool_input`), or `serde_json`'s message when the text is not JSON.
pub fn parse_tool_input(text: &str) -> (r: Result<ToolInput, String>)
    ensures
        match r {
            Ok(input) => is_tool_input_json(text@) && input@ == json_tool_input(text@),
            Err(e) => !is_tool_input_json(text@) && e@ == tool_input_error(text@),
        },
{
    match json_parse_error(text) {
        Some(m) => Err(m),
        None => {
            let input = ToolInput {
                path: text_member(text, "path"),
                content: text_member(text, "content"),
                old_string: text_member(text, "old_string"),
                new_string: text_member(text, "new_string"),
                replace_all: flag_member(text, "replace_all"),
                pattern: text_member(text, "pattern"),
                offset: number_member(text, "offset"),
                limit: number_member(text, "limit"),
                glob: text_member(text, "glob"),
                output_mode: text_member(text, "output_mode"),
                before: number_member(text, "-B"),
                after: number_member(text, "-A"),
                context: number_member(text, "-C"),
                case_insensitive: flag_member(text, "-i"),
                file_type: text_member(text, "type"),
                head_limit: number_member(text, "head_limit"),
                multiline: flag_member(text, "multiline"),
            };
            Ok(input)
        },
    }
}

/// The prefix of the error for a tool input text that is not JSON.
pub open spec fn invalid_input_prefix() -> Seq<char> {
    "Invalid tool input JSON: "@
}

/// Which call a tool name and a JSON input text ask for: the error
/// `Invalid tool input JSON: <serde_json's message>` when the text is not
/// JSON, else what `plan_tool_call` gives for the input the text holds.
pub fn plan_tool_call_from_json(tool_name: &str, input_json: &str) -> (r: Result<ToolCall, String>)
    ensures
        !is_tool_input_json(input_json@) ==> (r matches Err(e) && e@ == invalid_input_prefix()
            + tool_input_error(input_json@)),
        is_tool_input_json(input_json@) ==> plans(tool_name@, json_tool_input(input_json@), r),
        is_tool_input_json(input_json@) && known_tool(tool_name@) ==> planned_uniformly(
            tool_name@,
            json_tool_input(input_json@),
            r,
        ),
{
    match parse_tool_input(input_json) {
        Err(m) => {
            let mut e = String::from_str("Invalid tool input JSON: ");
            e.append(m.as_str());
            Err(e)
        },
        Ok(input) => plan_tool_call(tool_name, &input),
    }
}

/// A call planned from a JSON input text carries the text's members as
/// `serde_json` reads them: `Read` its `path`, `offset` and `limit`;
/// `Write` its `path` and `content`; `Edit` its `path`, `old_string`,
/// `new_string`, and `replace_all` exactly when that member is `true`;
/// `ListDir` its `path`; `Glob` its `pattern` (else `**/*.md`) and `path`;
/// `Grep` its `pattern`, `path`, `glob`, `output_mode`, `-B`, `-A`, `-C`,
/// `-i`, `type`, `head_limit`, `offset` and `multiline`.  A call that needs
/// a string member the text lacks is refused.
pub proof fn lemma_calls_carry_json_members(tool: Seq<char>, text: Seq<char>, r: Result<ToolCall, String>)
    requires
        is_tool_input_json(text),
        plans(tool, json_tool_input(text), r),
    ensures
        tool == "Read"@ ==> match tool_input_json(text, "path"@) {
            Some(Some(p)) => r matches Ok(ToolCall::Read { path, offset, limit }) && path@ == p && offset
                == found(tool_input_number(text, "offset"@)) && limit == found(
                tool_input_number(text, "limit"@),
            ),
            _ => r is Err,
        },
        tool == "Write"@ ==> match (tool_input_json(text, "path"@), tool_input_json(text, "content"@)) {
            (Some(Some(p)), Some(Some(c))) => r matches Ok(ToolCall::Write { path, content }) && path@
                == p && content@ == c,
            _ => r is Err,
        },
        tool == "Edit"@ ==> match (
            tool_input_json(text, "path"@),
            tool_input_json(text, "old_string"@),
            tool_input_json(text, "new_string"@),
        ) {
            (Some(Some(p)), Some(Some(o)), Some(Some(n))) => r matches Ok(
                ToolCall::Edit { path, old_string, new_string, replace_all },
            ) && path@ == p && old_string@ == o && new_string@ == n && replace_all == (tool_input_flag(
                text,
                "replace_all"@,
            ) == Some(Some(true))),
            _ => r is Err,
        },
        tool == "ListDir"@ ==> match tool_input_json(text, "path"@) {
            Some(Some(p)) => r matches Ok(ToolCall::ListDir { path }) && path@ == p,
            _ => r is Err,
        },
        tool == "Glob"@ ==> (r matches Ok(ToolCall::Glob { pattern, path }) && pattern@ == (
        match tool_input_json(text, "pattern"@) {
            Some(Some(p)) => p,
            _ => "**/*.md"@,
        }) && ov(path) == found(tool_input_json(text, "path"@))),
        tool == "Grep"@ ==> match tool_input_json(text, "pattern"@) {
            Some(Some(p)) => r matches Ok(ToolCall::Grep(g)) && g.pattern@ == p && ov(g.path) == found(
                tool_input_json(text, "path"@),
            ) && ov(g.glob) == found(tool_input_json(text, "glob"@)) && ov(g.output_mode) == found(
                tool_input_json(text, "output_mode"@),
            ) && g.before == found(tool_input_number(text, "-B"@)) && g.after == found(
                tool_input_number(text, "-A"@),
            ) && g.context == found(tool_input_number(text, "-C"@)) && g.case_insensitive == found(
                tool_input_flag(text, "-i"@),
            ) && ov(g.file_type) == found(tool_input_json(text, "type"@)) && g.head_limit == found(
                tool_input_number(text, "head_limit"@),
            ) && g.offset == found(tool_input_number(text, "offset"@)) && g.multiline == found(
                tool_input_flag(text, "multiline"@),
            ),
            _ => r is Err,
        },
{
}

/// An event of a streamed model reply.
#[derive(Debug, Clone)]
pub enum SseEvent {
    ContentBlockStart { index: u64, block_type: String, id: Option<String>, name: Option<String> },
    ContentBlockDelta { index: u64, delta_type: String, delta: String },
    ContentBlockStop { index: u64 },
    MessageDelta { stop_reason: Option<String> },
    MessageStop,
    Error { error: String },
    /// Any other event; a turn ignores it.
    Other,
}

/// A block of the assistant's message: text, or a tool call with the JSON
/// text of its input.
#[derive(Debug, Clone)]
pub enum AssistantBlock {
    Text { text: String },
    ToolUse { id: String, name: String, input: String },
}

/// An assistant block as plain text values.
pub enum BlockView {
    Text(Seq<char>),
    ToolUse(Seq<char>, Seq<char>, Seq<char>),
}

impl View for AssistantBlock {
    type V = BlockView;

    open spec fn view(&self) -> BlockView {
        match self {
            AssistantBlock::Text { text } => BlockView::Text(text@),
            AssistantBlock::ToolUse { id, name, input } => BlockView::ToolUse(id@, name@, input@),
        }
    }
}

/// The views of a list of blocks.
pub open spec fn block_views(v: Seq<AssistantBlock>) -> Seq<BlockView> {
    v.map_values(|b: AssistantBlock| b@)
}

/// The texts joined, in order.
pub open spec fn concat_all(parts: Seq<Seq<char>>) -> Seq<char>
    decreases parts.len(),
{
    if parts.len() == 0 {
        Seq::empty()
    } else {
        concat_all(parts.drop_last()) + parts.last()
    }
}

/// The text of the text blocks, joined in order.
pub open spec fn text_of_blocks(blocks: Seq<BlockView>) -> Seq<char>
    decreases blocks.len(),
{
    if blocks.len() == 0 {
        Seq::empty()
    } else {
        text_of_blocks(blocks.drop_last()) + match blocks.last() {
            BlockView::Text(t) => t,
            BlockView::ToolUse(_, _, _) => Seq::empty(),
        }
    }
}

/// What reading a turn has gathered so far: text pieces not yet closed into
/// a block, the blocks, the tool call being read, the stop reason, and the
/// reply text of the closed text blocks.
#[verifier::ext_equal]
pub struct TurnView {
    pub parts: Seq<Seq<char>>,
    pub blocks: Seq<BlockView>,
    pub tool_input: Seq<char>,
    pub tool_id: Option<Seq<char>>,
    pub tool_name: Option<Seq<char>>,
    pub in_tool_use: bool,
    pub stop_reason: Option<Seq<char>>,
    pub reply: Seq<char>,
}

/// What `serde_json` finds in a tool call's input text: `None` when the text
/// is not JSON; otherwise its string members `id` and `name`, and the
/// compact JSON text of its member `input`, each when present.
pub uninterp spec fn tool_json(text: Seq<char>) -> Option<(Option<Seq<char>>, Option<Seq<char>>, Option<Seq<char>>)>;

/// The members of a tool call's input.
pub struct ToolJsonFields {
    pub id: Option<String>,
    pub name: Option<String>,
    pub input: Option<String>,
}

/// Parses a tool call's accumulated input text with `serde_json::from_str`
/// and takes out its string members `id` and `name` and the text of its
/// member `input` (as `Value`'s `Display` writes it).  The contract says
/// only that the result is what that parse gives for exactly this text.
#[verifier::external_body]
fn parse_tool_json(text: &str) -> (r: Option<ToolJsonFields>)
    ensures
        match r {
            Some(f) => tool_json(text@) == Some((ov(f.id), ov(f.name), ov(f.input))),
            None => tool_json(text@) is None,
        },
{
    match serde_json::from_str::<serde_json::Value>(text) {
        Ok(v) => Some(ToolJsonFields {
            id: v.get("id").and_then(|x| x.as_str()).map(|x| x.to_string()),
            name: v.get("name").and_then(|x| x.as_str()).map(|x| x.to_string()),
            input: v.get("input").map(|x| x.to_string()),
        }),
        Err(_) => None,
    }
}

/// The gathered text pieces closed into a text block, when there are any.
pub open spec fn flushed(v: TurnView) -> TurnView {
    if v.parts.len() > 0 {
        TurnView {
            parts: Seq::empty(),
            blocks: v.blocks.push(BlockView::Text(concat_all(v.parts))),
            reply: v.reply + concat_all(v.parts),
            ..v
        }
    } else {
        v
    }
}

/// The first present value, else the empty text.
pub open spec fn first_or_empty(a: Option<Seq<char>>, b: Option<Seq<char>>) -> Seq<char> {
    match a {
        Some(x) => x,
        None => match b {
            Some(y) => y,
            None => Seq::empty(),
        },
    }
}

/// The end of a tool call block: text gathered before it is closed into a
/// block; when the call's input text parses, a tool call block follows with
/// the id and name from the block's start (else from the input), and the
/// input's `input` member (else `{}`).
pub open spec fn tool_block_closed(v: TurnView, parsed: Option<(Option<Seq<char>>, Option<Seq<char>>, Option<Seq<char>>)>) -> TurnView {
    let f = TurnView { in_tool_use: false, ..flushed(v) };
    match parsed {
        Some((jid, jname, jinput)) => TurnView {
            blocks: f.blocks.push(
                BlockView::ToolUse(
                    first_or_empty(v.tool_id, jid),
                    first_or_empty(v.tool_name, jname),
                    match jinput {
                        Some(i) => i,
                        None => "{}"@,
                    },
                ),
            ),
            tool_id: None,
            tool_name: None,
            ..f
        },
        None => f,
    }
}

/// How reading an event changes what a turn has gathered.
pub open spec fn turn_step(v: TurnView, e: SseEvent) -> TurnView {
    match e {
        SseEvent::ContentBlockDelta { delta_type, delta, .. } => if delta_type@ == "text"@
            || delta_type@ == "text_delta"@ {
            TurnView { parts: v.parts.push(delta@), ..v }
        } else if delta_type@ == "input_json_delta"@ && v.in_tool_use {
            TurnView { tool_input: v.tool_input + delta@, ..v }
        } else {
            v
        },
        SseEvent::ContentBlockStart { block_type, id, name, .. } => if block_type@ == "tool_use"@ {
            TurnView {
                in_tool_use: true,
                tool_input: Seq::empty(),
                tool_id: ov(id),
                tool_name: ov(name),
                ..v
            }
        } else {
            v
        },
        SseEvent::ContentBlockStop { .. } => if v.in_tool_use {
            tool_block_closed(v, tool_json(v.tool_input))
        } else {
            v
        },
        SseEvent::MessageDelta { stop_reason } => TurnView { stop_reason: ov(stop_reason), ..v },
        SseEvent::MessageStop => flushed(v),
        SseEvent::Error { .. } => v,
        SseEvent::Other => v,
    }
}

/// Whether the reply text gathered is the text of the text blocks.
pub open spec fn reply_consistent(v: TurnView) -> bool {
    v.reply == text_of_blocks(v.blocks)
}

/// Reading any event keeps the reply text equal to the text of the text
/// blocks, in order: what the chat shows as the reply is what the assistant
/// message records.
pub proof fn lemma_step_keeps_reply(v: TurnView, e: SseEvent)
    requires
        reply_consistent(v),
    ensures
        reply_consistent(turn_step(v, e)),
{
    let f = flushed(v);
    if v.parts.len() > 0 {
        assert(f.blocks.drop_last() =~= v.blocks);
    }
    assert(reply_consistent(f));
    match e {
        SseEvent::ContentBlockStop { .. } => {
            if v.in_tool_use {
                let g = TurnView { in_tool_use: false, ..f };
                match tool_json(v.tool_input) {
                    Some((jid, jname, jinput)) => {
                        let nb = g.blocks.push(
                            BlockView::ToolUse(
                                first_or_empty(v.tool_id, jid),
                                first_or_empty(v.tool_name, jname),
                                match jinput {
                                    Some(i) => i,
                                    None => "{}"@,
                                },
                            ),
                        );
                        assert(nb.drop_last() =~= g.blocks);
                        assert(text_of_blocks(nb) =~= text_of_blocks(g.blocks));
                    },
                    None => {},
                }
            }
        },
        _ => {},
    }
}

/// The events of a turn read one after another.
pub open spec fn turn_steps(v: TurnView, es: Seq<SseEvent>) -> TurnView
    decreases es.len(),
{
    if es.len() == 0 {
        v
    } else {
        turn_step(turn_steps(v, es.drop_last()), es.last())
    }
}

/// Whether an event starts a tool call block.
pub open spec fn is_tool_start(e: SseEvent) -> bool {
    e matches SseEvent::ContentBlockStart { block_type, .. } && block_type@ == "tool_use"@
}

/// Whether an event is a piece of a tool call's input text.
pub open spec fn is_input_delta(e: SseEvent) -> bool {
    e matches SseEvent::ContentBlockDelta { delta_type, .. } && delta_type@ == "input_json_delta"@
}

/// Whether an event is a piece of reply text.
pub open spec fn is_text_delta(e: SseEvent) -> bool {
    e matches SseEvent::ContentBlockDelta { delta_type, .. } && (delta_type@ == "text"@ || delta_type@
        == "text_delta"@)
}

/// The text an event carries, if it is a delta.
pub open spec fn event_delta(e: SseEvent) -> Seq<char> {
    match e {
        SseEvent::ContentBlockDelta { delta, .. } => delta@,
        _ => Seq::empty(),
    }
}

/// The id a block start names.
pub open spec fn start_id(e: SseEvent) -> Option<Seq<char>> {
    match e {
        SseEvent::ContentBlockStart { id, .. } => ov(id),
        _ => None,
    }
}

/// The tool name a block start names.
pub open spec fn start_name(e: SseEvent) -> Option<Seq<char>> {
    match e {
        SseEvent::ContentBlockStart { name, .. } => ov(name),
        _ => None,
    }
}

/// The texts the events carry, joined in order.
pub open spec fn joined_deltas(es: Seq<SseEvent>) -> Seq<char> {
    concat_all(es.map_values(|e: SseEvent| event_delta(e)))
}

proof fn lemma_delta_kinds()
    ensures
        "input_json_delta"@ != "text"@,
        "input_json_delta"@ != "text_delta"@,
{
    reveal_strlit("input_json_delta");
    reveal_strlit("text");
    reveal_strlit("text_delta");
    assert("input_json_delta"@.len() != "text"@.len());
    assert("input_json_delta"@.len() != "text_delta"@.len());
}

/// After a tool call block starts, the input text gathered is exactly the
/// input pieces received since that start, joined in order, whatever was
/// gathered before; the block start's id and name are kept, and the blocks,
/// pending text and reply are left as they were.
pub proof fn lemma_tool_input_gathered(v: TurnView, start: SseEvent, deltas: Seq<SseEvent>)
    requires
        is_tool_start(start),
        forall|k: int| 0 <= k < deltas.len() ==> is_input_delta(#[trigger] deltas[k]),
    ensures
        turn_steps(turn_step(v, start), deltas).in_tool_use,
        turn_steps(turn_step(v, start), deltas).tool_input == joined_deltas(deltas),
        turn_steps(turn_step(v, start), deltas).tool_id == start_id(start),
        turn_steps(turn_step(v, start), deltas).tool_name == start_name(start),
        turn_steps(turn_step(v, start), deltas).blocks == v.blocks,
        turn_steps(turn_step(v, start), deltas).parts == v.parts,
        turn_steps(turn_step(v, start), deltas).reply == v.reply,
    decreases deltas.len(),
{
    lemma_delta_kinds();
    let f = |e: SseEvent| event_delta(e);
    if deltas.len() == 0 {
        assert(deltas.map_values(f) =~= Seq::<Seq<char>>::empty());
    } else {
        let d = deltas.drop_last();
        assert forall|k: int| 0 <= k < d.len() implies is_input_delta(#[trigger] d[k]) by {
            assert(d[k] == deltas[k]);
        }
        lemma_tool_input_gathered(v, start, d);
        assert(is_input_delta(deltas[deltas.len() - 1]));
        assert(deltas.map_values(f).drop_last() =~= d.map_values(f));
    }
}

/// When a tool call block ends and its gathered input text parses with an
/// `input` member, the turn gains one tool call block carrying the block
/// start's id and name and that member's text, after a text block for any
/// text gathered before it.
pub proof fn lemma_tool_block_from_gathered_input(
    v: TurnView,
    start: SseEvent,
    deltas: Seq<SseEvent>,
    stop: SseEvent,
)
    requires
        is_tool_start(start),
        forall|k: int| 0 <= k < deltas.len() ==> is_input_delta(#[trigger] deltas[k]),
        stop is ContentBlockStop,
        start_id(start) is Some,
        start_name(start) is Some,
        tool_json(joined_deltas(deltas)) matches Some((_, _, Some(_))),
    ensures
        turn_step(turn_steps(turn_step(v, start), deltas), stop).blocks == (if v.parts.len() > 0 {
            v.blocks.push(BlockView::Text(concat_all(v.parts)))
        } else {
            v.blocks
        }).push(
            BlockView::ToolUse(
                start_id(start).unwrap(),
                start_name(start).unwrap(),
                tool_json(joined_deltas(deltas)).unwrap().2.unwrap(),
            ),
        ),
        !turn_step(turn_steps(turn_step(v, start), deltas), stop).in_tool_use,
{
    lemma_tool_input_gathered(v, start, deltas);
}

/// Reading pieces of reply text and then the end of the message gives the
/// reply text gathered before, then the pending text, then the pieces in
/// order; and one text block holding the pending text and the pieces, when
/// there are any.
pub proof fn lemma_reply_from_text_deltas(v: TurnView, deltas: Seq<SseEvent>, stop: SseEvent)
    requires
        forall|k: int| 0 <= k < deltas.len() ==> is_text_delta(#[trigger] deltas[k]),
        stop is MessageStop,
    ensures
        turn_steps(v, deltas).parts == v.parts + deltas.map_values(|e: SseEvent| event_delta(e)),
        turn_steps(v, deltas).reply == v.reply,
        turn_steps(v, deltas).blocks == v.blocks,
        turn_step(turn_steps(v, deltas), stop).reply == v.reply + concat_all(v.parts) + joined_deltas(
            deltas,
        ),
        v.parts.len() + deltas.len() > 0 ==> turn_step(turn_steps(v, deltas), stop).blocks == v.blocks.push(
            BlockView::Text(concat_all(v.parts) + joined_deltas(deltas)),
        ),
        turn_step(turn_steps(v, deltas), stop).parts.len() == 0,
    decreases deltas.len(),
{
    let f = |e: SseEvent| event_delta(e);
    lemma_concat_all_append(v.parts, deltas.map_values(f));
    if deltas.len() == 0 {
        assert(v.parts + deltas.map_values(f) =~= v.parts);
        assert(deltas.map_values(f) =~= Seq::<Seq<char>>::empty());
    } else {
        let d = deltas.drop_last();
        assert forall|k: int| 0 <= k < d.len() implies is_text_delta(#[trigger] d[k]) by {
            assert(d[k] == deltas[k]);
        }
        lemma_reply_from_text_deltas(v, d, stop);
        assert(is_text_delta(deltas[deltas.len() - 1]));
        assert(deltas.map_values(f).drop_last() =~= d.map_values(f));
        assert(v.parts + deltas.map_values(f) =~= (v.parts + d.map_values(f)).push(event_delta(deltas.last())));
    }
    let w = turn_steps(v, deltas);
    assert(w.parts == v.parts + deltas.map_values(f));
    assert(concat_all(w.parts) == concat_all(v.parts) + joined_deltas(deltas));
    if w.parts.len() == 0 {
        assert(v.parts.len() == 0 && deltas.len() == 0);
        assert(concat_all(v.parts) + joined_deltas(deltas) =~= Seq::<char>::empty());
        assert(v.reply + concat_all(v.parts) + joined_deltas(deltas) =~= v.reply);
    } else {
        assert(v.reply + concat_all(v.parts) + joined_deltas(deltas) =~= v.reply + concat_all(w.parts));
    }
}

proof fn lemma_concat_all_append(a: Seq<Seq<char>>, b: Seq<Seq<char>>)
    ensures
        concat_all(a + b) == concat_all(a) + concat_all(b),
    decreases b.len(),
{
    if b.len() == 0 {
        assert(a + b =~= a);
        assert(concat_all(a) + concat_all(b) =~= concat_all(a));
    } else {
        lemma_concat_all_append(a, b.drop_last());
        assert((a + b).drop_last() =~= a + b.drop_last());
        assert(concat_all(a) + concat_all(b) =~= concat_all(a) + concat_all(b.drop_last()) + b.last());
    }
}

/// What the reader of a turn does after an event.
#[derive(Debug)]
pub enum StepOutcome {
    /// Read on.
    Continue,
    /// Show this piece of reply text now, then read on.
    Token(String),
    /// The reply is complete.
    Finished,
    /// The stream reported an error; the request fails with this message.
    Failed(String),
}

/// The outcome of an event (see `StepOutcome`): text deltas are shown,
/// the message stop ends the turn, an error `e` fails it with `SSE error: e`.
pub open spec fn step_outcome_ok(e: SseEvent, o: StepOutcome) -> bool {
    match e {
        SseEvent::ContentBlockDelta { delta_type, delta, .. } => if delta_type@ == "text"@
            || delta_type@ == "text_delta"@ {
            o matches StepOutcome::Token(t) && t@ == delta@
        } else {
            o is Continue
        },
        SseEvent::MessageStop => o is Finished,
        SseEvent::Error { error } => o matches StepOutcome::Failed(m) && m@ == "SSE error: "@ + error@,
        _ => o is Continue,
    }
}

/// The reading of one streamed turn.
pub struct TurnState {
    parts: Vec<String>,
    blocks: Vec<AssistantBlock>,
    tool_input: String,
    tool_id: Option<String>,
    tool_name: Option<String>,
    in_tool_use: bool,
    stop_reason: Option<String>,
    reply: String,
}

impl View for TurnState {
    type V = TurnView;

    closed spec fn view(&self) -> TurnView {
        TurnView {
            parts: views(self.parts@),
            blocks: block_views(self.blocks@),
            tool_input: self.tool_input@,
            tool_id: ov(self.tool_id),
            tool_name: ov(self.tool_name),
            in_tool_use: self.in_tool_use,
            stop_reason: ov(self.stop_reason),
            reply: self.reply@,
        }
    }
}

impl TurnState {
    #[verifier::type_invariant]
    spec fn reply_matches_blocks(&self) -> bool {
        self.reply@ == text_of_blocks(block_views(self.blocks@))
    }

    /// A turn with nothing read yet.
    pub fn new() -> (t: Self)
        ensures
            t@.parts.len() == 0,
            t@.blocks.len() == 0,
            t@.tool_input.len() == 0,
            t@.tool_id is None,
            t@.tool_name is None,
            !t@.in_tool_use,
            t@.stop_reason is None,
            t@.reply.len() == 0,
    {
        TurnState {
            parts: Vec::new(),
            blocks: Vec::new(),
            tool_input: String::new(),
            tool_id: None,
            tool_name: None,
            in_tool_use: false,
            stop_reason: None,
            reply: String::new(),
        }
    }

    /// The turn with its text pieces closed into a text block, when there are any.
    fn flushed_turn(self) -> (r: Self)
        ensures
            r@ == flushed(self@),
    {
        proof {
            use_type_invariant(&self);
        }
        let TurnState { parts, blocks, tool_input, tool_id, tool_name, in_tool_use, stop_reason, reply } = self;
        if parts.len() == 0 {
            return TurnState { parts, blocks, tool_input, tool_id, tool_name, in_tool_use, stop_reason, reply };
        }
        let ghost pv = views(parts@);
        let mut combined = String::new();
        let mut i: usize = 0;
        while i < parts.len()
            invariant
                i <= parts.len(),
                pv == views(parts@),
                combined@ == concat_all(pv.take(i as int)),
            decreases parts.len() - i,
        {
            combined.append(parts[i].as_str());
            assert(pv.take(i + 1).drop_last() =~= pv.take(i as int));
            assert(pv[i as int] == parts@[i as int]@);
            i = i + 1;
        }
        assert(pv.take(parts.len() as int) =~= pv);
        let ghost old_blocks = block_views(blocks@);
        let mut reply = reply;
        reply.append(combined.as_str());
        let mut blocks = blocks;
        blocks.push(AssistantBlock::Text { text: combined });
        proof {
            assert(block_views(blocks@) =~= old_blocks.push(BlockView::Text(concat_all(pv))));
            assert(block_views(blocks@).drop_last() =~= old_blocks);
        }
        let r = TurnState { parts: Vec::new(), blocks, tool_input, tool_id, tool_name, in_tool_use, stop_reason, reply };
        assert(r@ =~= flushed(self@));
        r
    }

    /// The end of a tool call block, given what parsing its input gave
    /// (see `tool_block_closed`).
    fn close_tool_block(self, parsed: Option<ToolJsonFields>) -> (r: Self)
        requires
            self@.in_tool_use,
        ensures
            r@ == tool_block_closed(
                self@,
                match parsed {
                    Some(f) => Some((ov(f.id), ov(f.name), ov(f.input))),
                    None => None,
                },
            ),
    {
        let ghost v = self@;
        let t = self.flushed_turn();
        proof {
            use_type_invariant(&t);
        }
        let TurnState { parts, blocks, tool_input, tool_id, tool_name, in_tool_use: _, stop_reason, reply } = t;
        match parsed {
            None => {
                let r = TurnState { parts, blocks, tool_input, tool_id, tool_name, in_tool_use: false, stop_reason, reply };
                assert(r@ =~= tool_block_closed(v, None));
                r
            },
            Some(f) => {
                let ghost pf = (ov(f.id), ov(f.name), ov(f.input));
                let id = match tool_id {
                    Some(x) => x,
                    None => match f.id {
                        Some(y) => y,
                        None => String::new(),
                    },
                };
                let name = match tool_name {
                    Some(x) => x,
                    None => match f.name {
                        Some(y) => y,
                        None => String::new(),
                    },
                };
                let input = match f.input {
                    Some(i) => i,
                    None => String::from_str("{}"),
                };
                let ghost old_blocks = block_views(blocks@);
                let mut blocks = blocks;
                blocks.push(AssistantBlock::ToolUse { id, name, input });
                proof {
                    assert(block_views(blocks@).drop_last() =~= old_blocks);
                }
                let r = TurnState {
                    parts,
                    blocks,
                    tool_input,
                    tool_id: None,
                    tool_name: None,
                    in_tool_use: false,
                    stop_reason,
                    reply,
                };
                assert(r@ =~= tool_block_closed(v, Some(pf)));
                r
            },
        }
    }

    /// The turn after one event, and what to do next.
    pub fn stepped(self, event: SseEvent) -> (r: (Self, StepOutcome))
        ensures
            r.0@ == turn_step(self@, event),
            step_outcome_ok(event, r.1),
    {
        proof {
            use_type_invariant(&self);
            reveal_strlit("text");
            reveal_strlit("text_delta");
            reveal_strlit("input_json_delta");
        }
        let ghost v = self@;
        match event {
            SseEvent::ContentBlockDelta { index: _, delta_type, delta } => {
                if text_equals(delta_type.as_str(), "text") || text_equals(delta_type.as_str(), "text_delta") {
                    let TurnState { parts, blocks, tool_input, tool_id, tool_name, in_tool_use, stop_reason, reply } = self;
                    let mut parts = parts;
                    let token = delta.clone();
                    parts.push(delta);
                    let r = TurnState { parts, blocks, tool_input, tool_id, tool_name, in_tool_use, stop_reason, reply };
                    assert(r@ =~= turn_step(v, SseEvent::ContentBlockDelta { index: 0, delta_type, delta: token }));
                    (r, StepOutcome::Token(token))
                } else if text_equals(delta_type.as_str(), "input_json_delta") && self.in_tool_use {
                    let TurnState { parts, blocks, tool_input, tool_id, tool_name, in_tool_use, stop_reason, reply } = self;
                    let mut tool_input = tool_input;
                    tool_input.append(delta.as_str());
                    let r = TurnState { parts, blocks, tool_input, tool_id, tool_name, in_tool_use, stop_reason, reply };
                    assert(r@ =~= turn_step(v, SseEvent::ContentBlockDelta { index: 0, delta_type, delta }));
                    (r, StepOutcome::Continue)
                } else {
                    (self, StepOutcome::Continue)
                }
            },
            SseEvent::ContentBlockStart { index: _, block_type, id, name } => {
                if text_equals(block_type.as_str(), "tool_use") {
                    let TurnState { parts, blocks, tool_input: _, tool_id: _, tool_name: _, in_tool_use: _, stop_reason, reply } = self;
                    let ghost e = SseEvent::ContentBlockStart { index: 0, block_type, id, name };
                    let r = TurnState {
                        parts,
                        blocks,
                        tool_input: String::new(),
                        tool_id: id,
                        tool_name: name,
                        in_tool_use: true,
                        stop_reason,
                        reply,
                    };
                    assert(r@ =~= turn_step(v, e));
                    (r, StepOutcome::Continue)
                } else {
                    (self, StepOutcome::Continue)
                }
            },
            SseEvent::ContentBlockStop { index: _ } => {
                if self.in_tool_use {
                    let parsed = parse_tool_json(self.tool_input.as_str());
                    (self.close_tool_block(parsed), StepOutcome::Continue)
                } else {
                    (self, StepOutcome::Continue)
                }
            },
            SseEvent::MessageDelta { stop_reason } => {
                let TurnState { parts, blocks, tool_input, tool_id, tool_name, in_tool_use, stop_reason: _, reply } = self;
                let ghost e = SseEvent::MessageDelta { stop_reason };
                let r = TurnState { parts, blocks, tool_input, tool_id, tool_name, in_tool_use, stop_reason, reply };
                assert(r@ =~= turn_step(v, e));
                (r, StepOutcome::Continue)
            },
            SseEvent::MessageStop => (self.flushed_turn(), StepOutcome::Finished),
            SseEvent::Error { error } => {
                let mut m = String::from_str("SSE error: ");
                m.append(error.as_str());
                (self, StepOutcome::Failed(m))
            },
            SseEvent::Other => (self, StepOutcome::Continue),
        }
    }

    /// Reads one event (see `turn_step` and `step_outcome_ok`).
    pub fn step(&mut self, event: SseEvent) -> (o: StepOutcome)
        ensures
            final(self)@ == turn_step(old(self)@, event),
            step_outcome_ok(event, o),
    {
        let mut cur = TurnState::new();
        std::mem::swap(&mut cur, self);
        let (next, o) = cur.stepped(event);
        *self = next;
        o
    }
}


/// A message sent to the model.
#[derive(Debug, Clone)]
pub enum ChatEntry {
    /// A plain message with a role.
    Text { role: String, content: String },
    /// The assistant's blocks of one turn.
    Assistant { blocks: Vec<AssistantBlock> },
    /// The user's message carrying a tool's result.
    ToolResult { tool_use_id: String, text: String },
}

/// A chat entry as plain text values.
pub enum EntryView {
    Text(Seq<char>, Seq<char>),
    Assistant(Seq<BlockView>),
    ToolResult(Seq<char>, Seq<char>),
}

impl View for ChatEntry {
    type V = EntryView;

    open spec fn view(&self) -> EntryView {
        match self {
            ChatEntry::Text { role, content } => EntryView::Text(role@, content@),
            ChatEntry::Assistant { blocks } => EntryView::Assistant(block_views(blocks@)),
            ChatEntry::ToolResult { tool_use_id, text } => EntryView::ToolResult(tool_use_id@, text@),
        }
    }
}

/// The views of a list of entries.
pub open spec fn entry_views(v: Seq<ChatEntry>) -> Seq<EntryView> {
    v.map_values(|e: ChatEntry| e@)
}

/// How `serde_json` writes one character inside a JSON string: `"` and `\`
/// behind a backslash, the controls with a short escape as `\b`, `\t`,
/// `\n`, `\f`, `\r`, the other controls below U+0020 as `\u00` and two
/// lower-case hex digits, and every other character as it is.
pub open spec fn json_escaped_char(c: char) -> Seq<char> {
    if c == '"' {
        seq!['\\', '"']
    } else if c == '\\' {
        seq!['\\', '\\']
    } else if c == '\u{8}' {
        seq!['\\', 'b']
    } else if c == '\t' {
        seq!['\\', 't']
    } else if c == '\n' {
        seq!['\\', 'n']
    } else if c == '\u{c}' {
        seq!['\\', 'f']
    } else if c == '\r' {
        seq!['\\', 'r']
    } else if (c as nat) < 32 {
        seq!['\\', 'u', '0', '0', digit_spec((c as nat) / 16), digit_spec((c as nat) % 16)]
    } else {
        seq![c]
    }
}

/// The contents of a JSON string holding `s`, as `serde_json` writes them.
pub open spec fn json_escaped(s: Seq<char>) -> Seq<char>
    decreases s.len(),
{
    if s.len() == 0 {
        Seq::empty()
    } else {
        json_escaped(s.drop_last()) + json_escaped_char(s.last())
    }
}

/// The JSON text of the object `{"error": e}`: `{"error":"`, the escaped
/// message, `"}`.
pub open spec fn error_object_json(e: Seq<char>) -> Seq<char> {
    "{\"error\":\""@ + json_escaped(e) + "\"}"@
}

/// Writes the JSON object `{"error": e}` with `serde_json` (a `Value::Object`
/// holding one string member, written by `Value`'s `Display`, which writes
/// compact JSON and escapes strings as `json_escaped` says).
#[verifier::external_body]
fn error_object(e: &str) -> (r: String)
    ensures
        r@ == error_object_json(e@),
{
    let mut members = serde_json::Map::new();
    members.insert("error".to_string(), serde_json::Value::String(e.to_string()));
    serde_json::Value::Object(members).to_string()
}

/// The text a tool call answers the model with: the tool's output, or for
/// a failed call the JSON object `{"error": <message>}`.
pub fn tool_result_text(outcome: &Result<String, String>) -> (r: String)
    ensures
        match outcome {
            Ok(out) => r@ == out@,
            Err(e) => r@ == error_object_json(e@),
        },
{
    match outcome {
        Ok(out) => out.clone(),
        Err(e) => error_object(e.as_str()),
    }
}

/// A tool call the model asked for in a turn.
#[derive(Debug, Clone)]
pub struct PendingTool {
    pub id: String,
    pub name: String,
    pub input: String,
}

/// The tool calls among the blocks, in order, as (id, name, input).
pub open spec fn tool_calls(blocks: Seq<BlockView>) -> Seq<(Seq<char>, Seq<char>, Seq<char>)>
    decreases blocks.len(),
{
    if blocks.len() == 0 {
        Seq::empty()
    } else {
        let rest = tool_calls(blocks.drop_last());
        match blocks.last() {
            BlockView::ToolUse(id, name, input) => rest.push((id, name, input)),
            BlockView::Text(_) => rest,
        }
    }
}

/// The tool calls of a turn are its tool call blocks, one each and in
/// order: a text block gives none, a tool call block gives its own
/// (id, name, input), and the calls of blocks one after another are the
/// calls of the first blocks followed by those of the others.
pub proof fn lemma_tool_calls_follow_blocks(a: Seq<BlockView>, b: Seq<BlockView>, t: Seq<char>, id: Seq<char>, name: Seq<char>, input: Seq<char>)
    ensures
        tool_calls(Seq::<BlockView>::empty()) == Seq::<(Seq<char>, Seq<char>, Seq<char>)>::empty(),
        tool_calls(seq![BlockView::Text(t)]) == Seq::<(Seq<char>, Seq<char>, Seq<char>)>::empty(),
        tool_calls(seq![BlockView::ToolUse(id, name, input)]) == seq![(id, name, input)],
        tool_calls(a + b) == tool_calls(a) + tool_calls(b),
    decreases b.len(),
{
    let e = Seq::<BlockView>::empty();
    assert(seq![BlockView::Text(t)].drop_last() =~= e);
    assert(seq![BlockView::ToolUse(id, name, input)].drop_last() =~= e);
    if b.len() == 0 {
        assert(a + b =~= a);
        assert(tool_calls(a) + tool_calls(b) =~= tool_calls(a));
    } else {
        lemma_tool_calls_follow_blocks(a, b.drop_last(), t, id, name, input);
        assert((a + b).drop_last() =~= a + b.drop_last());
        assert((a + b).last() == b.last());
        match b.last() {
            BlockView::ToolUse(i, n, x) => {
                assert(tool_calls(a) + tool_calls(b) =~= (tool_calls(a) + tool_calls(b.drop_last())).push(
                    (i, n, x),
                ));
            },
            BlockView::Text(_) => {},
        }
    }
}

/// Whether a block is a tool call.
pub open spec fn is_tool_block(b: BlockView) -> bool {
    b is ToolUse
}

/// The (id, name, input) a tool call block carries.
pub open spec fn block_call(b: BlockView) -> (Seq<char>, Seq<char>, Seq<char>) {
    match b {
        BlockView::ToolUse(id, name, input) => (id, name, input),
        BlockView::Text(_) => (Seq::empty(), Seq::empty(), Seq::empty()),
    }
}

/// The tool calls of a turn are exactly its tool call blocks, kept in
/// order: there are as many calls as tool call blocks, and the k-th call
/// carries the id, name and input of the k-th tool call block.
pub proof fn lemma_tool_calls_are_tool_blocks(blocks: Seq<BlockView>)
    ensures
        tool_calls(blocks) == blocks.filter(|b: BlockView| is_tool_block(b)).map_values(
            |b: BlockView| block_call(b),
        ),
        tool_calls(blocks).len() == blocks.filter(|b: BlockView| is_tool_block(b)).len(),
    decreases blocks.len(),
{
    reveal(Seq::filter);
    let f = |b: BlockView| is_tool_block(b);
    let g = |b: BlockView| block_call(b);
    if blocks.len() > 0 {
        lemma_tool_calls_are_tool_blocks(blocks.drop_last());
        let prev = blocks.drop_last().filter(f);
        if f(blocks.last()) {
            assert(blocks.filter(f) == prev.push(blocks.last()));
            assert(prev.push(blocks.last()).map_values(g) =~= prev.map_values(g).push(g(blocks.last())));
        } else {
            assert(blocks.filter(f) == prev);
        }
    } else {
        assert(blocks.filter(f).map_values(g) =~= Seq::<(Seq<char>, Seq<char>, Seq<char>)>::empty());
    }
}

/// How a turn ends.
#[derive(Debug)]
pub enum TurnEnd {
    /// The chat is answered.
    Reply(ChatResponse),
    /// The model asked for these tools; run them, record their results and
    /// send the next request.
    RunTools(Vec<PendingTool>),
}

/// The state of a chat as plain values: the messages to send, the tools
/// used so far, the requests made, and the reply text so far.
pub struct ChatView {
    pub entries: Seq<EntryView>,
    pub tools_used: Seq<Seq<char>>,
    pub requests: nat,
    pub reply: Seq<char>,
}

/// The most requests one chat makes.
pub open spec fn max_requests() -> nat {
    128
}

/// The messages a chat starts with: the system prompt as a user message,
/// then the conversation.
pub open spec fn opening_entries(system_prompt: Seq<char>, messages: Seq<ChatMessage>) -> Seq<EntryView> {
    seq![EntryView::Text("user"@, system_prompt)] + messages.map_values(
        |m: ChatMessage| EntryView::Text(m.role@, m.content@),
    )
}

/// A chat in progress: the loop of requests, streamed turns and tool calls.
pub struct ChatLoop {
    entries: Vec<ChatEntry>,
    tools_used: Vec<String>,
    remaining: u32,
    reply: String,
}

impl View for ChatLoop {
    type V = ChatView;

    closed spec fn view(&self) -> ChatView {
        ChatView {
            entries: entry_views(self.entries@),
            tools_used: views(self.tools_used@),
            requests: (max_requests() - self.remaining) as nat,
            reply: self.reply@,
        }
    }
}

impl ChatLoop {
    #[verifier::type_invariant]
    spec fn within_budget(&self) -> bool {
        self.remaining <= max_requests()
    }

    /// A chat that starts with the system prompt and the conversation.
    pub fn new(system_prompt: String, messages: &Vec<ChatMessage>) -> (c: Self)
        ensures
            c@.entries == opening_entries(system_prompt@, messages@),
            c@.tools_used.len() == 0,
            c@.requests == 0,
            c@.reply.len() == 0,
    {
        let mut entries: Vec<ChatEntry> = Vec::new();
        entries.push(ChatEntry::Text { role: String::from_str("user"), content: system_prompt });
        let ghost head = entry_views(entries@);
        let mut i: usize = 0;
        while i < messages.len()
            invariant
                i <= messages.len(),
                entry_views(entries@) == head + messages@.take(i as int).map_values(
                    |m: ChatMessage| EntryView::Text(m.role@, m.content@),
                ),
            decreases messages.len() - i,
        {
            let m = &messages[i];
            let ghost before = entry_views(entries@);
            entries.push(ChatEntry::Text { role: m.role.clone(), content: m.content.clone() });
            assert(entry_views(entries@) =~= before.push(EntryView::Text(m.role@, m.content@)));
            assert(messages@.take(i + 1).map_values(
                |m: ChatMessage| EntryView::Text(m.role@, m.content@),
            ) =~= messages@.take(i as int).map_values(
                |m: ChatMessage| EntryView::Text(m.role@, m.content@),
            ).push(EntryView::Text(messages@[i as int].role@, messages@[i as int].content@)));
            i = i + 1;
        }
        assert(messages@.take(messages.len() as int) =~= messages@);
        let c = ChatLoop { entries, tools_used: Vec::new(), remaining: 128, reply: String::new() };
        assert(c@.entries =~= opening_entries(system_prompt@, messages@));
        c
    }

    /// The messages to send with the next request.
    pub fn entries(&self) -> (r: &Vec<ChatEntry>)
        ensures
            entry_views(r@) == self@.entries,
    {
        &self.entries
    }

    /// Starts a request: refused with `Too many tool calls, possible
    /// infinite loop` once the chat has made 128 requests.
    pub fn begin_request(&mut self) -> (r: Result<(), String>)
        ensures
            old(self)@.requests < max_requests() ==> r is Ok && final(self)@.requests == old(self)@.requests
                + 1,
            old(self)@.requests >= max_requests() ==> (r matches Err(e) && e@
                == "Too many tool calls, possible infinite loop"@ && final(self)@.requests == old(self)@.requests),
            final(self)@.entries == old(self)@.entries,
            final(self)@.tools_used == old(self)@.tools_used,
            final(self)@.reply == old(self)@.reply,
            final(self)@.requests <= max_requests(),
    {
        proof {
            use_type_invariant(&*self);
        }
        if self.remaining == 0 {
            return Err(String::from_str("Too many tool calls, possible infinite loop"));
        }
        self.remaining = self.remaining - 1;
        Ok(())
    }

    /// Ends a turn: its blocks, when there are any, become the assistant's
    /// message and its text is added to the reply.  Unless the turn stopped
    /// to use tools, the chat is answered with the reply and the tools used
    /// (none when no tool was used); otherwise the turn's tool calls are to
    /// be run, in order.
    pub fn finish_turn(&mut self, turn: TurnState) -> (r: TurnEnd)
        ensures
            final(self)@.entries == if turn@.blocks.len() > 0 {
                old(self)@.entries.push(EntryView::Assistant(turn@.blocks))
            } else {
                old(self)@.entries
            },
            final(self)@.tools_used == old(self)@.tools_used,
            final(self)@.requests == old(self)@.requests,
            final(self)@.reply == old(self)@.reply + turn@.reply,
            turn@.stop_reason != Some("tool_use"@) ==> (r matches TurnEnd::Reply(resp) && resp.content@
                == final(self)@.reply && resp.usage is None && (if old(self)@.tools_used.len() == 0 {
                resp.tools_used is None
            } else {
                resp.tools_used matches Some(t) && views(t@) == old(self)@.tools_used
            })),
            turn@.stop_reason == Some("tool_use"@) ==> (r matches TurnEnd::RunTools(calls)
                && calls@.map_values(|c: PendingTool| (c.id@, c.name@, c.input@)) == tool_calls(
                turn@.blocks,
            )),
    {
        let ghost tv = turn@;
        let TurnState { parts: _, blocks, tool_input: _, tool_id: _, tool_name: _, in_tool_use: _, stop_reason, reply } = turn;
        let mut calls: Vec<PendingTool> = Vec::new();
        let mut i: usize = 0;
        while i < blocks.len()
            invariant
                i <= blocks.len(),
                block_views(blocks@) == tv.blocks,
                calls@.map_values(|c: PendingTool| (c.id@, c.name@, c.input@)) == tool_calls(
                    tv.blocks.take(i as int),
                ),
            decreases blocks.len() - i,
        {
            assert(tv.blocks.take(i + 1).drop_last() =~= tv.blocks.take(i as int));
            assert(tv.blocks[i as int] == blocks@[i as int]@);
            match &blocks[i] {
                AssistantBlock::ToolUse { id, name, input } => {
                    let ghost before = calls@.map_values(|c: PendingTool| (c.id@, c.name@, c.input@));
                    calls.push(PendingTool { id: id.clone(), name: name.clone(), input: input.clone() });
                    assert(calls@.map_values(|c: PendingTool| (c.id@, c.name@, c.input@)) =~= before.push(
                        (id@, name@, input@),
                    ));
                },
                AssistantBlock::Text { .. } => {},
            }
            i = i + 1;
        }
        assert(tv.blocks.take(blocks.len() as int) =~= tv.blocks);
        proof {
            use_type_invariant(&*self);
        }
        if blocks.len() > 0 {
            let mut entries: Vec<ChatEntry> = Vec::new();
            std::mem::swap(&mut entries, &mut self.entries);
            entries.push(ChatEntry::Assistant { blocks });
            self.entries = entries;
        }
        let mut text = String::new();
        std::mem::swap(&mut text, &mut self.reply);
        text.append(reply.as_str());
        self.reply = text;
        let is_tool_use = match &stop_reason {
            Some(sr) => text_equals(sr.as_str(), "tool_use"),
            None => false,
        };
        proof {
            if stop_reason is None {
                reveal_strlit("tool_use");
            }
        }
        if !is_tool_use {
            let tools_used = if self.tools_used.len() == 0 {
                None
            } else {
                Some(copy_strings(&self.tools_used))
            };
            TurnEnd::Reply(ChatResponse { content: self.reply.clone(), usage: None, tools_used })
        } else {
            TurnEnd::RunTools(calls)
        }
    }

    /// Records a tool's result: the tool's name is added to the tools used,
    /// and a message carrying the result for the call's id is added.
    pub fn record_tool_result(&mut self, tool: &PendingTool, result: &str)
        ensures
            final(self)@.entries == old(self)@.entries.push(EntryView::ToolResult(tool.id@, result@)),
            final(self)@.tools_used == old(self)@.tools_used.push(tool.name@),
            final(self)@.requests == old(self)@.requests,
            final(self)@.reply == old(self)@.reply,
    {
        proof {
            use_type_invariant(&*self);
        }
        let mut used: Vec<String> = Vec::new();
        std::mem::swap(&mut used, &mut self.tools_used);
        used.push(tool.name.clone());
        self.tools_used = used;
        let mut entries: Vec<ChatEntry> = Vec::new();
        std::mem::swap(&mut entries, &mut self.entries);
        entries.push(ChatEntry::ToolResult { tool_use_id: tool.id.clone(), text: String::from_str(result) });
        self.entries = entries;
        assert(views(self.tools_used@) =~= views(old(self).tools_used@).push(tool.name@));
        assert(entry_views(self.entries@) =~= entry_views(old(self).entries@).push(
            EntryView::ToolResult(tool.id@, result@),
        ));
    }
}

fn copy_strings(v: &Vec<String>) -> (r: Vec<String>)
    ensures
        views(r@) == views(v@),
{
    let mut r: Vec<String> = Vec::new();
    let mut i: usize = 0;
    while i < v.len()
        invariant
            i <= v.len(),
            views(r@) == views(v@.take(i as int)),
        decreases v.len() - i,
    {
        r.push(v[i].clone());
        assert(views(v@.take(i + 1)) =~= views(v@.take(i as int)).push(v@[i as int]@));
        i = i + 1;
    }
    assert(v@.take(v.len() as int) =~= v@);
    r
}


/// A line of an event stream without its carriage return, if it has one.
pub open spec fn line_content(line: Seq<char>) -> Seq<char> {
    if line.len() > 0 && line.last() == '\r' {
        line.drop_last()
    } else {
        line
    }
}

/// The value of a `data:` line: what follows `data:`, less one leading space.
pub open spec fn data_value(line: Seq<char>) -> Seq<char> {
    let v = line.subrange(5, line.len() as int);
    if v.len() > 0 && v[0] == ' ' {
        v.drop_first()
    } else {
        v
    }
}

/// Gathers the `data:` lines of a server-sent event stream into events: a
/// blank line ends an event, whose data are its `data:` values joined by
/// newlines; other fields are ignored.
pub struct SseLineReader {
    pending: Vec<String>,
}

impl View for SseLineReader {
    type V = Seq<Seq<char>>;

    closed spec fn view(&self) -> Seq<Seq<char>> {
        views(self.pending@)
    }
}

impl SseLineReader {
    /// A reader with no data gathered.
    pub fn new() -> (r: Self)
        ensures
            r@.len() == 0,
    {
        SseLineReader { pending: Vec::new() }
    }

    /// Reads one line (without its `\n`): a blank line hands out the data
    /// of the event it ends, if the event had any; a `data:` line adds its
    /// value; any other line changes nothing.
    pub fn feed_line(&mut self, line: &str) -> (r: Option<String>)
        ensures
            line_content(line@).len() == 0 ==> final(self)@.len() == 0 && (if old(self)@.len() > 0 {
                r matches Some(d) && d@ == join_with(old(self)@, '\n')
            } else {
                r is None
            }),
            line_content(line@).len() > 0 && starts_with(line_content(line@), "data:"@) ==> r is None
                && final(self)@ == old(self)@.push(data_value(line_content(line@))),
            line_content(line@).len() > 0 && !starts_with(line_content(line@), "data:"@) ==> r is None
                && final(self)@ == old(self)@,
    {
        proof {
            reveal_strlit("data:");
        }
        let cs = chars_of(line);
        let mut end = cs.len();
        if end > 0 && cs[end - 1] == '\r' {
            end = end - 1;
        }
        let ghost content = line_content(line@);
        assert(cs@.subrange(0, end as int) =~= content);
        if end == 0 {
            if self.pending.len() == 0 {
                return None;
            }
            let mut out = String::new();
            let ghost pv = views(self.pending@);
            let mut i: usize = 0;
            while i < self.pending.len()
                invariant
                    i <= self.pending.len(),
                    pv == views(self.pending@),
                    out@ == join_with(pv.take(i as int), '\n'),
                decreases self.pending.len() - i,
            {
                if i > 0 {
                    push_char(&mut out, '\n');
                }
                out.append(self.pending[i].as_str());
                let ghost t = pv.take(i + 1);
                assert(t.drop_last() =~= pv.take(i as int));
                assert(t.last() == self.pending@[i as int]@);
                if i == 0 {
                    assert(out@ =~= join_with(t, '\n'));
                }
                i = i + 1;
            }
            assert(pv.take(self.pending.len() as int) =~= pv);
            self.pending = Vec::new();
            return Some(out);
        }
        let is_data = end >= 5 && cs[0] == 'd' && cs[1] == 'a' && cs[2] == 't' && cs[3] == 'a' && cs[4]
            == ':';
        proof {
            if end >= 5 {
                if is_data {
                    assert(content.subrange(0, 5) =~= "data:"@);
                } else {
                    assert(content.subrange(0, 5) != "data:"@) by {
                        let d = "data:"@;
                        if content.subrange(0, 5) == d {
                            assert(content[0] == d[0] && content[1] == d[1] && content[2] == d[2]
                                && content[3] == d[3] && content[4] == d[4]);
                        }
                    }
                }
            }
        }
        if is_data {
            let mut start: usize = 5;
            if end > 5 && cs[5] == ' ' {
                start = 6;
            }
            let mut v = String::new();
            crate::text::push_range(&mut v, &cs, start, end);
            proof {
                let w = content.subrange(5, content.len() as int);
                if end > 5 && cs@[5] == ' ' {
                    assert(w.drop_first() =~= cs@.subrange(6, end as int));
                } else {
                    assert(w =~= cs@.subrange(5, end as int));
                }
            }
            let ghost before = self@;
            self.pending.push(v);
            assert(self@ =~= before.push(data_value(content)));
        }
        None
    }
}

} // verus!
