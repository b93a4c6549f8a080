//! Wiki pages: front matter framing, the page built from a front matter
//! parse, and the layout of version snapshots.

use vstd::prelude::*;
use crate::paths::{join, path_join, lemma_file_name_of_join, relative_components, relative_path_components, file_name, path_file_name, cur_text, parent_text, components, path_components};
use crate::settings::workspace_layout;
use crate::text::{split_on, text_equals, chars_of, push_char, push_range, decimal, decimal_string, views};

verus! {

/// Metadata kept in a page's YAML front matter.
#[derive(Debug)]
pub struct WikiPageMeta {
    pub uid: Option<String>,
    pub title: Option<String>,
    pub created_by: Option<String>,
    pub updated_at: Option<String>,
}

/// A page: its metadata and its Markdown body.
pub struct WikiPage {
    pub meta: WikiPageMeta,
    pub content: String,
}

impl WikiPageMeta {
    /// Metadata with every field absent.
    pub fn empty() -> (m: Self)
        ensures
            m.uid is None,
            m.title is None,
            m.created_by is None,
            m.updated_at is None,
    {
        WikiPageMeta { uid: None, title: None, created_by: None, updated_at: None }
    }
}

/// What reading a page's front matter gave: the metadata it holds (if the
/// page has front matter at all) and the body after it; or a failure, when
/// the front matter is not valid YAML for the metadata.
pub enum FrontMatter {
    Parsed { data: Option<WikiPageMeta>, body: String },
    Invalid,
}

/// The page for `content` given what reading its front matter gave: the
/// metadata found (all fields absent when there was none) and the body; on
/// a failed read, no metadata and the whole of `content` as the body.
pub fn page_from_front_matter(content: &str, parsed: FrontMatter) -> (page: WikiPage)
    ensures
        match parsed {
            FrontMatter::Parsed { data: Some(m), body } => page.meta == m && page.content == body,
            FrontMatter::Parsed { data: None, body } => {
                &&& page.meta.uid is None
                &&& page.meta.title is None
                &&& page.meta.created_by is None
                &&& page.meta.updated_at is None
                &&& page.content == body
            },
            FrontMatter::Invalid => {
                &&& page.meta.uid is None
                &&& page.meta.title is None
                &&& page.meta.created_by is None
                &&& page.meta.updated_at is None
                &&& page.content@ == content@
            },
        },
{
    match parsed {
        FrontMatter::Parsed { data, body } => {
            let meta = match data {
                Some(m) => m,
                None => WikiPageMeta::empty(),
            };
            WikiPage { meta, content: body }
        },
        FrontMatter::Invalid => WikiPage { meta: WikiPageMeta::empty(), content: String::from_str(content) },
    }
}

/// The text of a page: `---`, a newline, the YAML of its metadata, `---`,
/// a newline and the body.
pub open spec fn framed_page(yaml: Seq<char>, body: Seq<char>) -> Seq<char> {
    seq!['-', '-', '-', '\n'] + yaml + seq!['-', '-', '-', '\n'] + body
}

/// Frames serialized metadata and a body into page text.
pub fn frame_page(yaml: &str, body: &str) -> (r: String)
    ensures
        r@ == framed_page(yaml@, body@),
{
    let mut r = String::new();
    push_char(&mut r, '-');
    push_char(&mut r, '-');
    push_char(&mut r, '-');
    push_char(&mut r, '\n');
    r.append(yaml);
    push_char(&mut r, '-');
    push_char(&mut r, '-');
    push_char(&mut r, '-');
    push_char(&mut r, '\n');
    r.append(body);
    assert(r@ =~= framed_page(yaml@, body@));
    r
}

/// A component made safe as one directory name: `/` and `\` become `_`.
pub open spec fn safe_part(c: Seq<char>) -> Seq<char> {
    c.map_values(|ch: char| if ch == '/' || ch == '\\' { '_' } else { ch })
}

/// The safe names of the components, leaving out `.`.
pub open spec fn key_parts(comps: Seq<Seq<char>>) -> Seq<Seq<char>>
    decreases comps.len(),
{
    if comps.len() == 0 {
        Seq::empty()
    } else if comps.last() == cur_text() {
        key_parts(comps.drop_last())
    } else {
        key_parts(comps.drop_last()).push(safe_part(comps.last()))
    }
}

/// The parts joined, with `sep` between each two.
pub open spec fn join_with(parts: Seq<Seq<char>>, sep: char) -> Seq<char>
    decreases parts.len(),
{
    if parts.len() == 0 {
        Seq::empty()
    } else if parts.len() == 1 {
        parts[0]
    } else {
        join_with(parts.drop_last(), sep) + seq![sep] + parts.last()
    }
}

/// Splitting at a separator loses nothing and keeps no separator: joining
/// the pieces with the separator gives the text back, and no piece holds
/// the separator.
pub proof fn lemma_split_then_join(s: Seq<char>, sep: char)
    ensures
        join_with(split_on(s, sep), sep) == s,
        forall|i: int, k: int|
            0 <= i < split_on(s, sep).len() && 0 <= k < split_on(s, sep)[i].len() ==> #[trigger] split_on(
                s,
                sep,
            )[i][k] != sep,
    decreases s.len(),
{
    crate::text::lemma_split_on_nonempty(s, sep);
    if s.len() > 0 {
        let t = s.drop_last();
        let c = s.last();
        lemma_split_then_join(t, sep);
        crate::text::lemma_split_on_nonempty(t, sep);
        let rest = split_on(t, sep);
        let pieces = split_on(s, sep);
        if c == sep {
            assert(pieces == rest.push(Seq::<char>::empty()));
            assert(pieces.drop_last() =~= rest);
            assert(join_with(pieces, sep) =~= t + seq![sep] + Seq::<char>::empty());
            assert(s =~= t + seq![sep]);
            assert forall|i: int, k: int|
                0 <= i < pieces.len() && 0 <= k < pieces[i].len() implies #[trigger] pieces[i][k] != sep by {
                assert(pieces[i] == rest[i]);
            }
        } else {
            let upd = rest.update(rest.len() - 1, rest.last().push(c));
            assert(pieces == upd);
            if rest.len() == 1 {
                assert(join_with(rest, sep) == rest[0]);
                assert(join_with(upd, sep) == upd[0]);
                assert(upd[0] =~= t.push(c));
            } else {
                assert(upd.drop_last() =~= rest.drop_last());
                assert(join_with(upd, sep) =~= join_with(rest, sep).push(c));
            }
            assert(s =~= t.push(c));
            assert forall|i: int, k: int|
                0 <= i < pieces.len() && 0 <= k < pieces[i].len() implies #[trigger] pieces[i][k] != sep by {
                if i < rest.len() - 1 {
                    assert(pieces[i] == rest[i]);
                } else {
                    assert(pieces[i] == rest.last().push(c));
                    if k < rest.last().len() {
                        assert(pieces[i][k] == rest[rest.len() - 1][k]);
                    }
                }
            }
        }
    } else {
        assert(split_on(s, sep) =~= seq![Seq::<char>::empty()]);
    }
}

/// The directory name under which snapshots of `file` are kept: the
/// components of `file` relative to `root`, made safe and joined by `_`
/// (so `nested/dir/page.md` gives `nested_dir_page.md`).
pub open spec fn version_key(root: Seq<char>, file: Seq<char>) -> Seq<char> {
    join_with(key_parts(relative_components(root, file)), '_')
}

/// No separator occurs in a safe part.
proof fn lemma_safe_part(c: Seq<char>)
    ensures
        forall|k: int| 0 <= k < safe_part(c).len() ==> safe_part(c)[k] != '/' && safe_part(c)[k] != '\\',
{
}

proof fn lemma_key_parts_safe(comps: Seq<Seq<char>>)
    ensures
        forall|i: int, k: int| 0 <= i < key_parts(comps).len() && 0 <= k < key_parts(comps)[i].len()
            ==> key_parts(comps)[i][k] != '/' && key_parts(comps)[i][k] != '\\',
    decreases comps.len(),
{
    if comps.len() > 0 {
        lemma_key_parts_safe(comps.drop_last());
        lemma_safe_part(comps.last());
        let prev = key_parts(comps.drop_last());
        if comps.last() != cur_text() {
            let cur = prev.push(safe_part(comps.last()));
            assert(key_parts(comps) == cur);
            assert forall|i: int, k: int| 0 <= i < cur.len() && 0 <= k < cur[i].len() implies cur[i][k]
                != '/' && cur[i][k] != '\\' by {
                if i < prev.len() {
                    assert(cur[i] == prev[i]);
                }
            }
        }
    }
}

proof fn lemma_join_with_safe(parts: Seq<Seq<char>>, sep: char)
    requires
        sep != '/' && sep != '\\',
        forall|i: int, k: int| 0 <= i < parts.len() && 0 <= k < parts[i].len() ==> parts[i][k] != '/'
            && parts[i][k] != '\\',
    ensures
        forall|k: int| 0 <= k < join_with(parts, sep).len() ==> join_with(parts, sep)[k] != '/'
            && join_with(parts, sep)[k] != '\\',
    decreases parts.len(),
{
    if parts.len() > 1 {
        lemma_join_with_safe(parts.drop_last(), sep);
        let a = join_with(parts.drop_last(), sep);
        let j = a + seq![sep] + parts.last();
        assert forall|k: int| 0 <= k < j.len() implies j[k] != '/' && j[k] != '\\' by {
            if k < a.len() {
            } else if k == a.len() {
            } else {
                assert(j[k] == parts[parts.len() - 1][k - a.len() - 1]);
            }
        }
    }
}

/// The snapshot directory name for a page holds no path separator, so it
/// names exactly one directory.
pub proof fn lemma_version_key_is_one_name(root: Seq<char>, file: Seq<char>)
    ensures
        forall|k: int| 0 <= k < version_key(root, file).len() ==> version_key(root, file)[k] != '/'
            && version_key(root, file)[k] != '\\',
{
    let parts = key_parts(relative_components(root, file));
    lemma_key_parts_safe(relative_components(root, file));
    lemma_join_with_safe(parts, '_');
}


fn push_safe_part(s: &mut String, part: &str)
    ensures
        final(s)@ == old(s)@ + safe_part(part@),
{
    let cs = chars_of(part);
    let mut i: usize = 0;
    while i < cs.len()
        invariant
            i <= cs.len(),
            cs@ == part@,
            s@ == old(s)@ + safe_part(cs@.take(i as int)),
        decreases cs.len() - i,
    {
        let c = cs[i];
        if c == '/' || c == '\\' {
            push_char(s, '_');
        } else {
            push_char(s, c);
        }
        i = i + 1;
        assert(safe_part(cs@.take(i as int)) =~= safe_part(cs@.take(i - 1)).push(
            if c == '/' || c == '\\' { '_' } else { c },
        ));
    }
    assert(cs@.take(cs.len() as int) =~= cs@);
}

proof fn lemma_key_parts_len(comps: Seq<Seq<char>>)
    ensures
        key_parts(comps).len() <= comps.len(),
    decreases comps.len(),
{
    if comps.len() > 0 {
        lemma_key_parts_len(comps.drop_last());
    }
}

/// The snapshot directory name for `file` under `root` (see `version_key`).
pub fn version_dir_key(wiki_root: &str, file_path: &str) -> (r: String)
    ensures
        r@ == version_key(wiki_root@, file_path@),
        forall|k: int| 0 <= k < r@.len() ==> r@[k] != '/' && r@[k] != '\\',
{
    let comps = relative_path_components(wiki_root, file_path);
    let ghost cv = relative_components(wiki_root@, file_path@);
    let mut r = String::new();
    let mut count: usize = 0;
    let mut i: usize = 0;
    while i < comps.len()
        invariant
            i <= comps.len(),
            views(comps@) == cv,
            count == key_parts(cv.take(i as int)).len(),
            count <= i,
            r@ == join_with(key_parts(cv.take(i as int)), '_'),
        decreases comps.len() - i,
    {
        let t = chars_of(comps[i].as_str());
        proof {
            lemma_key_parts_len(cv.take(i as int));
        }
        assert(views(comps@)[i as int] == comps@[i as int]@);
        assert(cv.take(i + 1).drop_last() =~= cv.take(i as int));
        assert(cv.take(i + 1).last() == cv[i as int]);
        let is_dot = t.len() == 1 && t[0] == '.';
        assert(is_dot == (cv[i as int] == cur_text())) by {
            if t.len() == 1 && t@[0] == '.' {
                assert(t@ =~= cur_text());
            }
        }
        if !is_dot {
            let ghost prev = key_parts(cv.take(i as int));
            if count > 0 {
                push_char(&mut r, '_');
            }
            push_safe_part(&mut r, comps[i].as_str());
            count = count + 1;
            proof {
                let cur = prev.push(safe_part(cv[i as int]));
                assert(cur.drop_last() =~= prev);
                if prev.len() == 0 {
                    assert(r@ =~= join_with(cur, '_'));
                } else {
                    assert(r@ =~= join_with(cur, '_'));
                }
            }
        }
        i = i + 1;
    }
    assert(cv.take(comps.len() as int) =~= cv);
    proof {
        lemma_version_key_is_one_name(wiki_root@, file_path@);
    }
    r
}

/// The characters of `n` other than `-`.
pub open spec fn without_hyphens(n: Seq<char>) -> Seq<char>
    decreases n.len(),
{
    if n.len() == 0 {
        n
    } else if n.last() == '-' {
        without_hyphens(n.drop_last())
    } else {
        without_hyphens(n.drop_last()).push(n.last())
    }
}

/// Whether `c` is an ASCII digit.
pub open spec fn is_digit(c: char) -> bool {
    '0' <= c && c <= '9'
}

/// The number of ASCII digits that `n` ends with.
pub open spec fn trailing_digits(n: Seq<char>) -> nat
    decreases n.len(),
{
    if n.len() > 0 && is_digit(n.last()) {
        trailing_digits(n.drop_last()) + 1
    } else {
        0
    }
}

/// `n` without a final run number: a `_` followed by digits at its end,
/// after some other text.
pub open spec fn without_run_number(n: Seq<char>) -> Seq<char> {
    let d = trailing_digits(n);
    if 0 < d && d + 1 < n.len() && n[n.len() - d - 1] == '_' {
        n.take(n.len() - d - 1)
    } else {
        n
    }
}

/// The wiki type that a wiki directory's name gives: the name without its
/// hyphens and without a final run number, so that `my-wiki` is the
/// `mywiki` wiki and `notes_3` the `notes` wiki.
pub open spec fn wiki_type(name: Seq<char>) -> Seq<char> {
    without_run_number(without_hyphens(name))
}

/// The name of the hidden metadata directory of a wiki: `.exmind-`
/// followed by the wiki type of the wiki directory's name (nothing when the
/// directory has no name).
pub open spec fn metadata_dir_name(root: Seq<char>) -> Seq<char> {
    ".exmind-"@ + match file_name(root) {
        Some(n) => wiki_type(n),
        None => Seq::empty(),
    }
}

proof fn lemma_trailing_digits_len(n: Seq<char>)
    ensures
        trailing_digits(n) <= n.len(),
    decreases n.len(),
{
    if n.len() > 0 {
        lemma_trailing_digits_len(n.drop_last());
    }
}

/// The wiki type of a directory name (see `wiki_type`).
pub fn wiki_type_name(name: &str) -> (r: String)
    ensures
        r@ == wiki_type(name@),
{
    let cs = chars_of(name);
    let mut kept: Vec<char> = Vec::new();
    let mut i: usize = 0;
    while i < cs.len()
        invariant
            i <= cs.len(),
            cs@ == name@,
            kept@ == without_hyphens(cs@.take(i as int)),
        decreases cs.len() - i,
    {
        assert(cs@.take(i + 1).drop_last() =~= cs@.take(i as int));
        if cs[i] != '-' {
            kept.push(cs[i]);
        }
        i = i + 1;
    }
    assert(cs@.take(cs.len() as int) =~= cs@);
    let n = kept.len();
    let mut d: usize = 0;
    assert(kept@.take(n as int) =~= kept@);
    while d < n && '0' <= kept[n - 1 - d] && kept[n - 1 - d] <= '9'
        invariant
            d <= n,
            n == kept.len(),
            trailing_digits(kept@) == d + trailing_digits(kept@.take(n - d)),
        decreases n - d,
    {
        assert(kept@.take(n - d).drop_last() =~= kept@.take(n - d - 1));
        d = d + 1;
    }
    proof {
        lemma_trailing_digits_len(kept@);
    }
    let mut r = String::new();
    if 0 < d && d < n && n - d - 1 > 0 && kept[n - d - 1] == '_' {
        push_range(&mut r, &kept, 0, n - d - 1);
        assert(kept@.subrange(0, n - d - 1) =~= kept@.take(n - d - 1));
    } else {
        push_range(&mut r, &kept, 0, n);
        assert(kept@.subrange(0, n as int) =~= kept@);
    }
    r
}

/// Where snapshots of `file` go:
/// `<root>/.exmind-<wiki type>/versions/<version_key>`.
pub open spec fn version_dir(root: Seq<char>, file: Seq<char>) -> Seq<char> {
    join(join(join(root, metadata_dir_name(root)), "versions"@), version_key(root, file))
}

/// The snapshots of a page in either wiki of a workspace, `my-wiki` or
/// `agent-wiki`, go under the versions directory that the workspace layout
/// creates for that wiki.
pub proof fn lemma_snapshots_in_workspace_layout(workspace: Seq<char>, file: Seq<char>)
    ensures
        version_dir(join(workspace, "my-wiki"@), file) == join(
            workspace_layout(workspace)[1],
            version_key(join(workspace, "my-wiki"@), file),
        ),
        version_dir(join(workspace, "agent-wiki"@), file) == join(
            workspace_layout(workspace)[2],
            version_key(join(workspace, "agent-wiki"@), file),
        ),
{
    reveal_strlit("my-wiki");
    reveal_strlit("agent-wiki");
    reveal_strlit("mywiki");
    reveal_strlit("agentwiki");
    reveal_strlit(".exmind-");
    reveal_strlit(".exmind-mywiki");
    reveal_strlit(".exmind-agentwiki");
    assert("my-wiki"@.len() != cur_text().len() && "my-wiki"@.len() != parent_text().len());
    assert("agent-wiki"@.len() != cur_text().len() && "agent-wiki"@.len() != parent_text().len());
    lemma_file_name_of_join(workspace, "my-wiki"@);
    lemma_file_name_of_join(workspace, "agent-wiki"@);
    reveal_with_fuel(without_hyphens, 11);
    assert(without_hyphens("my-wiki"@) =~= "mywiki"@);
    assert(without_hyphens("agent-wiki"@) =~= "agentwiki"@);
    assert(trailing_digits("mywiki"@) == 0);
    assert(trailing_digits("agentwiki"@) == 0);
    assert(metadata_dir_name(join(workspace, "my-wiki"@)) =~= ".exmind-mywiki"@);
    assert(metadata_dir_name(join(workspace, "agent-wiki"@)) =~= ".exmind-agentwiki"@);
}

/// The snapshot directory of `file_path` in the wiki at `wiki_root`.
pub fn version_dir_path(wiki_root: &str, file_path: &str) -> (r: String)
    ensures
        r@ == version_dir(wiki_root@, file_path@),
{
    let key = version_dir_key(wiki_root, file_path);
    let mut dot_dir = String::from_str(".exmind-");
    match path_file_name(wiki_root) {
        Some(n) => {
            let t = wiki_type_name(n.as_str());
            dot_dir.append(t.as_str());
        },
        None => {},
    }
    assert(dot_dir@ =~= metadata_dir_name(wiki_root@));
    let a = path_join(wiki_root, dot_dir.as_str());
    let b = path_join(a.as_str(), "versions");
    path_join(b.as_str(), key.as_str())
}


/// The `strftime` pattern of snapshot time stamps.
pub open spec fn stamp_pattern() -> Seq<char> {
    "%Y-%m-%dT%H-%M-%S%.9fZ"@
}

/// What chrono's `DateTime::<Utc>::from_timestamp(secs, nanos)` formatted
/// with `pattern` gives: `None` when the instant is out of chrono's range.
pub uninterp spec fn formatted_utc(secs: i64, nanos: u32, pattern: Seq<char>) -> Option<Seq<char>>;

/// Formats the UTC instant `secs` seconds and `nanos` nanoseconds after the
/// Unix epoch with the snapshot pattern, through chrono's
/// `DateTime::from_timestamp` and `format`.  The contract says only that the
/// text is chrono's formatting of exactly these arguments; the pattern is
/// required to be the snapshot pattern because other patterns can make
/// chrono's `to_string` panic.
#[verifier::external_body]
fn utc_stamp(secs: i64, nanos: u32, pattern: &str) -> (r: Option<String>)
    requires
        pattern@ == stamp_pattern(),
    ensures
        r matches Some(t) ==> formatted_utc(secs, nanos, pattern@) == Some(t@),
        r is None ==> formatted_utc(secs, nanos, pattern@) is None,
{
    match chrono::DateTime::from_timestamp(secs, nanos) {
        Some(t) => Some(t.format(pattern).to_string()),
        None => None,
    }
}

/// The time stamp under which a snapshot taken at the given instant is
/// filed, e.g. `2026-04-17T10-30-00.000000000Z`; `None` when the instant is
/// out of range.
pub fn version_stamp(secs: i64, nanos: u32) -> (r: Option<String>)
    ensures
        r matches Some(t) ==> formatted_utc(secs, nanos, stamp_pattern()) == Some(t@),
        r is None ==> formatted_utc(secs, nanos, stamp_pattern()) is None,
{
    utc_stamp(secs, nanos, "%Y-%m-%dT%H-%M-%S%.9fZ")
}

/// The file name of a snapshot: `<stamp>.md` for the first attempt and
/// `<stamp>-<attempt>.md` for each further one.
pub open spec fn snapshot_name(stamp: Seq<char>, attempt: nat) -> Seq<char> {
    if attempt == 0 {
        stamp + ".md"@
    } else {
        stamp + seq!['-'] + decimal(attempt) + ".md"@
    }
}

/// The file name of the given snapshot attempt (see `snapshot_name`).
pub fn snapshot_file_name(stamp: &str, attempt: u64) -> (r: String)
    ensures
        r@ == snapshot_name(stamp@, attempt as nat),
{
    let mut r = String::from_str(stamp);
    if attempt > 0 {
        push_char(&mut r, '-');
        let d = decimal_string(attempt);
        r.append(d.as_str());
    }
    r.append(".md");
    r
}

/// The path of the given snapshot attempt inside the snapshot directory.
pub fn snapshot_path(version_dir: &str, stamp: &str, attempt: u64) -> (r: String)
    ensures
        r@ == join(version_dir@, snapshot_name(stamp@, attempt as nat)),
{
    let name = snapshot_file_name(stamp, attempt);
    path_join(version_dir, name.as_str())
}

/// The names of the first `n` snapshot attempts.
pub open spec fn attempt_names(stamp: Seq<char>, n: nat) -> Set<Seq<char>>
    decreases n,
{
    if n == 0 {
        Set::empty()
    } else {
        attempt_names(stamp, (n - 1) as nat).insert(snapshot_name(stamp, (n - 1) as nat))
    }
}

proof fn lemma_attempt_names(stamp: Seq<char>, n: nat)
    ensures
        attempt_names(stamp, n).finite(),
        attempt_names(stamp, n).len() == n,
        forall|i: nat| i < n ==> attempt_names(stamp, n).contains(#[trigger] snapshot_name(stamp, i)),
        forall|x: Seq<char>|
            #[trigger] attempt_names(stamp, n).contains(x) ==> exists|i: nat|
                i < n && x == #[trigger] snapshot_name(stamp, i),
    decreases n,
{
    if n > 0 {
        let m = (n - 1) as nat;
        lemma_attempt_names(stamp, m);
        let last = snapshot_name(stamp, m);
        if attempt_names(stamp, m).contains(last) {
            let i = choose|i: nat| i < m && last == #[trigger] snapshot_name(stamp, i);
            lemma_snapshot_names(stamp, i, m);
        }
        assert forall|x: Seq<char>| #[trigger] attempt_names(stamp, n).contains(x) implies exists|i: nat|
            i < n && x == #[trigger] snapshot_name(stamp, i) by {
            if x == last {
                assert(x == snapshot_name(stamp, m));
            } else {
                assert(attempt_names(stamp, m).contains(x));
            }
        }
    }
}

/// Whether `name` is among `names`.
fn contains_name(names: &Vec<String>, name: &str) -> (r: bool)
    ensures
        r == views(names@).contains(name@),
{
    let mut i: usize = 0;
    while i < names.len()
        invariant
            i <= names.len(),
            forall|k: int| 0 <= k < i ==> names@[k]@ != name@,
        decreases names.len() - i,
    {
        if text_equals(names[i].as_str(), name) {
            assert(views(names@)[i as int] == name@);
            return true;
        }
        i = i + 1;
    }
    assert forall|k: int| 0 <= k < views(names@).len() implies views(names@)[k] != name@ by {
        assert(views(names@)[k] == names@[k]@);
    }
    false
}

/// The path for a new snapshot in `version_dir`, whose files are `existing`:
/// the first attempt whose snapshot name is not taken.  The name it gives is
/// not among the existing files, so a snapshot never overwrites another.
pub fn free_snapshot_path(version_dir: &str, stamp: &str, existing: &Vec<String>) -> (r: String)
    ensures
        exists|k: nat|
            r@ == join(version_dir@, #[trigger] snapshot_name(stamp@, k)) && !views(existing@).contains(
                snapshot_name(stamp@, k),
            ) && forall|j: nat| j < k ==> views(existing@).contains(#[trigger] snapshot_name(stamp@, j)),
{
    let mut attempt: usize = 0;
    loop
        invariant
            attempt <= existing.len(),
            forall|j: nat| j < attempt ==> views(existing@).contains(#[trigger] snapshot_name(stamp@, j)),
        decreases existing.len() - attempt,
    {
        let name = snapshot_file_name(stamp, attempt as u64);
        if !contains_name(existing, name.as_str()) {
            let r = path_join(version_dir, name.as_str());
            assert(r@ == join(version_dir@, snapshot_name(stamp@, attempt as nat)));
            return r;
        }
        proof {
            let ex = views(existing@);
            let n = (attempt + 1) as nat;
            lemma_attempt_names(stamp@, n);
            assert forall|x: Seq<char>| #[trigger] attempt_names(stamp@, n).contains(x) implies ex.to_set().contains(x) by {
                let i = choose|i: nat| i < n && x == #[trigger] snapshot_name(stamp@, i);
                assert(ex.contains(snapshot_name(stamp@, i)));
            }
            ex.lemma_cardinality_of_set();
            vstd::set_lib::lemma_len_subset(attempt_names(stamp@, n), ex.to_set());
        }
        attempt = attempt + 1;
    }
}

proof fn lemma_digit_injective(a: nat, b: nat)
    requires
        a < 10,
        b < 10,
        crate::text::digit_spec(a) == crate::text::digit_spec(b),
    ensures
        a == b,
{
    assert((48 + a) as char as u32 == 48 + a);
    assert((48 + b) as char as u32 == 48 + b);
}

proof fn lemma_decimal_len(n: nat)
    ensures
        decimal(n).len() >= 1,
        n >= 10 ==> decimal(n).len() >= 2,
    decreases n,
{
    if n >= 10 {
        crate::text::lemma_quotient_smaller(n, 10);
        lemma_decimal_len(n / 10);
    }
}

/// Different numbers have different decimal texts.
pub proof fn lemma_decimal_injective(a: nat, b: nat)
    requires
        decimal(a) == decimal(b),
    ensures
        a == b,
    decreases a,
{
    lemma_decimal_len(a);
    lemma_decimal_len(b);
    if a < 10 && b < 10 {
        let da = decimal(a);
        let db = decimal(b);
        assert(da =~= seq![crate::text::digit_spec(a)]);
        assert(db =~= seq![crate::text::digit_spec(b)]);
        assert(da[0] == crate::text::digit_spec(a));
        assert(db[0] == crate::text::digit_spec(b));
        lemma_digit_injective(a, b);
    } else if a >= 10 && b >= 10 {
        crate::text::lemma_quotient_smaller(a, 10);
        let da = decimal(a);
        let db = decimal(b);
        assert(da == decimal(a / 10).push(crate::text::digit_spec(a % 10)));
        assert(db == decimal(b / 10).push(crate::text::digit_spec(b % 10)));
        assert(da.drop_last() =~= decimal(a / 10));
        assert(db.drop_last() =~= decimal(b / 10));
        assert(da.last() == db.last());
        lemma_digit_injective(a % 10, b % 10);
        lemma_decimal_injective(a / 10, b / 10);
        assert(a == 10 * (a / 10) + a % 10) by (nonlinear_arith);
        assert(b == 10 * (b / 10) + b % 10) by (nonlinear_arith);
    } else {
        assert(decimal(a).len() != decimal(b).len());
    }
}

/// Different attempts give different snapshot file names, and every
/// snapshot file name ends in `.md`: repeated snapshots of one page never
/// overwrite each other.
pub proof fn lemma_snapshot_names(stamp: Seq<char>, a: nat, b: nat)
    ensures
        a != b ==> snapshot_name(stamp, a) != snapshot_name(stamp, b),
        snapshot_name(stamp, a).len() >= 3,
        snapshot_name(stamp, a).subrange(
            snapshot_name(stamp, a).len() - 3,
            snapshot_name(stamp, a).len() as int,
        ) == ".md"@,
{
    reveal_strlit(".md");
    let na = snapshot_name(stamp, a);
    let nb = snapshot_name(stamp, b);
    assert(na.subrange(na.len() - 3, na.len() as int) =~= ".md"@);
    if a != b && na == nb {
        lemma_decimal_len(a);
        lemma_decimal_len(b);
        if a == 0 || b == 0 {
            assert(na.len() != nb.len());
        } else {
            let la = stamp.len() + 1 + decimal(a).len();
            assert(decimal(a) =~= na.subrange(stamp.len() + 1int, la as int));
            assert(na.len() == la + 3);
            assert(nb.len() == stamp.len() + 1 + decimal(b).len() + 3);
            assert(decimal(b) =~= nb.subrange(stamp.len() + 1int, la as int));
            lemma_decimal_injective(a, b);
        }
    }
}


/// Whether a Unix path is absolute: it starts with `/`.
pub open spec fn is_absolute(p: Seq<char>) -> bool {
    p.len() > 0 && p[0] == '/'
}

/// Whether `p` lies under `base`, as `Path::starts_with` tells: the
/// components of `base` begin those of `p`.
pub open spec fn path_starts_with(p: Seq<char>, base: Seq<char>) -> bool {
    let a = components(p);
    let b = components(base);
    b.len() <= a.len() && a.subrange(0, b.len() as int) == b
}

/// The error for an absolute page path.
pub open spec fn not_relative_error() -> Seq<char> {
    "file_path must be relative to wiki_root"@
}

/// The error for a page path that leaves the wiki.
pub open spec fn outside_root_error() -> Seq<char> {
    "file_path must remain within wiki_root"@
}

/// Checks a requested page path before it is resolved: it must be relative.
pub fn check_relative_page_path(file_path: &str) -> (r: Result<(), String>)
    ensures
        r is Ok <==> !is_absolute(file_path@),
        r matches Err(e) ==> e@ == not_relative_error(),
{
    let cs = chars_of(file_path);
    if cs.len() > 0 && cs[0] == '/' {
        Err(String::from_str("file_path must be relative to wiki_root"))
    } else {
        Ok(())
    }
}

/// Checks a resolved page path: with links resolved, it must lie under the
/// wiki's resolved root.
pub fn check_page_within_root(canonical_page: &str, canonical_root: &str) -> (r: Result<(), String>)
    ensures
        r is Ok <==> path_starts_with(canonical_page@, canonical_root@),
        r matches Err(e) ==> e@ == outside_root_error(),
{
    let a = path_components(canonical_page);
    let b = path_components(canonical_root);
    let ghost av = components(canonical_page@);
    let ghost bv = components(canonical_root@);
    if b.len() > a.len() {
        return Err(String::from_str("file_path must remain within wiki_root"));
    }
    let mut i: usize = 0;
    while i < b.len()
        invariant
            i <= b.len() <= a.len(),
            crate::text::views(a@) == av,
            crate::text::views(b@) == bv,
            av == components(canonical_page@),
            bv == components(canonical_root@),
            forall|k: int| 0 <= k < i ==> av[k] == bv[k],
        decreases b.len() - i,
    {
        assert(crate::text::views(a@)[i as int] == a@[i as int]@);
        assert(crate::text::views(b@)[i as int] == b@[i as int]@);
        if !(a[i] == b[i]) {
            assert(av[i as int] != bv[i as int]);
            assert(av.subrange(0, bv.len() as int)[i as int] != bv[i as int]);
            assert(av.subrange(0, bv.len() as int) != bv);
            assert(!path_starts_with(canonical_page@, canonical_root@));
            return Err(String::from_str("file_path must remain within wiki_root"));
        }
        i = i + 1;
    }
    assert(av.subrange(0, bv.len() as int) =~= bv);
    Ok(())
}

} // verus!
