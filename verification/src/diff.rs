//! Line diffs: the changes between two texts line by line, and their
//! rendering with one sign character in front of each line.

use vstd::prelude::*;
use crate::text::push_char;

verus! {

/// What a diff says of a line: kept, taken out of the old text, or added
/// in the new one.
#[derive(Debug, Clone, Copy, PartialEq, Eq, Structural)]
pub enum ChangeKind {
    Equal,
    Delete,
    Insert,
}

/// One line of a diff, with its line ending if it has one.
pub struct LineChange {
    pub kind: ChangeKind,
    pub text: String,
}

impl View for LineChange {
    type V = (ChangeKind, Seq<char>);

    open spec fn view(&self) -> (ChangeKind, Seq<char>) {
        (self.kind, self.text@)
    }
}

/// The views of a list of line changes.
pub open spec fn change_views(v: Seq<LineChange>) -> Seq<(ChangeKind, Seq<char>)> {
    v.map_values(|c: LineChange| c@)
}

/// The line changes that `similar`'s `TextDiff::from_lines(old, new)` finds,
/// in the order its operations yield them.
pub uninterp spec fn line_diff(old: Seq<char>, new: Seq<char>) -> Seq<(ChangeKind, Seq<char>)>;

/// The text on one side of a diff: the lines kept and deleted (old side) or
/// kept and inserted (new side), in order.
pub open spec fn side_text(changes: Seq<(ChangeKind, Seq<char>)>, old_side: bool) -> Seq<char>
    decreases changes.len(),
{
    if changes.len() == 0 {
        Seq::empty()
    } else {
        let (kind, text) = changes.last();
        let keep = if old_side { kind != ChangeKind::Insert } else { kind != ChangeKind::Delete };
        side_text(changes.drop_last(), old_side) + if keep { text } else { Seq::empty() }
    }
}

/// The sign written in front of a line: `-`, `+` or a space.
pub open spec fn sign(kind: ChangeKind) -> char {
    match kind {
        ChangeKind::Delete => '-',
        ChangeKind::Insert => '+',
        ChangeKind::Equal => ' ',
    }
}

/// Each change written as its sign followed by the line as it is.
pub open spec fn rendered(changes: Seq<(ChangeKind, Seq<char>)>) -> Seq<char>
    decreases changes.len(),
{
    if changes.len() == 0 {
        Seq::empty()
    } else {
        rendered(changes.drop_last()) + seq![sign(changes.last().0)] + changes.last().1
    }
}

/// Whether `c` ends a line where `TextDiff::from_lines` splits text: `\n`
/// or `\r` (a `\r\n` pair ends one line).
pub open spec fn is_line_break(c: char) -> bool {
    c == '\n' || c == '\r'
}

/// Whether `t` is one line as `TextDiff::from_lines` cuts text: not empty,
/// and broken only at its end, by `\n`, `\r` or `\r\n`.
pub open spec fn is_one_line(t: Seq<char>) -> bool {
    &&& t.len() > 0
    &&& forall|k: int| 0 <= k < t.len() - 1 ==> #[trigger] t[k] != '\n'
    &&& forall|k: int| 0 <= k < t.len() - 1 && #[trigger] t[k] == '\r' ==> k == t.len() - 2 && t[k + 1] == '\n'
}

/// Whether a line ends with its line break.
pub open spec fn is_terminated(t: Seq<char>) -> bool {
    t.len() > 0 && is_line_break(t.last())
}

/// Whether changes are lines as a text is cut into them: each change is one
/// line, and a line without a line break (the last line of a text that does
/// not end with one) is followed by no other line of the same side.
pub open spec fn lines_well_cut(changes: Seq<(ChangeKind, Seq<char>)>) -> bool {
    &&& forall|i: int| 0 <= i < changes.len() ==> is_one_line(#[trigger] changes[i].1)
    &&& forall|i: int, j: int|
        0 <= i < j < changes.len() && (#[trigger] changes[i]).0 != ChangeKind::Insert && !is_terminated(
            changes[i].1,
        ) ==> (#[trigger] changes[j]).0 == ChangeKind::Insert
    &&& forall|i: int, j: int|
        0 <= i < j < changes.len() && (#[trigger] changes[i]).0 != ChangeKind::Delete && !is_terminated(
            changes[i].1,
        ) ==> (#[trigger] changes[j]).0 == ChangeKind::Delete
}

/// Whether every change keeps its line.
pub open spec fn all_kept(changes: Seq<(ChangeKind, Seq<char>)>) -> bool {
    forall|i: int| 0 <= i < changes.len() ==> (#[trigger] changes[i]).0 == ChangeKind::Equal
}

/// The rendering and the two sides of a diff go change by change: for
/// changes one after another they are those of the first changes followed
/// by those of the others; one change renders as its sign (`-` deleted,
/// `+` inserted, space kept) and its line, and its line belongs to the old
/// side unless inserted and to the new side unless deleted.
pub proof fn lemma_diff_change_by_change(
    a: Seq<(ChangeKind, Seq<char>)>,
    b: Seq<(ChangeKind, Seq<char>)>,
    kind: ChangeKind,
    line: Seq<char>,
)
    ensures
        rendered(a + b) == rendered(a) + rendered(b),
        side_text(a + b, true) == side_text(a, true) + side_text(b, true),
        side_text(a + b, false) == side_text(a, false) + side_text(b, false),
        rendered(seq![(kind, line)]) == seq![
            match kind {
                ChangeKind::Delete => '-',
                ChangeKind::Insert => '+',
                ChangeKind::Equal => ' ',
            },
        ] + line,
        side_text(seq![(kind, line)], true) == if kind == ChangeKind::Insert {
            Seq::<char>::empty()
        } else {
            line
        },
        side_text(seq![(kind, line)], false) == if kind == ChangeKind::Delete {
            Seq::<char>::empty()
        } else {
            line
        },
    decreases b.len(),
{
    let one = seq![(kind, line)];
    let none = Seq::<(ChangeKind, Seq<char>)>::empty();
    assert(one.drop_last() =~= none);
    assert(one.last() == (kind, line));
    assert(rendered(none) == Seq::<char>::empty());
    assert(side_text(none, true) == Seq::<char>::empty());
    assert(side_text(none, false) == Seq::<char>::empty());
    assert(rendered(one) =~= seq![sign(kind)] + line);
    assert(side_text(one, true) =~= (if kind == ChangeKind::Insert { Seq::<char>::empty() } else { line }));
    assert(side_text(one, false) =~= (if kind == ChangeKind::Delete { Seq::<char>::empty() } else { line }));
    if b.len() == 0 {
        assert(a + b =~= a);
        assert(rendered(a) + rendered(b) =~= rendered(a));
        assert(side_text(a, true) + side_text(b, true) =~= side_text(a, true));
        assert(side_text(a, false) + side_text(b, false) =~= side_text(a, false));
    } else {
        lemma_diff_change_by_change(a, b.drop_last(), kind, line);
        assert((a + b).drop_last() =~= a + b.drop_last());
        assert((a + b).last() == b.last());
        assert(rendered(a) + rendered(b) =~= rendered(a) + rendered(b.drop_last()) + seq![sign(b.last().0)]
            + b.last().1);
        let (k, t) = b.last();
        let keep_old = k != ChangeKind::Insert;
        let keep_new = k != ChangeKind::Delete;
        assert(side_text(a, true) + side_text(b, true) =~= side_text(a, true) + side_text(b.drop_last(), true)
            + if keep_old { t } else { Seq::<char>::empty() });
        assert(side_text(a, false) + side_text(b, false) =~= side_text(a, false) + side_text(b.drop_last(), false)
            + if keep_new { t } else { Seq::<char>::empty() });
    }
}

/// The line changes from `old_text` to `new_text`, by `similar`'s
/// `TextDiff::from_lines` and `iter_all_changes`.  The contract claims that
/// the changes are the ones that function finds for exactly these texts, and
/// that they cover both texts: the kept and deleted lines make up the old
/// text and the kept and inserted lines the new one.  The latter holds as
/// `from_lines` splits each text into lines that keep their line endings and
/// concatenate to the whole text, and the operations it captures cover both
/// line lists in order.  Each change is one line as `from_lines` cuts the
/// texts (at `\n`, `\r` and `\r\n`, keeping the break), so only the last
/// line of a side can lack its break; and for identical texts the Myers
/// diff, which first takes the common prefix, keeps every line.  Which lines
/// the diff pairs up otherwise is left unsaid.
#[verifier::external_body]
fn diff_lines(old_text: &str, new_text: &str) -> (changes: Vec<LineChange>)
    ensures
        change_views(changes@) == line_diff(old_text@, new_text@),
        side_text(change_views(changes@), true) == old_text@,
        side_text(change_views(changes@), false) == new_text@,
        lines_well_cut(change_views(changes@)),
        old_text@ == new_text@ ==> all_kept(change_views(changes@)),
{
    let diff = similar::TextDiff::from_lines(old_text, new_text);
    let mut changes = Vec::new();
    for change in diff.iter_all_changes() {
        let kind = match change.tag() {
            similar::ChangeTag::Equal => ChangeKind::Equal,
            similar::ChangeTag::Delete => ChangeKind::Delete,
            similar::ChangeTag::Insert => ChangeKind::Insert,
        };
        changes.push(LineChange { kind, text: change.value().to_string() });
    }
    changes
}

/// Writes the changes, each as its sign and its line.
pub fn render_changes(changes: &Vec<LineChange>) -> (r: String)
    ensures
        r@ == rendered(change_views(changes@)),
{
    let ghost cv = change_views(changes@);
    let mut r = String::new();
    let mut i: usize = 0;
    while i < changes.len()
        invariant
            i <= changes.len(),
            cv == change_views(changes@),
            r@ == rendered(cv.take(i as int)),
        decreases changes.len() - i,
    {
        let c = &changes[i];
        let s = match c.kind {
            ChangeKind::Delete => '-',
            ChangeKind::Insert => '+',
            ChangeKind::Equal => ' ',
        };
        push_char(&mut r, s);
        r.append(c.text.as_str());
        assert(cv.take(i + 1).drop_last() =~= cv.take(i as int));
        assert(cv[i as int] == changes@[i as int]@);
        i = i + 1;
    }
    assert(cv.take(changes.len() as int) =~= cv);
    r
}

/// The diff from `old_text` to `new_text`: every line of the line diff, in
/// order, with `-` for a deleted line, `+` for an inserted one and a space
/// for a kept one, each line as it stands (a last line without a line
/// ending stays without one).  The lines marked `-` or ` ` make up the old
/// text and those marked `+` or ` ` the new one; each change is one line;
/// identical texts give only kept lines.
pub fn generate_diff(old_text: &str, new_text: &str) -> (r: String)
    ensures
        r@ == rendered(line_diff(old_text@, new_text@)),
        side_text(line_diff(old_text@, new_text@), true) == old_text@,
        side_text(line_diff(old_text@, new_text@), false) == new_text@,
        lines_well_cut(line_diff(old_text@, new_text@)),
        old_text@ == new_text@ ==> all_kept(line_diff(old_text@, new_text@)),
{
    let changes = diff_lines(old_text, new_text);
    render_changes(&changes)
}

} // verus!
