//! Unix path text: components, `strip_prefix`, `file_name` and `join`, with
//! the meaning that `std::path` gives them, over plain strings.

use vstd::prelude::*;
use crate::text::{chars_of, push_char, split_on, split_string, views};

verus! {

/// The texts that stand for the root, current and parent directory components.
pub open spec fn root_text() -> Seq<char> {
    seq!['/']
}

pub open spec fn cur_text() -> Seq<char> {
    seq!['.']
}

pub open spec fn parent_text() -> Seq<char> {
    seq!['.', '.']
}

/// The segments between separators that name a component: all but empty and `.` ones.
pub open spec fn kept_segments(segs: Seq<Seq<char>>) -> Seq<Seq<char>>
    decreases segs.len(),
{
    if segs.len() == 0 {
        segs
    } else {
        let rest = kept_segments(segs.drop_last());
        if segs.last().len() == 0 || segs.last() == cur_text() {
            rest
        } else {
            rest.push(segs.last())
        }
    }
}

/// The components of a Unix path, as `Path::components` yields them, each
/// written as text: `/` for the root, `.` for a leading current directory,
/// `..` for a parent and the name itself otherwise.  Repeated separators,
/// inner `.` segments and a trailing separator are dropped.
pub open spec fn components(p: Seq<char>) -> Seq<Seq<char>> {
    let segs = split_on(p, '/');
    if p.len() > 0 && p[0] == '/' {
        seq![root_text()] + kept_segments(segs.drop_first())
    } else if segs[0] == cur_text() {
        seq![cur_text()] + kept_segments(segs.drop_first())
    } else {
        kept_segments(segs)
    }
}

/// The first segment of a path starts with its first character.
proof fn lemma_first_segment(p: Seq<char>)
    ensures
        split_on(p, '/').len() >= 1,
        p.len() > 0 && p[0] == '/' ==> split_on(p, '/').len() >= 2 && split_on(p, '/')[0].len()
            == 0,
        p.len() > 0 && p[0] != '/' ==> split_on(p, '/')[0].len() > 0 && split_on(p, '/')[0][0]
            == p[0],
    decreases p.len(),
{
    crate::text::lemma_split_on_nonempty(p, '/');
    if p.len() > 0 {
        let q = p.drop_last();
        crate::text::lemma_split_on_nonempty(q, '/');
        let rest = split_on(q, '/');
        if q.len() == 0 {
            assert(rest =~= seq![Seq::<char>::empty()]);
            assert(p.last() == p[0]);
        } else {
            lemma_first_segment(q);
            assert(q[0] == p[0]);
            if p.last() != '/' {
                let upd = rest.update(rest.len() - 1, rest.last().push(p.last()));
                assert(split_on(p, '/') == upd);
                if rest.len() > 1 {
                    assert(upd[0] == rest[0]);
                } else {
                    assert(upd[0] == rest[0].push(p.last()));
                    assert(upd[0][0] == rest[0][0]);
                }
            } else {
                assert(split_on(p, '/')[0] == rest[0]);
            }
        }
    }
}

/// The components of `p` (see `components`).
pub fn path_components(p: &str) -> (r: Vec<String>)
    ensures
        views(r@) == components(p@),
{
    let segs = split_string(p, '/');
    let ghost ss = split_on(p@, '/');
    proof {
        lemma_first_segment(p@);
    }
    let cs = chars_of(p);
    let first = chars_of(segs[0].as_str());
    let mut out: Vec<String> = Vec::new();
    let start: usize;
    if cs.len() > 0 && cs[0] == '/' {
        out.push(root_string());
        start = 1;
    } else if first.len() == 1 && first[0] == '.' {
        assert(first@ =~= cur_text());
        out.push(cur_string());
        start = 1;
    } else {
        start = 0;
    }
    let ghost head = views(out@);
    assert(ss.drop_first() =~= ss.subrange(1, ss.len() as int));
    assert(ss =~= ss.subrange(0, ss.len() as int));
    let mut i = start;
    assert(kept_segments(ss.subrange(start as int, i as int)) =~= Seq::<Seq<char>>::empty());
    while i < segs.len()
        invariant
            start <= i <= segs.len(),
            views(segs@) == ss,
            views(out@) == head + kept_segments(ss.subrange(start as int, i as int)),
        decreases segs.len() - i,
    {
        let seg = chars_of(segs[i].as_str());
        assert(ss.subrange(start as int, i + 1).drop_last() =~= ss.subrange(start as int, i as int));
        assert(seg@ == ss[i as int]);
        let ghost sub = ss.subrange(start as int, i + 1);
        assert(sub.last() == ss[i as int]);
        assert(views(segs@)[i as int] == segs@[i as int]@);
        assert(sub.len() > 0);
        let is_dot = seg.len() == 1 && seg[0] == '.';
        assert(is_dot == (seg@ == cur_text())) by {
            if seg.len() == 1 && seg@[0] == '.' {
                assert(seg@ =~= cur_text());
            }
        }
        if seg.len() == 0 || is_dot {
            assert(kept_segments(sub) == kept_segments(sub.drop_last()));
        } else {
            let piece = segs[i].clone();
            let ghost old_out = views(out@);
            out.push(piece);
            assert(views(out@) =~= old_out.push(ss[i as int]));
            assert(kept_segments(sub) == kept_segments(sub.drop_last()).push(sub.last()));
            assert(views(out@) =~= head + kept_segments(ss.subrange(start as int, i + 1)));
        }
        i = i + 1;
    }
    assert(views(out@) =~= components(p@));
    out
}

fn root_string() -> (r: String)
    ensures
        r@ == root_text(),
{
    let mut r = String::new();
    push_char(&mut r, '/');
    r
}

fn cur_string() -> (r: String)
    ensures
        r@ == cur_text(),
{
    let mut r = String::new();
    push_char(&mut r, '.');
    r
}


/// The components of `file` after those of `root`, when `root`'s components
/// begin `file`'s (what `file.strip_prefix(root)` leaves), else all of `file`'s.
pub open spec fn relative_components(root: Seq<char>, file: Seq<char>) -> Seq<Seq<char>> {
    let r = components(root);
    let f = components(file);
    if r.len() <= f.len() && f.subrange(0, r.len() as int) == r {
        f.subrange(r.len() as int, f.len() as int)
    } else {
        f
    }
}

/// The components of `file` relative to `root` (see `relative_components`).
pub fn relative_path_components(root: &str, file: &str) -> (r: Vec<String>)
    ensures
        views(r@) == relative_components(root@, file@),
{
    let rc = path_components(root);
    let fc = path_components(file);
    let ghost r = components(root@);
    let ghost f = components(file@);
    let mut prefix = rc.len() <= fc.len();
    let mut i: usize = 0;
    if prefix {
        while i < rc.len()
            invariant
                rc.len() <= fc.len(),
                i <= rc.len(),
                views(rc@) == r,
                views(fc@) == f,
                prefix ==> forall|k: int| 0 <= k < i ==> r[k] == f[k],
                !prefix ==> !(f.subrange(0, r.len() as int) == r),
            decreases rc.len() - i,
        {
            assert(views(rc@)[i as int] == rc@[i as int]@);
            assert(views(fc@)[i as int] == fc@[i as int]@);
            if prefix && rc[i] != fc[i] {
                prefix = false;
                assert(f.subrange(0, r.len() as int)[i as int] != r[i as int]);
            }
            i = i + 1;
        }
        if prefix {
            assert(f.subrange(0, r.len() as int) =~= r);
        }
    }
    if prefix {
        let mut out: Vec<String> = Vec::new();
        let mut j = rc.len();
        while j < fc.len()
            invariant
                rc.len() <= j <= fc.len(),
                views(fc@) == f,
                views(out@) == f.subrange(rc.len() as int, j as int),
            decreases fc.len() - j,
        {
            let piece = fc[j].clone();
            let ghost before = views(out@);
            out.push(piece);
            assert(views(out@) =~= before.push(f[j as int]));
            assert(f.subrange(rc.len() as int, j + 1) =~= before.push(f[j as int]));
            j = j + 1;
        }
        out
    } else {
        fc
    }
}

/// The last component of `p` when it is a name, as `Path::file_name` gives it.
pub open spec fn file_name(p: Seq<char>) -> Option<Seq<char>> {
    let c = components(p);
    if c.len() > 0 && c.last() != root_text() && c.last() != cur_text() && c.last()
        != parent_text() {
        Some(c.last())
    } else {
        None
    }
}

/// The last component of `p` when it is a name.
pub fn path_file_name(p: &str) -> (r: Option<String>)
    ensures
        r matches Some(n) ==> file_name(p@) == Some(n@),
        r is None ==> file_name(p@) is None,
{
    let c = path_components(p);
    let ghost cv = components(p@);
    if c.len() == 0 {
        return None;
    }
    let n = c.len() - 1;
    assert(views(c@)[n as int] == c@[n as int]@);
    let t = chars_of(c[n].as_str());
    let special = (t.len() == 1 && (t[0] == '/' || t[0] == '.')) || (t.len() == 2 && t[0] == '.'
        && t[1] == '.');
    proof {
        if t.len() == 1 && t@[0] == '/' {
            assert(t@ =~= root_text());
        }
        if t.len() == 1 && t@[0] == '.' {
            assert(t@ =~= cur_text());
        }
        if t.len() == 2 && t@[0] == '.' && t@[1] == '.' {
            assert(t@ =~= parent_text());
        }
        assert(cv.last() == t@);
    }
    if special {
        None
    } else {
        Some(c[n].clone())
    }
}

proof fn lemma_split_append(a: Seq<char>, b: Seq<char>, sep: char)
    requires
        forall|k: int| 0 <= k < b.len() ==> b[k] != sep,
    ensures
        split_on(a + b, sep).len() == split_on(a, sep).len(),
        split_on(a + b, sep).last() == split_on(a, sep).last() + b,
    decreases b.len(),
{
    crate::text::lemma_split_on_nonempty(a, sep);
    if b.len() == 0 {
        assert(a + b =~= a);
        assert(split_on(a, sep).last() + b =~= split_on(a, sep).last());
    } else {
        let b2 = b.drop_last();
        lemma_split_append(a, b2, sep);
        assert((a + b).drop_last() =~= a + b2);
        assert((a + b).last() == b.last());
        crate::text::lemma_split_on_nonempty(a + b2, sep);
        assert(split_on(a, sep).last() + b =~= (split_on(a, sep).last() + b2).push(b.last()));
    }
}

/// Joining a plain name (not empty, no separator, neither `.` nor `..`) to
/// any path gives a path whose file name is that name.
pub proof fn lemma_file_name_of_join(base: Seq<char>, name: Seq<char>)
    requires
        name.len() > 0,
        forall|k: int| 0 <= k < name.len() ==> name[k] != '/',
        name != cur_text(),
        name != parent_text(),
    ensures
        file_name(join(base, name)) == Some(name),
{
    let p = join(base, name);
    let e = Seq::<char>::empty();
    if base.len() == 0 {
        assert(p =~= e + name);
        assert(split_on(e, '/') =~= seq![e]);
        lemma_split_append(e, name, '/');
    } else if base.last() == '/' {
        lemma_split_append(base, name, '/');
        crate::text::lemma_split_on_nonempty(base.drop_last(), '/');
    } else {
        let bs = base + seq!['/'];
        assert(bs.drop_last() =~= base);
        crate::text::lemma_split_on_nonempty(base, '/');
        assert(p =~= bs + name);
        lemma_split_append(bs, name, '/');
    }
    let segs = split_on(p, '/');
    assert(segs.last() =~= name);
    lemma_first_segment(p);
    if p.len() > 0 && p[0] == '/' {
        assert(segs.drop_first().last() == name);
    } else if segs[0] == cur_text() {
        assert(segs.len() >= 2);
        assert(segs.drop_first().last() == name);
    }
    assert(name != root_text()) by {
        assert(name[0] != '/');
    }
    assert(components(p).last() == name);
}

/// `base` joined with `p`, as `Path::join` does on Unix: an absolute `p`
/// replaces `base`; otherwise a separator goes between them unless `base`
/// is empty or already ends in one.
pub open spec fn join(base: Seq<char>, p: Seq<char>) -> Seq<char> {
    if p.len() > 0 && p[0] == '/' {
        p
    } else if base.len() == 0 || base.last() == '/' {
        base + p
    } else {
        base + seq!['/'] + p
    }
}

/// `base` joined with `p` (see `join`).
pub fn path_join(base: &str, p: &str) -> (r: String)
    ensures
        r@ == join(base@, p@),
{
    let bc = chars_of(base);
    let pc = chars_of(p);
    let mut r = String::new();
    if pc.len() > 0 && pc[0] == '/' {
        crate::text::push_range(&mut r, &pc, 0, pc.len());
        assert(pc@.subrange(0, pc@.len() as int) =~= pc@);
        return r;
    }
    crate::text::push_range(&mut r, &bc, 0, bc.len());
    if bc.len() > 0 && bc[bc.len() - 1] != '/' {
        push_char(&mut r, '/');
    }
    crate::text::push_range(&mut r, &pc, 0, pc.len());
    assert(pc@.subrange(0, pc@.len() as int) =~= pc@);
    assert(bc@.subrange(0, bc@.len() as int) =~= bc@);
    assert(r@ =~= join(base@, p@));
    r
}

} // verus!
