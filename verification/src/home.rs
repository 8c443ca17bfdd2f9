use vstd::prelude::*;
use vstd::slice::slice_subrange;

use crate::paths::{chars_of, head_len, text_of, user_home_dir};

verus! {

// ---------------------------------------------------------------------------
// Components of a path, read from the front, as std::path reads them: a root
// or a leading "." first, then the texts between separators, where empty and
// "." texts are passed over.
// ---------------------------------------------------------------------------

/// One component of a path.
pub enum Comp {
    Root,
    Cur,
    Parent,
    Normal(Seq<char>),
}

/// Index of the first separator of `s`, or its length.
pub open spec fn first_sep(s: Seq<char>) -> nat
    decreases s.len(),
{
    if s.len() == 0 {
        0
    } else if s[0] == '/' {
        0
    } else {
        1 + first_sep(s.drop_first())
    }
}

/// Characters taken by the first component text of `s` and its separator.
pub open spec fn comp_size(s: Seq<char>) -> nat {
    if first_sep(s) < s.len() {
        first_sep(s) + 1
    } else {
        first_sep(s)
    }
}

/// An empty or "." text stands for no component.
pub open spec fn is_skipped(c: Seq<char>) -> bool {
    c.len() == 0 || c == seq!['.']
}

pub open spec fn comp_of(c: Seq<char>) -> Comp {
    if c == seq!['.', '.'] {
        Comp::Parent
    } else {
        Comp::Normal(c)
    }
}

/// The next component after the start of a path, with the characters it takes.
pub open spec fn body_next(s: Seq<char>) -> Option<(Comp, nat)>
    decreases s.len(),
{
    if s.len() == 0 {
        None
    } else {
        let c = s.take(first_sep(s) as int);
        let size = comp_size(s);
        if is_skipped(c) {
            if 1 <= size <= s.len() {
                match body_next(s.skip(size as int)) {
                    Some((k, n)) => Some((k, n + size)),
                    None => None,
                }
            } else {
                None
            }
        } else {
            Some((comp_of(c), size))
        }
    }
}

/// The next component of `s`; `start` tells that nothing was read yet.
pub open spec fn next_comp(s: Seq<char>, start: bool) -> Option<(Comp, nat)> {
    if start && s.len() > 0 && s[0] == '/' {
        Some((Comp::Root, 1))
    } else if start && s.len() > 0 && s[0] == '.' && (s.len() == 1 || s[1] == '/') {
        Some((Comp::Cur, 1))
    } else {
        body_next(s)
    }
}

/// What is left of `p` after the components of `b`, when they are the first
/// components of `p`; the flag tells that nothing of `p` was read.
pub open spec fn strip_rest(p: Seq<char>, ps: bool, b: Seq<char>, bs: bool) -> Option<(Seq<char>, bool)>
    decreases p.len(),
{
    match (next_comp(p, ps), next_comp(b, bs)) {
        (Some((x, n)), Some((y, m))) => if x == y && 1 <= n <= p.len() && m <= b.len() {
            strip_rest(p.skip(n as int), false, b.skip(m as int), false)
        } else {
            None
        },
        (Some(_), None) => Some((p, ps)),
        (None, None) => Some((p, ps)),
        (None, Some(_)) => None,
    }
}

/// `t` without leading empty and "." components.
pub open spec fn trim_left(t: Seq<char>) -> Seq<char>
    decreases t.len(),
{
    if t.len() == 0 {
        t
    } else {
        let size = comp_size(t);
        if is_skipped(t.take(first_sep(t) as int)) && 1 <= size <= t.len() {
            trim_left(t.skip(size as int))
        } else {
            t
        }
    }
}

/// Index of the last separator of `u`, or -1.
pub open spec fn last_sep(u: Seq<char>) -> int
    decreases u.len(),
{
    if u.len() == 0 {
        -1
    } else if u.last() == '/' {
        u.len() - 1
    } else {
        last_sep(u.drop_last())
    }
}

/// `t` without trailing empty and "." components, keeping its first `keep` characters.
pub open spec fn trim_right(t: Seq<char>, keep: nat) -> Seq<char>
    decreases t.len(),
{
    if t.len() <= keep {
        t
    } else {
        let u = t.skip(keep as int);
        let j = last_sep(u);
        let c = u.skip(j + 1);
        let size = c.len() + if j >= 0 {
            1nat
        } else {
            0nat
        };
        if is_skipped(c) && 1 <= size <= t.len() {
            trim_right(t.take(t.len() - size), keep)
        } else {
            t
        }
    }
}

/// The text of what is left of a path: trimmed at both ends once something
/// was read, else only at its end, past its root or leading ".".
pub open spec fn rest_text(r: Seq<char>, started: bool) -> Seq<char> {
    if started {
        trim_right(trim_left(r), 0)
    } else {
        trim_right(r, head_len(r))
    }
}

/// How a path is shown: inside the home folder `home`, as "~/" and the rest.
pub open spec fn home_display(p: Seq<char>, home: Option<Seq<char>>) -> Seq<char> {
    match home {
        Some(h) => match strip_rest(p, true, h, true) {
            Some((r, st)) => "~/"@ + rest_text(r, !st),
            None => p,
        },
        None => p,
    }
}

// ---------------------------------------------------------------------------
// Reading components.
// ---------------------------------------------------------------------------

/// A component, pointing into the path's characters.
pub enum PathComp<'a> {
    Root,
    Cur,
    Parent,
    Normal(&'a [char]),
}

impl<'a> View for PathComp<'a> {
    type V = Comp;

    open spec fn view(&self) -> Comp {
        match self {
            PathComp::Root => Comp::Root,
            PathComp::Cur => Comp::Cur,
            PathComp::Parent => Comp::Parent,
            PathComp::Normal(c) => Comp::Normal(c@),
        }
    }
}

pub open spec fn comp_result(r: Option<(PathComp, usize)>) -> Option<(Comp, nat)> {
    match r {
        Some((c, n)) => Some((c@, n as nat)),
        None => None,
    }
}

proof fn lemma_first_sep(s: Seq<char>)
    ensures
        first_sep(s) <= s.len(),
        first_sep(s) < s.len() ==> s[first_sep(s) as int] == '/',
        forall|k: int| 0 <= k < first_sep(s) ==> s[k] != '/',
    decreases s.len(),
{
    if s.len() > 0 && s[0] != '/' {
        lemma_first_sep(s.drop_first());
        assert forall|k: int| 0 <= k < first_sep(s) implies s[k] != '/' by {
            if k > 0 {
                assert(s[k] == s.drop_first()[k - 1]);
            }
        }
    }
}

proof fn lemma_body_next_size(s: Seq<char>)
    ensures
        body_next(s) matches Some((c, n)) ==> 1 <= n <= s.len(),
    decreases s.len(),
{
    lemma_first_sep(s);
    if s.len() > 0 {
        let size = comp_size(s);
        if is_skipped(s.take(first_sep(s) as int)) && 1 <= size <= s.len() {
            lemma_body_next_size(s.skip(size as int));
        }
    }
}

proof fn lemma_next_comp_size(s: Seq<char>, start: bool)
    ensures
        next_comp(s, start) matches Some((c, n)) ==> 1 <= n <= s.len(),
{
    lemma_body_next_size(s);
}

fn first_sep_exec(s: &[char]) -> (i: usize)
    ensures
        i == first_sep(s@),
{
    let mut k: usize = 0;
    assert(s@.skip(0) == s@);
    while k < s.len() && s[k] != '/'
        invariant
            k <= s@.len(),
            first_sep(s@) == k + first_sep(s@.skip(k as int)),
        decreases s@.len() - k,
    {
        assert(s@.skip(k as int).drop_first() == s@.skip(k + 1));
        k = k + 1;
    }
    k
}

fn comp_size_exec(s: &[char]) -> (n: usize)
    ensures
        n == comp_size(s@),
{
    let i = first_sep_exec(s);
    proof {
        lemma_first_sep(s@);
    }
    if i < s.len() {
        i + 1
    } else {
        i
    }
}

fn is_skipped_exec(c: &[char]) -> (r: bool)
    ensures
        r == is_skipped(c@),
{
    if c.len() == 0 {
        return true;
    }
    if c.len() == 1 && c[0] == '.' {
        assert(c@ =~= seq!['.']);
        return true;
    }
    false
}

fn comp_of_exec<'a>(c: &'a [char]) -> (r: PathComp<'a>)
    ensures
        r@ == comp_of(c@),
{
    if c.len() == 2 && c[0] == '.' && c[1] == '.' {
        assert(c@ =~= seq!['.', '.']);
        PathComp::Parent
    } else {
        PathComp::Normal(c)
    }
}

fn body_next_exec<'a>(s: &'a [char]) -> (r: Option<(PathComp<'a>, usize)>)
    ensures
        comp_result(r) == body_next(s@),
    decreases s@.len(),
{
    if s.len() == 0 {
        return None;
    }
    let i = first_sep_exec(s);
    proof {
        lemma_first_sep(s@);
    }
    let c = slice_subrange(s, 0, i);
    assert(c@ =~= s@.take(i as int));
    let size = comp_size_exec(s);
    if is_skipped_exec(c) {
        if 1 <= size && size <= s.len() {
            let rest = slice_subrange(s, size, s.len());
            assert(rest@ =~= s@.skip(size as int));
            proof {
                lemma_body_next_size(rest@);
            }
            match body_next_exec(rest) {
                Some((k, n)) => Some((k, n + size)),
                None => None,
            }
        } else {
            None
        }
    } else {
        Some((comp_of_exec(c), size))
    }
}

fn next_comp_exec<'a>(s: &'a [char], start: bool) -> (r: Option<(PathComp<'a>, usize)>)
    ensures
        comp_result(r) == next_comp(s@, start),
{
    if start && s.len() > 0 && s[0] == '/' {
        Some((PathComp::Root, 1))
    } else if start && s.len() > 0 && s[0] == '.' && (s.len() == 1 || s[1] == '/') {
        Some((PathComp::Cur, 1))
    } else {
        body_next_exec(s)
    }
}

fn same_chars(a: &[char], b: &[char]) -> (r: bool)
    ensures
        r == (a@ == b@),
{
    if a.len() != b.len() {
        return false;
    }
    let mut i: usize = 0;
    while i < a.len()
        invariant
            a@.len() == b@.len(),
            i <= a@.len(),
            forall|j: int| 0 <= j < i ==> a@[j] == b@[j],
        decreases a@.len() - i,
    {
        if a[i] != b[i] {
            return false;
        }
        i = i + 1;
    }
    assert(a@ =~= b@);
    true
}

fn same_comp(a: &PathComp, b: &PathComp) -> (r: bool)
    ensures
        r == (a@ == b@),
{
    match (a, b) {
        (PathComp::Root, PathComp::Root) => true,
        (PathComp::Cur, PathComp::Cur) => true,
        (PathComp::Parent, PathComp::Parent) => true,
        (PathComp::Normal(x), PathComp::Normal(y)) => same_chars(x, y),
        _ => false,
    }
}

fn strip_rest_exec<'a>(p: &'a [char], ps: bool, b: &[char], bs: bool) -> (r: Option<(&'a [char], bool)>)
    ensures
        match (r, strip_rest(p@, ps, b@, bs)) {
            (Some((x, f)), Some((y, g))) => x@ == y && f == g,
            (None, None) => true,
            _ => false,
        },
    decreases p@.len(),
{
    let pn = next_comp_exec(p, ps);
    let bn = next_comp_exec(b, bs);
    proof {
        lemma_next_comp_size(p@, ps);
        lemma_next_comp_size(b@, bs);
    }
    match (pn, bn) {
        (Some((x, n)), Some((y, m))) => {
            if same_comp(&x, &y) {
                let p2 = slice_subrange(p, n, p.len());
                let b2 = slice_subrange(b, m, b.len());
                assert(p2@ =~= p@.skip(n as int));
                assert(b2@ =~= b@.skip(m as int));
                strip_rest_exec(p2, false, b2, false)
            } else {
                None
            }
        },
        (Some(_), None) => Some((p, ps)),
        (None, None) => Some((p, ps)),
        (None, Some(_)) => None,
    }
}

fn trim_left_exec(t: &[char]) -> (r: &[char])
    ensures
        r@ == trim_left(t@),
    decreases t@.len(),
{
    if t.len() == 0 {
        return t;
    }
    let i = first_sep_exec(t);
    proof {
        lemma_first_sep(t@);
    }
    let c = slice_subrange(t, 0, i);
    assert(c@ =~= t@.take(i as int));
    let size = comp_size_exec(t);
    if is_skipped_exec(c) && 1 <= size && size <= t.len() {
        let rest = slice_subrange(t, size, t.len());
        assert(rest@ =~= t@.skip(size as int));
        trim_left_exec(rest)
    } else {
        t
    }
}

fn last_sep_exec(u: &[char]) -> (j: Option<usize>)
    ensures
        match j {
            Some(k) => k < u@.len() && last_sep(u@) == k,
            None => last_sep(u@) == -1,
        },
{
    let mut e: usize = u.len();
    assert(u@.take(e as int) == u@);
    while e > 0 && u[e - 1] != '/'
        invariant
            e <= u@.len(),
            last_sep(u@) == last_sep(u@.take(e as int)),
        decreases e,
    {
        assert(u@.take(e as int).drop_last() == u@.take(e - 1));
        e = e - 1;
    }
    if e == 0 {
        None
    } else {
        Some(e - 1)
    }
}

fn trim_right_exec(t: &[char], keep: usize) -> (r: &[char])
    ensures
        r@ == trim_right(t@, keep as nat),
    decreases t@.len(),
{
    if t.len() <= keep {
        return t;
    }
    let u = slice_subrange(t, keep, t.len());
    assert(u@ =~= t@.skip(keep as int));
    let j = last_sep_exec(u);
    let from: usize = match j {
        Some(k) => k + 1,
        None => 0,
    };
    let c = slice_subrange(u, from, u.len());
    assert(c@ =~= u@.skip(last_sep(u@) + 1));
    let size: usize = match j {
        Some(_) => c.len() + 1,
        None => c.len(),
    };
    if is_skipped_exec(c) && 1 <= size && size <= t.len() {
        let shorter = slice_subrange(t, 0, t.len() - size);
        assert(shorter@ =~= t@.take(t@.len() - size));
        trim_right_exec(shorter, keep)
    } else {
        t
    }
}

fn head_len_exec(r: &[char]) -> (n: usize)
    ensures
        n == head_len(r@),
{
    if r.len() > 0 && r[0] == '/' {
        1
    } else if r.len() > 0 && r[0] == '.' && (r.len() == 1 || r[1] == '/') {
        1
    } else {
        0
    }
}

/// How `path` is shown when the home folder is `home`: inside it, as "~/"
/// followed by the rest of the path; elsewhere, as it is.
pub fn display_home_path_in(path: &str, home: Option<String>) -> (r: String)
    ensures
        r@ == home_display(
            path@,
            match home {
                Some(h) => Some(h@),
                None => None,
            },
        ),
{
    let p = chars_of(path);
    match home {
        None => path.to_owned(),
        Some(h) => {
            let hv = chars_of(h.as_str());
            match strip_rest_exec(p.as_slice(), true, hv.as_slice(), true) {
                None => path.to_owned(),
                Some((rest, st)) => {
                    let shown = if !st {
                        trim_right_exec(trim_left_exec(rest), 0)
                    } else {
                        let keep = head_len_exec(rest);
                        trim_right_exec(rest, keep)
                    };
                    let v = slice_to_vec_chars(shown);
                    let mut out = String::from_str("~/");
                    let tail = text_of(&v, 0, v.len());
                    out.append(tail.as_str());
                    assert(tail@ =~= shown@);
                    out
                },
            }
        },
    }
}

fn slice_to_vec_chars(s: &[char]) -> (v: Vec<char>)
    ensures
        v@ == s@,
{
    let mut v: Vec<char> = Vec::new();
    let mut i: usize = 0;
    while i < s.len()
        invariant
            i <= s@.len(),
            v@ == s@.take(i as int),
        decreases s@.len() - i,
    {
        v.push(s[i]);
        i = i + 1;
        assert(v@ =~= s@.take(i as int));
    }
    assert(s@.take(s@.len() as int) == s@);
    v
}

/// How `path` is shown: inside the user's home folder, as "~/" followed by
/// the rest of the path.
pub fn display_home_path(path: &str) -> (r: String)
    ensures
        exists|h: Option<Seq<char>>| r@ == #[trigger] home_display(path@, h),
{
    let home = user_home_dir();
    let ghost gh = home;
    let ghost h = match gh {
        Some(x) => Some(x@),
        None => None,
    };
    let r = display_home_path_in(path, home);
    assert(r@ == home_display(path@, h));
    r
}

} // verus!
