use vstd::prelude::*;
use vstd::string::*;

pub use crate::home::display_home_path;

use crate::error::Error;
use crate::validate::error_view;
use crate::text::{decimal, push_char, push_decimal, skip_leading, strip_leading};

verus! {

// ---------------------------------------------------------------------------
// The model of a path: a text whose components are separated by '/'.
// Empty components and "." components after the first are not counted, as in
// std::path; a path keeps whatever text it was written with.
// ---------------------------------------------------------------------------

/// `p` without trailing separators and without trailing "." components.
pub open spec fn trim_tail(p: Seq<char>) -> Seq<char>
    decreases p.len(),
{
    if p.len() == 0 {
        p
    } else if p.last() == '/' {
        trim_tail(p.drop_last())
    } else if p.last() == '.' && (p.len() == 1 || p[p.len() - 2] == '/') {
        trim_tail(p.drop_last())
    } else {
        p
    }
}

/// Index just past the last separator of `s` (0 when there is none).
pub open spec fn name_start(s: Seq<char>) -> nat
    decreases s.len(),
{
    if s.len() == 0 {
        0
    } else if s.last() == '/' {
        s.len()
    } else {
        name_start(s.drop_last())
    }
}

/// The text of the last component of `p`.
pub open spec fn last_component(p: Seq<char>) -> Seq<char> {
    let t = trim_tail(p);
    t.skip(name_start(t) as int)
}

pub open spec fn is_dot_dot(s: Seq<char>) -> bool {
    s.len() == 2 && s[0] == '.' && s[1] == '.'
}

/// The file name of `p`: its last component, unless there is none or it is "..".
pub open spec fn file_name_of(p: Seq<char>) -> Option<Seq<char>> {
    let n = last_component(p);
    if n.len() == 0 || is_dot_dot(n) {
        None
    } else {
        Some(n)
    }
}

/// Index of the last '.' in `s`, or -1.
pub open spec fn last_dot(s: Seq<char>) -> int
    decreases s.len(),
{
    if s.len() == 0 {
        -1
    } else if s.last() == '.' {
        s.len() - 1
    } else {
        last_dot(s.drop_last())
    }
}

/// The stem of a file name: all of it when its only dot is the first character
/// or it has none, else what stands before the last dot.
pub open spec fn stem_of(name: Seq<char>) -> Seq<char> {
    if last_dot(name) <= 0 {
        name
    } else {
        name.take(last_dot(name))
    }
}

/// The extension of a file name: what follows the last dot, when that dot is
/// not the first character.
pub open spec fn ext_of(name: Seq<char>) -> Option<Seq<char>> {
    if last_dot(name) <= 0 {
        None
    } else {
        Some(name.skip(last_dot(name) + 1))
    }
}

/// The stem used for naming outputs: that of the file name, or "file".
pub open spec fn stem_text(p: Seq<char>) -> Seq<char> {
    match file_name_of(p) {
        Some(n) => stem_of(n),
        None => seq!['f', 'i', 'l', 'e'],
    }
}

/// The extension used for naming outputs: that of the file name, or empty.
pub open spec fn ext_text(p: Seq<char>) -> Seq<char> {
    match file_name_of(p) {
        Some(n) => match ext_of(n) {
            Some(e) => e,
            None => Seq::empty(),
        },
        None => Seq::empty(),
    }
}

/// `name` appended to `dir`: an absolute `name` replaces `dir`, and a separator
/// is put between them when `dir` is not empty and does not end with one.
pub open spec fn join(dir: Seq<char>, name: Seq<char>) -> Seq<char> {
    if name.len() > 0 && name[0] == '/' {
        name
    } else if dir.len() == 0 || dir.last() == '/' {
        dir + name
    } else {
        dir + seq!['/'] + name
    }
}

/// `p` with the extension of its file name replaced by `ext` (removed when `ext`
/// is empty); `p` itself when it has no file name.
pub open spec fn with_extension(p: Seq<char>, ext: Seq<char>) -> Seq<char> {
    match file_name_of(p) {
        None => p,
        Some(n) => {
            let t = trim_tail(p);
            t.take(name_start(t) as int) + stem_of(n) + (if ext.len() == 0 {
                Seq::empty()
            } else {
                seq!['.'] + ext
            })
        },
    }
}

// ---------------------------------------------------------------------------
// Character-level helpers.
// ---------------------------------------------------------------------------

/// The characters of `s`.
pub fn chars_of(s: &str) -> (v: Vec<char>)
    ensures
        v@ == s@,
{
    let n = s.unicode_len();
    let mut v: Vec<char> = Vec::new();
    let mut i: usize = 0;
    while i < n
        invariant
            n == s@.len(),
            i <= n,
            v@ == s@.take(i as int),
        decreases n - i,
    {
        v.push(s.get_char(i));
        i = i + 1;
        assert(v@ =~= s@.take(i as int));
    }
    assert(s@.take(n as int) == s@);
    v
}

/// The characters `v[from..to]` as a string.
pub fn text_of(v: &Vec<char>, from: usize, to: usize) -> (s: String)
    requires
        from <= to <= v@.len(),
    ensures
        s@ == v@.subrange(from as int, to as int),
{
    let mut s = String::new();
    let mut i: usize = from;
    while i < to
        invariant
            from <= i <= to <= v@.len(),
            s@ == v@.subrange(from as int, i as int),
        decreases to - i,
    {
        push_char(&mut s, v[i]);
        i = i + 1;
        assert(s@ =~= v@.subrange(from as int, i as int));
    }
    s
}

/// Length of `trim_tail(v)`.
fn trimmed_len(v: &Vec<char>) -> (k: usize)
    ensures
        k <= v@.len(),
        trim_tail(v@) == v@.take(k as int),
{
    let mut k: usize = v.len();
    assert(v@.take(k as int) == v@);
    while k > 0 && (v[k - 1] == '/' || (v[k - 1] == '.' && (k == 1 || v[k - 2] == '/')))
        invariant
            k <= v@.len(),
            trim_tail(v@) == trim_tail(v@.take(k as int)),
        decreases k,
    {
        assert(v@.take(k as int).drop_last() == v@.take(k - 1));
        k = k - 1;
    }
    k
}

/// `name_start(v[..k])`.
fn name_start_in(v: &Vec<char>, k: usize) -> (j: usize)
    requires
        k <= v@.len(),
    ensures
        j <= k,
        j == name_start(v@.take(k as int)),
        forall|i: int| j <= i < k ==> v@[i] != '/',
{
    let mut j: usize = k;
    while j > 0 && v[j - 1] != '/'
        invariant
            j <= k <= v@.len(),
            name_start(v@.take(k as int)) == name_start(v@.take(j as int)),
            forall|i: int| j <= i < k ==> v@[i] != '/',
        decreases j,
    {
        assert(v@.take(j as int).drop_last() == v@.take(j - 1));
        j = j - 1;
    }
    j
}

/// Index of the last '.' in `v[from..to]`, counted from `from`.
fn last_dot_in(v: &Vec<char>, from: usize, to: usize) -> (d: Option<usize>)
    requires
        from <= to <= v@.len(),
    ensures
        match d {
            Some(i) => i < to - from && last_dot(v@.subrange(from as int, to as int)) == i,
            None => last_dot(v@.subrange(from as int, to as int)) == -1,
        },
{
    let mut e: usize = to;
    while e > from && v[e - 1] != '.'
        invariant
            from <= e <= to <= v@.len(),
            last_dot(v@.subrange(from as int, to as int)) == last_dot(
                v@.subrange(from as int, e as int),
            ),
        decreases e,
    {
        assert(v@.subrange(from as int, e as int).drop_last() == v@.subrange(
            from as int,
            e - 1,
        ));
        e = e - 1;
    }
    if e == from {
        None
    } else {
        Some(e - 1 - from)
    }
}

/// Where the file name of a path lies in its characters.
struct NameSpan {
    chars: Vec<char>,
    trimmed: usize,
    start: usize,
}

impl NameSpan {
    spec fn wf(self, p: Seq<char>) -> bool {
        &&& self.chars@ == p
        &&& self.start <= self.trimmed <= p.len()
        &&& trim_tail(p) == p.take(self.trimmed as int)
        &&& self.start == name_start(trim_tail(p))
        &&& last_component(p) == p.subrange(self.start as int, self.trimmed as int)
    }

    fn of(path: &str) -> (r: NameSpan)
        ensures
            r.wf(path@),
    {
        let chars = chars_of(path);
        let trimmed = trimmed_len(&chars);
        let start = name_start_in(&chars, trimmed);
        assert(chars@.take(trimmed as int).skip(start as int) =~= chars@.subrange(
            start as int,
            trimmed as int,
        ));
        NameSpan { chars, trimmed, start }
    }

    /// Whether the path has a file name.
    fn has_name(&self, Ghost(p): Ghost<Seq<char>>) -> (r: bool)
        requires
            self.wf(p),
        ensures
            r == file_name_of(p) is Some,
    {
        let len = self.trimmed - self.start;
        if len == 0 {
            false
        } else if len == 2 && self.chars[self.start] == '.' && self.chars[self.start + 1] == '.' {
            false
        } else {
            true
        }
    }
}

// ---------------------------------------------------------------------------
// Public path operations.
// ---------------------------------------------------------------------------

/// The file name of `path`, if it has one.
pub fn file_name(path: &str) -> (r: Option<String>)
    ensures
        match r {
            Some(s) => file_name_of(path@) == Some(s@),
            None => file_name_of(path@) is None,
        },
{
    let span = NameSpan::of(path);
    if span.has_name(Ghost(path@)) {
        Some(text_of(&span.chars, span.start, span.trimmed))
    } else {
        None
    }
}

/// The stem of the file name of `path`, or "file" when it has no file name.
pub fn file_stem(path: &str) -> (r: String)
    ensures
        r@ == stem_text(path@),
{
    let span = NameSpan::of(path);
    if !span.has_name(Ghost(path@)) {
        let r = String::from_str("file");
        proof {
            reveal_strlit("file");
        }
        return r;
    }
    let d = last_dot_in(&span.chars, span.start, span.trimmed);
    match d {
        Some(i) if i > 0 => {
            let r = text_of(&span.chars, span.start, span.start + i);
            assert(r@ =~= path@.subrange(span.start as int, span.trimmed as int).take(i as int));
            r
        },
        _ => text_of(&span.chars, span.start, span.trimmed),
    }
}

/// The extension of the file name of `path`, or empty when there is none.
pub fn file_ext(path: &str) -> (r: String)
    ensures
        r@ == ext_text(path@),
{
    let span = NameSpan::of(path);
    if !span.has_name(Ghost(path@)) {
        return String::new();
    }
    let d = last_dot_in(&span.chars, span.start, span.trimmed);
    match d {
        Some(i) if i > 0 => {
            let r = text_of(&span.chars, span.start + i + 1, span.trimmed);
            assert(r@ =~= path@.subrange(span.start as int, span.trimmed as int).skip(i + 1));
            r
        },
        _ => String::new(),
    }
}

/// `name` appended to `dir` as a path component.
pub fn join_path(dir: &str, name: &str) -> (r: String)
    ensures
        r@ == join(dir@, name@),
{
    let dn = dir.unicode_len();
    let nn = name.unicode_len();
    if nn > 0 && name.get_char(0) == '/' {
        return name.to_owned();
    }
    let mut out = dir.to_owned();
    if dn > 0 && dir.get_char(dn - 1) != '/' {
        push_char(&mut out, '/');
    }
    out.append(name);
    out
}

/// `path` with the extension of its file name replaced by `ext`.
pub fn replace_extension(path: &str, ext: &str) -> (r: String)
    ensures
        r@ == with_extension(path@, ext@),
{
    let span = NameSpan::of(path);
    if !span.has_name(Ghost(path@)) {
        return path.to_owned();
    }
    let d = last_dot_in(&span.chars, span.start, span.trimmed);
    let stem_end = match d {
        Some(i) if i > 0 => span.start + i,
        _ => span.trimmed,
    };
    let mut out = text_of(&span.chars, 0, stem_end);
    if !ext.is_empty() {
        push_char(&mut out, '.');
        out.append(ext);
    }
    proof {
        let t = trim_tail(path@);
        let n = path@.subrange(span.start as int, span.trimmed as int);
        assert(t.take(name_start(t) as int) =~= path@.take(span.start as int));
        if last_dot(n) > 0 {
            assert(path@.subrange(0, stem_end as int) =~= path@.take(span.start as int) + n.take(
                last_dot(n),
            ));
        } else {
            assert(path@.subrange(0, stem_end as int) =~= path@.take(span.start as int) + n);
        }
    }
    out
}

} // verus!

verus! {

// ---------------------------------------------------------------------------
// Choosing an output path that is not taken yet.
// ---------------------------------------------------------------------------

/// The name of the `n`-th candidate for a file with `stem` and extension `e`
/// (`e` without leading dots): the plain name first, then "stem (n)".
pub open spec fn candidate_name(stem: Seq<char>, e: Seq<char>, n: nat) -> Seq<char> {
    let base = if n <= 1 {
        stem
    } else {
        stem + " ("@ + decimal(n) + ")"@
    };
    if e.len() == 0 {
        base
    } else {
        base + seq!['.'] + e
    }
}

/// The name used when every numbered candidate is taken: "stem-tag.e".
pub open spec fn fallback_name(stem: Seq<char>, e: Seq<char>, tag: nat) -> Seq<char> {
    stem + seq!['-'] + decimal(tag) + seq!['.'] + e
}

/// The last candidate number tried before the fallback name.
pub open spec fn last_candidate() -> nat {
    9999
}

/// `is_taken` answered `b` when asked about the path `p`.
pub open spec fn answered<F: Fn(String) -> bool>(is_taken: F, p: Seq<char>, b: bool) -> bool {
    exists|s: String| #[trigger] call_ensures(is_taken, (s,), b) && s@ == p
}

/// The `n`-th candidate in `dir` was reported free and every earlier one taken.
pub open spec fn settles_at<F: Fn(String) -> bool>(
    is_taken: F,
    dir: Seq<char>,
    stem: Seq<char>,
    e: Seq<char>,
    n: nat,
) -> bool {
    &&& answered(is_taken, join(dir, candidate_name(stem, e, n)), false)
    &&& forall|m: nat|
        1 <= m < n ==> answered(is_taken, #[trigger] join(dir, candidate_name(stem, e, m)), true)
}

/// What `unique_path` may return, given what `is_taken` answered: the first
/// candidate reported free, or the fallback name when all were reported taken.
pub open spec fn unique_path_result<F: Fn(String) -> bool>(
    is_taken: F,
    dir: Seq<char>,
    stem: Seq<char>,
    ext: Seq<char>,
    tag: nat,
    r: Seq<char>,
) -> bool {
    let e = skip_leading(ext, '.');
    ||| exists|n: nat|
        1 <= n <= last_candidate() && #[trigger] settles_at(is_taken, dir, stem, e, n) && r == join(
            dir,
            candidate_name(stem, e, n),
        )
    ||| (forall|m: nat|
        1 <= m <= last_candidate() ==> answered(
            is_taken,
            #[trigger] join(dir, candidate_name(stem, e, m)),
            true,
        )) && r == join(dir, fallback_name(stem, e, tag))
}

/// `is_taken` never gives both answers about one path: nothing on disk
/// changes while it is asked.
pub open spec fn answers_consistently<F: Fn(String) -> bool>(is_taken: F) -> bool {
    forall|p: Seq<char>|
        #[trigger] answered(is_taken, p, true) ==> !answered(is_taken, p, false)
}

/// When `is_taken` answers consistently, `unique_path` has exactly one
/// possible result: asking twice gives the same path.
pub proof fn unique_path_result_is_determined<F: Fn(String) -> bool>(
    is_taken: F,
    dir: Seq<char>,
    stem: Seq<char>,
    ext: Seq<char>,
    tag: nat,
    r1: Seq<char>,
    r2: Seq<char>,
)
    requires
        answers_consistently(is_taken),
        unique_path_result(is_taken, dir, stem, ext, tag, r1),
        unique_path_result(is_taken, dir, stem, ext, tag, r2),
    ensures
        r1 == r2,
{
    let e = skip_leading(ext, '.');
    let settled1 = exists|n: nat|
        1 <= n <= last_candidate() && #[trigger] settles_at(is_taken, dir, stem, e, n) && r1 == join(
            dir,
            candidate_name(stem, e, n),
        );
    let settled2 = exists|n: nat|
        1 <= n <= last_candidate() && #[trigger] settles_at(is_taken, dir, stem, e, n) && r2 == join(
            dir,
            candidate_name(stem, e, n),
        );
    if settled1 {
        let n1 = choose|n: nat|
            1 <= n <= last_candidate() && #[trigger] settles_at(is_taken, dir, stem, e, n) && r1
                == join(dir, candidate_name(stem, e, n));
        let p1 = join(dir, candidate_name(stem, e, n1));
        assert(answered(is_taken, p1, false));
        if settled2 {
            let n2 = choose|n: nat|
                1 <= n <= last_candidate() && #[trigger] settles_at(is_taken, dir, stem, e, n) && r2
                    == join(dir, candidate_name(stem, e, n));
            let p2 = join(dir, candidate_name(stem, e, n2));
            assert(answered(is_taken, p2, false));
            if n1 < n2 {
                assert(answered(is_taken, p1, true));
            } else if n2 < n1 {
                assert(answered(is_taken, p2, true));
            }
        } else {
            assert(answered(is_taken, p1, true));
        }
    } else if settled2 {
        let n2 = choose|n: nat|
            1 <= n <= last_candidate() && #[trigger] settles_at(is_taken, dir, stem, e, n) && r2
                == join(dir, candidate_name(stem, e, n));
        let p2 = join(dir, candidate_name(stem, e, n2));
        assert(answered(is_taken, p2, false));
        assert(answered(is_taken, p2, true));
    }
}

/// The `n`-th candidate name.
fn candidate(stem: &str, e: &str, n: u64) -> (r: String)
    ensures
        r@ == candidate_name(stem@, e@, n as nat),
{
    let mut out = stem.to_owned();
    if n > 1 {
        out.append(" (");
        push_decimal(&mut out, n);
        out.append(")");
    }
    if !e.is_empty() {
        push_char(&mut out, '.');
        out.append(e);
    }
    out
}

/// Asks `is_taken` about `p`.
fn ask<F: Fn(String) -> bool>(is_taken: &F, p: &String) -> (b: bool)
    requires
        forall|s: String| #[trigger] is_taken.requires((s,)),
    ensures
        answered(*is_taken, p@, b),
{
    let q = p.clone();
    let b = is_taken(q);
    assert(call_ensures(*is_taken, (q,), b) && q@ == p@);
    b
}

/// A path in `dir` for a file named after `stem` and `ext` that `is_taken`
/// reports free: "stem.ext", else "stem (2).ext" up to "stem (9999).ext",
/// else "stem-tag.ext". Leading dots of `ext` are dropped; an empty extension
/// gives a name without a dot.
pub fn unique_path<F: Fn(String) -> bool>(
    dir: &str,
    stem: &str,
    ext: &str,
    is_taken: &F,
    tag: u32,
) -> (r: String)
    requires
        forall|s: String| #[trigger] is_taken.requires((s,)),
    ensures
        unique_path_result(*is_taken, dir@, stem@, ext@, tag as nat, r@),
{
    let e = strip_leading(ext, '.');
    let first = join_path(dir, candidate(stem, e.as_str(), 1).as_str());
    if !ask(is_taken, &first) {
        assert(settles_at(*is_taken, dir@, stem@, e@, 1));
        return first;
    }
    let mut n: u64 = 2;
    while n <= 9999
        invariant
            2 <= n <= 10000,
            forall|s: String| #[trigger] is_taken.requires((s,)),
            e@ == skip_leading(ext@, '.'),
            forall|m: nat|
                1 <= m < n ==> answered(
                    *is_taken,
                    #[trigger] join(dir@, candidate_name(stem@, e@, m)),
                    true,
                ),
        decreases 10000 - n,
    {
        let c = join_path(dir, candidate(stem, e.as_str(), n).as_str());
        if !ask(is_taken, &c) {
            assert(settles_at(*is_taken, dir@, stem@, e@, n as nat));
            return c;
        }
        n = n + 1;
    }
    let mut name = stem.to_owned();
    push_char(&mut name, '-');
    push_decimal(&mut name, tag as u64);
    push_char(&mut name, '.');
    name.append(e.as_str());
    assert(name@ =~= fallback_name(stem@, e@, tag as nat));
    join_path(dir, name.as_str())
}

} // verus!

verus! {

// ---------------------------------------------------------------------------
// The parent of a path.
// ---------------------------------------------------------------------------

/// How many leading characters of `q` are a root or a leading "." component,
/// which trimming never removes.
pub open spec fn head_len(q: Seq<char>) -> nat {
    if q.len() > 0 && q[0] == '/' {
        1
    } else if q.len() > 0 && q[0] == '.' && (q.len() == 1 || q[1] == '/') {
        1
    } else {
        0
    }
}

/// `q` without trailing separators and "." components, keeping its first `keep` characters.
pub open spec fn trim_parent(q: Seq<char>, keep: nat) -> Seq<char>
    decreases q.len(),
{
    if q.len() <= keep {
        q
    } else if q.last() == '/' {
        trim_parent(q.drop_last(), keep)
    } else if q.last() == '.' && q.len() >= 2 && q[q.len() - 2] == '/' {
        trim_parent(q.drop_last(), keep)
    } else {
        q
    }
}

/// The parent of `p`: what stands before its last component; `None` for a
/// root or an empty path.
pub open spec fn parent_of(p: Seq<char>) -> Option<Seq<char>> {
    let t = trim_tail(p);
    if t.len() == 0 {
        if p.len() > 0 && p[0] == '.' {
            Some(Seq::empty())
        } else {
            None
        }
    } else {
        let q = t.take(name_start(t) as int);
        Some(trim_parent(q, head_len(q)))
    }
}

/// The parent directory of `path`, if it has one.
pub fn parent(path: &str) -> (r: Option<String>)
    ensures
        match r {
            Some(s) => parent_of(path@) == Some(s@),
            None => parent_of(path@) is None,
        },
{
    let span = NameSpan::of(path);
    let v = &span.chars;
    if span.trimmed == 0 {
        if v.len() > 0 && v[0] == '.' {
            return Some(String::new());
        }
        return None;
    }
    let q_len = span.start;
    let ghost q = path@.take(q_len as int);
    proof {
        let t = trim_tail(path@);
        assert(t.take(name_start(t) as int) =~= q);
    }
    let keep: usize = if q_len > 0 && v[0] == '/' {
        1
    } else if q_len > 0 && v[0] == '.' && (q_len == 1 || v[1] == '/') {
        1
    } else {
        0
    };
    assert(keep == head_len(q));
    let mut k: usize = q_len;
    assert(path@.take(k as int) == q);
    while k > keep && (v[k - 1] == '/' || (v[k - 1] == '.' && k >= 2 && v[k - 2] == '/'))
        invariant
            keep <= 1,
            k <= q_len <= v@.len(),
            v@ == path@,
            keep == head_len(q),
            q == path@.take(q_len as int),
            trim_parent(q, keep as nat) == trim_parent(path@.take(k as int), keep as nat),
        decreases k,
    {
        assert(path@.take(k as int).drop_last() == path@.take(k - 1));
        k = k - 1;
    }
    Some(text_of(v, 0, k))
}

} // verus!

verus! {

// ---------------------------------------------------------------------------
// The program's own directories.
// ---------------------------------------------------------------------------

/// The user's configuration directory, as text (bytes that are not UTF-8
/// are replaced).
/// Wraps `dirs::config_dir`, whose answer depends on the environment
/// ($XDG_CONFIG_HOME, $HOME, the password database); nothing is claimed about it.
#[verifier::external_body]
fn user_config_dir() -> Option<String> {
    dirs::config_dir().map(|p| p.to_string_lossy().into_owned())
}

/// The user's cache directory, as text (bytes that are not UTF-8 are replaced).
/// Wraps `dirs::cache_dir`, whose answer depends on the environment
/// ($XDG_CACHE_HOME, $HOME); nothing is claimed about it.
#[verifier::external_body]
fn user_cache_dir() -> Option<String> {
    dirs::cache_dir().map(|p| p.to_string_lossy().into_owned())
}

/// The user's home directory, as text (bytes that are not UTF-8 are replaced).
/// Wraps `dirs::home_dir`, whose answer depends on $HOME and the password
/// database; nothing is claimed about it.
#[verifier::external_body]
pub(crate) fn user_home_dir() -> Option<String> {
    dirs::home_dir().map(|p| p.to_string_lossy().into_owned())
}

/// The name of the program's directories.
pub open spec fn app_dir_name() -> Seq<char> {
    "shadow-batch-processor"@
}

pub open spec fn no_config_message() -> Seq<char> {
    "Could not find the user configuration directory (XDG_CONFIG_HOME)."@
}

pub open spec fn no_cache_message() -> Seq<char> {
    "Could not find the user cache directory (XDG_CACHE_HOME)."@
}

/// `r` is `Ok(p)` with `p` the text `v`, or an error with the message `m`.
pub open spec fn dir_result(r: Result<String, Error>, v: Option<Seq<char>>, m: Seq<char>) -> bool {
    match (r, v) {
        (Ok(p), Some(w)) => p@ == w,
        (Err(e), None) => error_view(e) == (m, None::<Seq<char>>),
        _ => false,
    }
}

/// The program's directory inside the base directory `base`, if there is one.
pub open spec fn app_dir_in(base: Option<String>) -> Option<Seq<char>> {
    match base {
        Some(b) => Some(join(b@, app_dir_name())),
        None => None,
    }
}

/// The program's configuration directory, given the user's configuration directory.
pub fn config_dir_in(base: Option<String>) -> (r: Result<String, Error>)
    ensures
        dir_result(r, app_dir_in(base), no_config_message()),
{
    match base {
        Some(b) => Ok(join_path(b.as_str(), "shadow-batch-processor")),
        None => Err(
            Error::user(
                String::from_str(
                    "Could not find the user configuration directory (XDG_CONFIG_HOME).",
                ),
            ),
        ),
    }
}

/// The program's cache directory, given the user's cache directory.
pub fn cache_dir_in(base: Option<String>) -> (r: Result<String, Error>)
    ensures
        dir_result(r, app_dir_in(base), no_cache_message()),
{
    match base {
        Some(b) => Ok(join_path(b.as_str(), "shadow-batch-processor")),
        None => Err(
            Error::user(
                String::from_str("Could not find the user cache directory (XDG_CACHE_HOME)."),
            ),
        ),
    }
}

/// The path `d` is a directory named `name` inside the program's directory in
/// some base directory.
pub open spec fn in_app_dir(d: Seq<char>, name: Seq<char>) -> bool {
    exists|b: Seq<char>| d == #[trigger] join(join(b, app_dir_name()), name)
}

/// The program's configuration directory.
pub fn config_dir() -> (r: Result<String, Error>)
    ensures
        match r {
            Ok(p) => exists|b: Seq<char>| p@ == #[trigger] join(b, app_dir_name()),
            Err(e) => error_view(e) == (no_config_message(), None::<Seq<char>>),
        },
{
    let base = user_config_dir();
    let ghost gb = base;
    let r = config_dir_in(base);
    proof {
        if let Some(b) = gb {
            assert(r.unwrap()@ == join(b@, app_dir_name()));
        }
    }
    r
}

/// The program's cache directory.
pub fn cache_dir() -> (r: Result<String, Error>)
    ensures
        match r {
            Ok(p) => exists|b: Seq<char>| p@ == #[trigger] join(b, app_dir_name()),
            Err(e) => error_view(e) == (no_cache_message(), None::<Seq<char>>),
        },
{
    let base = user_cache_dir();
    let ghost gb = base;
    let r = cache_dir_in(base);
    proof {
        if let Some(b) = gb {
            assert(r.unwrap()@ == join(b@, app_dir_name()));
        }
    }
    r
}

/// `name` inside the directory `r`, errors passed on.
fn inside(r: Result<String, Error>, name: &str) -> (s: Result<String, Error>)
    ensures
        match (r, s) {
            (Ok(d), Ok(p)) => p@ == join(d@, name@),
            (Err(a), Err(b)) => a == b,
            _ => false,
        },
{
    match r {
        Ok(d) => Ok(join_path(d.as_str(), name)),
        Err(e) => Err(e),
    }
}

/// The settings file.
pub fn settings_path() -> (r: Result<String, Error>)
    ensures
        match r {
            Ok(p) => in_app_dir(p@, "settings.json"@),
            Err(e) => error_view(e) == (no_config_message(), None::<Seq<char>>),
        },
{
    let r = inside(config_dir(), "settings.json");
    let ghost gr = r;
    proof {
        if let Ok(p) = gr {
            let d = choose|d: Seq<char>| p@ == join(d, "settings.json"@) && exists|b: Seq<char>| d == #[trigger] join(b, app_dir_name());
            let b = choose|b: Seq<char>| d == #[trigger] join(b, app_dir_name());
            assert(p@ == join(join(b, app_dir_name()), "settings.json"@));
        }
    }
    r
}

/// The directory of the user's presets.
pub fn presets_dir() -> (r: Result<String, Error>)
    ensures
        match r {
            Ok(p) => in_app_dir(p@, "presets"@),
            Err(e) => error_view(e) == (no_config_message(), None::<Seq<char>>),
        },
{
    let r = inside(config_dir(), "presets");
    let ghost gr = r;
    proof {
        if let Ok(p) = gr {
            let d = choose|d: Seq<char>| p@ == join(d, "presets"@) && exists|b: Seq<char>| d == #[trigger] join(b, app_dir_name());
            let b = choose|b: Seq<char>| d == #[trigger] join(b, app_dir_name());
            assert(p@ == join(join(b, app_dir_name()), "presets"@));
        }
    }
    r
}

/// The directory under which temporary work files go.
pub fn temp_root() -> (r: Result<String, Error>)
    ensures
        match r {
            Ok(p) => in_app_dir(p@, "tmp"@),
            Err(e) => error_view(e) == (no_cache_message(), None::<Seq<char>>),
        },
{
    let r = inside(cache_dir(), "tmp");
    let ghost gr = r;
    proof {
        if let Ok(p) = gr {
            let d = choose|d: Seq<char>| p@ == join(d, "tmp"@) && exists|b: Seq<char>| d == #[trigger] join(b, app_dir_name());
            let b = choose|b: Seq<char>| d == #[trigger] join(b, app_dir_name());
            assert(p@ == join(join(b, app_dir_name()), "tmp"@));
        }
    }
    r
}

/// The default output directory for a base directory: "Shadow Batch" inside it.
pub open spec fn output_dir_in(base: Seq<char>) -> Seq<char> {
    join(base, "Shadow Batch"@)
}

/// The base of the default output directory: the download directory, else the
/// home directory, else the current directory.
pub open spec fn output_base(download: Option<String>, home: Option<String>) -> Seq<char> {
    match download {
        Some(d) => d@,
        None => match home {
            Some(h) => h@,
            None => "."@,
        },
    }
}

/// The default output directory, given the user's download and home directories.
pub fn default_output_dir_in(download: Option<String>, home: Option<String>) -> (r: String)
    ensures
        r@ == output_dir_in(output_base(download, home)),
{
    let base = match download {
        Some(d) => d,
        None => match home {
            Some(h) => h,
            None => String::from_str("."),
        },
    };
    join_path(base.as_str(), "Shadow Batch")
}

} // verus!

verus! {

/// The application identifier.
pub const APP_ID: &'static str = "com.shadowfetch.BatchProcessor";

/// The application's display name.
pub const APP_NAME: &'static str = "Shadow Batch Processor";

/// The application's icon name.
pub const APP_ICON: &'static str = "shadow-batch-processor";

/// The project's home page.
pub const APP_WEBSITE: &'static str = "https://github.com/Shadowfetchapps/Shadow-Batch-Processor";

} // verus!

verus! {

// ---------------------------------------------------------------------------
// Facts about names without separators and dots.
// ---------------------------------------------------------------------------

/// After a separator, a text without separators is the last component.
pub proof fn lemma_name_start_after_sep(a: Seq<char>, b: Seq<char>)
    requires
        a.len() > 0,
        a.last() == '/',
        forall|i: int| 0 <= i < b.len() ==> b[i] != '/',
    ensures
        name_start(a + b) == a.len(),
    decreases b.len(),
{
    if b.len() == 0 {
        assert(a + b =~= a);
    } else {
        assert((a + b).drop_last() =~= a + b.drop_last());
        lemma_name_start_after_sep(a, b.drop_last());
    }
}

/// A text without separators has its name starting at 0.
pub proof fn lemma_name_start_none(b: Seq<char>)
    requires
        forall|i: int| 0 <= i < b.len() ==> b[i] != '/',
    ensures
        name_start(b) == 0,
    decreases b.len(),
{
    if b.len() > 0 {
        lemma_name_start_none(b.drop_last());
    }
}

/// A text without dots has no last dot.
pub proof fn lemma_no_dot(b: Seq<char>)
    requires
        forall|i: int| 0 <= i < b.len() ==> b[i] != '.',
    ensures
        last_dot(b) == -1,
    decreases b.len(),
{
    if b.len() > 0 {
        lemma_no_dot(b.drop_last());
    }
}

/// The text `"."` followed by `e`, or nothing when `e` is empty.
pub open spec fn dotted(e: Seq<char>) -> Seq<char> {
    if e.len() == 0 {
        Seq::empty()
    } else {
        seq!['.'] + e
    }
}

/// Giving an extension to a plain name joined to a directory appends the
/// extension: the name is its own stem.
pub proof fn lemma_plain_name_with_extension(dir: Seq<char>, name: Seq<char>, e: Seq<char>)
    requires
        name.len() > 0,
        name[0] != '/',
        name.last() != '.',
        forall|i: int| 0 <= i < name.len() ==> name[i] != '/' && name[i] != '.',
    ensures
        with_extension(join(dir, name), e) == join(dir, name) + dotted(e),
{
    let p = join(dir, name);
    assert(p.last() == name.last());
    assert(trim_tail(p) == p);
    if dir.len() == 0 {
        assert(p == name);
        lemma_name_start_none(name);
    } else if dir.last() == '/' {
        lemma_name_start_after_sep(dir, name);
    } else {
        assert(p == (dir + seq!['/']) + name);
        lemma_name_start_after_sep(dir + seq!['/'], name);
    }
    let ns = name_start(p);
    assert(p.skip(ns as int) =~= name);
    assert(p.take(ns as int) + name =~= p);
    lemma_no_dot(name);
    assert(!is_dot_dot(name));
    assert(file_name_of(p) == Some(name));
    assert(stem_of(name) == name);
}

} // verus!
