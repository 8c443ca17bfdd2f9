use vstd::prelude::*;
use vstd::string::*;

use crate::error::Error;
use crate::text::{decimal, push_decimal, same_text, texts};

verus! {

/// What the file system said about one dropped or chosen path.
#[derive(Debug, Clone)]
pub struct PathFacts {
    /// The path as it was given.
    pub path: String,
    /// The canonical form of the path, or the path itself when it has none.
    pub resolved: String,
    /// The resolved path is a directory.
    pub is_dir: bool,
    /// The size of the resolved file, or `None` when its metadata could not be read.
    pub size: Option<u64>,
}

/// The outcome of adding paths: the files taken, and the paths left out with
/// the reason for each.
#[derive(Debug, Clone)]
pub struct AddResult {
    pub added: Vec<String>,
    pub skipped: Vec<(String, String)>,
}

pub open spec fn folder_reason() -> Seq<char> {
    "Folders are skipped. Add the files inside them."@
}

pub open spec fn unreadable_reason() -> Seq<char> {
    "Could not read this file."@
}

pub open spec fn empty_reason() -> Seq<char> {
    "Empty (0-byte) files are skipped."@
}

/// Whether a path is taken, as its resolved form, or skipped, with a reason.
pub open spec fn classification(f: PathFacts) -> Result<Seq<char>, Seq<char>> {
    if f.is_dir {
        Err(folder_reason())
    } else {
        match f.size {
            None => Err(unreadable_reason()),
            Some(n) => if n == 0 {
                Err(empty_reason())
            } else {
                Ok(f.resolved@)
            },
        }
    }
}

pub open spec fn pairs(v: Seq<(String, String)>) -> Seq<(Seq<char>, Seq<char>)> {
    v.map_values(|p: (String, String)| (p.0@, p.1@))
}

/// The (added, skipped) lists after the paths `fs`, in order: a taken path is
/// added unless it is there already; a skipped one is listed with its reason.
pub open spec fn collected(fs: Seq<PathFacts>) -> (Seq<Seq<char>>, Seq<(Seq<char>, Seq<char>)>)
    decreases fs.len(),
{
    if fs.len() == 0 {
        (Seq::empty(), Seq::empty())
    } else {
        let (a, s) = collected(fs.drop_last());
        match classification(fs.last()) {
            Ok(p) => (
                if a.contains(p) {
                    a
                } else {
                    a.push(p)
                },
                s,
            ),
            Err(reason) => (a, s.push((fs.last().path@, reason))),
        }
    }
}

/// Decides whether one path is taken.
pub fn classify_add(facts: &PathFacts) -> (r: Result<String, String>)
    ensures
        match (r, classification(*facts)) {
            (Ok(a), Ok(b)) => a@ == b,
            (Err(a), Err(b)) => a@ == b,
            _ => false,
        },
{
    if facts.is_dir {
        return Err(String::from_str("Folders are skipped. Add the files inside them."));
    }
    match facts.size {
        None => Err(String::from_str("Could not read this file.")),
        Some(n) => if n == 0 {
            Err(String::from_str("Empty (0-byte) files are skipped."))
        } else {
            Ok(facts.resolved.clone())
        },
    }
}

/// Whether `v` holds a string equal to `s`.
fn contains_text(v: &Vec<String>, s: &String) -> (r: bool)
    ensures
        r == texts(v@).contains(s@),
{
    let mut i: usize = 0;
    while i < v.len()
        invariant
            i <= v@.len(),
            forall|k: int| 0 <= k < i ==> v@[k]@ != s@,
        decreases v@.len() - i,
    {
        if same_text(v[i].as_str(), s.as_str()) {
            assert(texts(v@)[i as int] == s@);
            return true;
        }
        i = i + 1;
    }
    proof {
        if texts(v@).contains(s@) {
            let k = choose|k: int| 0 <= k < texts(v@).len() && texts(v@)[k] == s@;
            assert(v@[k]@ == s@);
        }
    }
    false
}

/// Sorts dropped paths into files to add (each once) and paths to skip.
pub fn collect_paths(facts: Vec<PathFacts>) -> (r: AddResult)
    ensures
        (texts(r.added@), pairs(r.skipped@)) == collected(facts@),
{
    let mut added: Vec<String> = Vec::new();
    let mut skipped: Vec<(String, String)> = Vec::new();
    let n = facts.len();
    let mut i: usize = 0;
    while i < n
        invariant
            n == facts@.len(),
            i <= n,
            (texts(added@), pairs(skipped@)) == collected(facts@.take(i as int)),
        decreases n - i,
    {
        let f = &facts[i];
        assert(facts@.take(i + 1).drop_last() == facts@.take(i as int));
        assert(facts@.take(i + 1).last() == facts@[i as int]);
        match classify_add(f) {
            Ok(p) => {
                if !contains_text(&added, &p) {
                    added.push(p);
                    assert(texts(added@) =~= texts(added@.drop_last()).push(p@));
                }
            },
            Err(reason) => {
                let path = f.path.clone();
                skipped.push((path, reason));
                assert(pairs(skipped@) =~= pairs(skipped@.drop_last()).push((f.path@, reason@)));
            },
        }
        i = i + 1;
    }
    assert(facts@.take(n as int) == facts@);
    AddResult { added, skipped }
}

/// The lines "• path — reason" for the skipped paths `s`.
pub open spec fn human_lines(s: Seq<(Seq<char>, Seq<char>)>) -> Seq<char>
    decreases s.len(),
{
    if s.len() == 0 {
        Seq::empty()
    } else {
        human_lines(s.drop_last()) + "• "@ + s.last().0 + " — "@ + s.last().1 + "\n"@
    }
}

/// The lines "path: reason" for the skipped paths `s`.
pub open spec fn technical_lines(s: Seq<(Seq<char>, Seq<char>)>) -> Seq<char>
    decreases s.len(),
{
    if s.len() == 0 {
        Seq::empty()
    } else {
        technical_lines(s.drop_last()) + s.last().0 + ": "@ + s.last().1 + "\n"@
    }
}

/// The most skipped paths that are listed one by one.
pub open spec fn listed_skips() -> nat {
    8
}

/// The message and details that explain the skipped paths `s`, when there are any.
pub open spec fn skip_explanation(s: Seq<(Seq<char>, Seq<char>)>) -> Option<(Seq<char>, Seq<char>)> {
    if s.len() == 0 {
        None
    } else {
        let shown = if s.len() > listed_skips() {
            s.take(listed_skips() as int)
        } else {
            s
        };
        Some(
            (
                "Some items were not added:\n"@ + human_lines(shown) + (if s.len() > listed_skips() {
                    "…and "@ + decimal((s.len() - listed_skips()) as nat) + " more.\n"@
                } else {
                    Seq::empty()
                }),
                technical_lines(shown),
            ),
        )
    }
}

/// An error that lists the skipped paths (the first eight of them), or `None`
/// when nothing was skipped.
pub fn explain_skips(result: &AddResult) -> (r: Option<Error>)
    ensures
        match (r, skip_explanation(pairs(result.skipped@))) {
            (Some(e), Some((h, t))) => e.human@ == h && (e.technical matches Some(d) && d@ == t),
            (None, None) => true,
            _ => false,
        },
{
    let n = result.skipped.len();
    if n == 0 {
        return None;
    }
    let ghost all = pairs(result.skipped@);
    let shown: usize = if n > 8 {
        8
    } else {
        n
    };
    let mut human = String::from_str("Some items were not added:\n");
    let ghost head = human@;
    let mut tech = String::new();
    let mut i: usize = 0;
    while i < shown
        invariant
            n == result.skipped@.len(),
            all == pairs(result.skipped@),
            shown <= n,
            i <= shown,
            human@ == head + human_lines(all.take(i as int)),
            tech@ == technical_lines(all.take(i as int)),
        decreases shown - i,
    {
        let (path, reason) = &result.skipped[i];
        assert(all.take(i + 1).drop_last() == all.take(i as int));
        assert(all.take(i + 1).last() == (path@, reason@));
        human.append("• ");
        human.append(path.as_str());
        human.append(" — ");
        human.append(reason.as_str());
        human.append("\n");
        tech.append(path.as_str());
        tech.append(": ");
        tech.append(reason.as_str());
        tech.append("\n");
        i = i + 1;
        assert(human@ =~= head + human_lines(all.take(i as int)));
        assert(tech@ =~= technical_lines(all.take(i as int)));
    }
    let ghost listed = human@;
    if n > 8 {
        human.append("…and ");
        push_decimal(&mut human, (n - 8) as u64);
        human.append(" more.\n");
        assert(human@ =~= listed + ("…and "@ + decimal((n - 8) as nat) + " more.\n"@));
    } else {
        assert(all.take(n as int) == all);
        assert(human@ =~= listed + Seq::<char>::empty());
    }
    Some(Error::detailed(human, tech))
}

// ---------------------------------------------------------------------------
// What adding paths keeps.
// ---------------------------------------------------------------------------

/// A file is never added twice: the added list has no repeated path.
pub proof fn added_paths_are_distinct(fs: Seq<PathFacts>)
    ensures
        collected(fs).0.no_duplicates(),
    decreases fs.len(),
{
    if fs.len() > 0 {
        added_paths_are_distinct(fs.drop_last());
    }
}

/// Every path is accounted for at most once: added and skipped together are
/// no more than the paths given, and each skipped path gets exactly one entry.
pub proof fn every_path_accounted(fs: Seq<PathFacts>)
    ensures
        collected(fs).0.len() + collected(fs).1.len() <= fs.len(),
        collected(fs).1.len() == fs.filter(|f: PathFacts| classification(f) is Err).len(),
    decreases fs.len(),
{
    reveal_with_fuel(Seq::filter, 1);
    if fs.len() > 0 {
        every_path_accounted(fs.drop_last());
    }
}

/// Each added path is the resolved form of a given path that was taken, and
/// each such path is added.
pub proof fn added_are_taken_paths(fs: Seq<PathFacts>)
    ensures
        forall|p: Seq<char>|
            collected(fs).0.contains(p) <==> exists|i: int|
                0 <= i < fs.len() && #[trigger] classification(fs[i]) == Ok::<Seq<char>, Seq<char>>(p),
    decreases fs.len(),
{
    if fs.len() > 0 {
        let init = fs.drop_last();
        added_are_taken_paths(init);
        assert forall|p: Seq<char>|
            collected(fs).0.contains(p) <==> exists|i: int|
                0 <= i < fs.len() && #[trigger] classification(fs[i]) == Ok::<Seq<char>, Seq<char>>(p) by {
            if collected(fs).0.contains(p) {
                if collected(init).0.contains(p) {
                    let i = choose|i: int|
                        0 <= i < init.len() && #[trigger] classification(init[i]) == Ok::<Seq<char>, Seq<char>>(p);
                    assert(fs[i] == init[i]);
                    assert(classification(fs[i]) == Ok::<Seq<char>, Seq<char>>(p));
                } else {
                    let a = collected(init).0;
                    let q = classification(fs.last());
                    assert(q is Ok);
                    let qv = q->Ok_0;
                    assert(!a.contains(qv));
                    assert(collected(fs).0 == a.push(qv));
                    let k = choose|k: int| 0 <= k < a.push(qv).len() && a.push(qv)[k] == p;
                    if k < a.len() {
                        assert(a[k] == p);
                    }
                    assert(p == qv);
                    assert(classification(fs[fs.len() - 1]) == Ok::<Seq<char>, Seq<char>>(p));
                }
            }
            if exists|i: int|
                0 <= i < fs.len() && #[trigger] classification(fs[i]) == Ok::<Seq<char>, Seq<char>>(p) {
                let i = choose|i: int|
                    0 <= i < fs.len() && #[trigger] classification(fs[i]) == Ok::<Seq<char>, Seq<char>>(p);
                let a = collected(init).0;
                if i < fs.len() - 1 {
                    assert(init[i] == fs[i]);
                    assert(a.contains(p));
                    let k = choose|k: int| 0 <= k < a.len() && a[k] == p;
                    match classification(fs.last()) {
                        Ok(q) => {
                            if !a.contains(q) {
                                assert(a.push(q)[k] == p);
                            }
                        },
                        Err(_) => {},
                    }
                } else {
                    if !a.contains(p) {
                        assert(a.push(p)[a.len() as int] == p);
                    }
                }
                assert(collected(fs).0.contains(p));
            }
        }
    }
}

} // verus!

verus! {

/// Adding paths has nothing to explain exactly when every path was taken.
pub proof fn nothing_to_explain_iff_all_taken(fs: Seq<PathFacts>)
    ensures
        skip_explanation(collected(fs).1) is None <==> forall|i: int|
            0 <= i < fs.len() ==> #[trigger] classification(fs[i]) is Ok,
    decreases fs.len(),
{
    if fs.len() > 0 {
        let init = fs.drop_last();
        nothing_to_explain_iff_all_taken(init);
        assert forall|i: int| 0 <= i < init.len() implies #[trigger] init[i] == fs[i] by {}
        if forall|i: int| 0 <= i < fs.len() ==> #[trigger] classification(fs[i]) is Ok {
            assert(classification(fs[fs.len() - 1]) is Ok);
            assert forall|i: int| 0 <= i < init.len() implies #[trigger] classification(init[i]) is Ok by {
                assert(classification(fs[i]) is Ok);
            }
        } else {
            let k = choose|k: int| 0 <= k < fs.len() && !(#[trigger] classification(fs[k]) is Ok);
            if k < fs.len() - 1 {
                assert(!(classification(init[k]) is Ok));
            }
        }
    }
}

} // verus!
