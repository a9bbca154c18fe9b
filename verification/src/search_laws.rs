//! What a search finds.

use crate::patterns::{glob_matches, regex_matches};
use crate::search_tools::{found_paths, glob_report, GrepV};
use crate::sorting::{sorted_texts, text_le};
use crate::text::{dec, join, lines_from, trim};
use vstd::prelude::*;

verus! {

/// How many of the lines the pattern matches.
pub open spec fn matching(pattern: Seq<char>, lines: Seq<Seq<char>>) -> int
    decreases lines.len(),
{
    if lines.len() == 0 {
        0
    } else {
        matching(pattern, lines.drop_last()) + if regex_matches(pattern, lines.last()) {
            1int
        } else {
            0
        }
    }
}

/// `n`, or what a search brings at most.
pub open spec fn capped(n: int) -> int {
    if n < 1000 {
        n
    } else {
        1000
    }
}

/// Whether `h` holds what `g` holds and the hits among the lines of a file, in their order, as
/// long as fewer than 1000 results are held.
pub open spec fn holds_hits(g: GrepV, h: GrepV, path: Seq<char>, lines: Seq<Seq<char>>) -> bool {
    let had = g.results.len() as int;
    &&& h.pattern == g.pattern
    &&& h.root == g.root
    &&& h.results.len() == capped(had + matching(g.pattern, lines))
    &&& forall|i: int| 0 <= i < had ==> #[trigger] h.results[i] == g.results[i]
    &&& forall|k: int|
        0 <= k < lines.len() && regex_matches(g.pattern, #[trigger] lines[k]) && had + matching(
            g.pattern,
            lines.take(k),
        ) < 1000 ==> h.results[had + matching(g.pattern, lines.take(k))] == path + ":"@ + dec(k + 1)
            + ": "@ + trim(lines[k])
}

proof fn lemma_matching(pattern: Seq<char>, lines: Seq<Seq<char>>, k: int)
    requires
        0 <= k <= lines.len(),
    ensures
        0 <= matching(pattern, lines.take(k)) <= matching(pattern, lines),
        k < lines.len() && regex_matches(pattern, lines[k]) ==> matching(pattern, lines.take(k))
            < matching(pattern, lines),
    decreases lines.len(),
{
    if k < lines.len() {
        lemma_matching(pattern, lines.drop_last(), k);
        assert(lines.drop_last().take(k) =~= lines.take(k));
    } else {
        assert(lines.take(k) =~= lines);
        lemma_matching_positive(pattern, lines);
    }
}

proof fn lemma_matching_positive(pattern: Seq<char>, lines: Seq<Seq<char>>)
    ensures
        matching(pattern, lines) >= 0,
    decreases lines.len(),
{
    if lines.len() > 0 {
        lemma_matching_positive(pattern, lines.drop_last());
    }
}

proof fn lemma_lines_hit(g: GrepV, path: Seq<char>, lines: Seq<Seq<char>>, n: int)
    requires
        0 <= n <= lines.len(),
        g.results.len() <= 1000,
    ensures
        holds_hits(g, g.lines(path, lines, n), path, lines.take(n)),
    decreases n,
{
    let ls = lines.take(n);
    let h = g.lines(path, lines, n);
    let had = g.results.len() as int;
    if n > 0 {
        lemma_lines_hit(g, path, lines, n - 1);
        let ms = lines.take(n - 1);
        let f = g.lines(path, lines, n - 1);
        assert(ls.drop_last() =~= ms);
        lemma_matching_positive(g.pattern, ms);
        assert forall|k: int|
            0 <= k < ls.len() && regex_matches(g.pattern, #[trigger] ls[k]) && had + matching(
                g.pattern,
                ls.take(k),
            ) < 1000 implies h.results[had + matching(g.pattern, ls.take(k))] == path + ":"@ + dec(
            k + 1,
        ) + ": "@ + trim(ls[k]) by {
            lemma_matching(g.pattern, ls, k);
            if k < n - 1 {
                assert(ms[k] == ls[k]);
                assert(ms.take(k) =~= ls.take(k));
                lemma_matching(g.pattern, ms, k);
            } else {
                assert(ls.take(k) =~= ms);
            }
        }
    } else {
        assert(ls =~= Seq::empty());
    }
}

/// As long as fewer than 1000 results are held, every line of a file that the pattern matches
/// adds its own hit, with the path, the number of the line, from 1 on, and the line; what was
/// found before stays.
pub proof fn lemma_every_match_is_found(g: GrepV, path: Seq<char>, content: Seq<char>)
    requires
        g.results.len() <= 1000,
    ensures
        holds_hits(g, g.file(path, content), path, lines_from(content, 0)),
{
    let lines = lines_from(content, 0);
    lemma_lines_hit(g, path, lines, lines.len() as int);
    assert(lines.take(lines.len() as int) =~= lines);
}

/// A search for lines is answered with how many were found and each of them, in a line of its
/// own and in the order in which they were found.
pub proof fn lemma_hits_are_reported(g: GrepV)
    ensures
        g.results.len() == 0 ==> g.report() == "No matches found for pattern '"@ + g.pattern
            + "' in "@ + g.root,
        g.results.len() > 0 ==> g.report() == "Found "@ + dec(g.results.len() as int)
            + " match(es):\n"@ + join(g.results, "\n"@),
{
}

/// The files among the paths that the pattern matches, in their order.
pub open spec fn matched(pattern: Seq<char>, paths: Seq<Seq<char>>) -> Seq<Seq<char>> {
    paths.filter(|p: Seq<char>| glob_matches(pattern, p, true, true, false))
}

/// A search for files finds, of the paths that it is offered, the first 1000 that the pattern
/// matches.
pub proof fn lemma_files_are_found(pattern: Seq<char>, paths: Seq<Seq<char>>, n: int)
    requires
        0 <= n <= paths.len(),
    ensures
        found_paths(pattern, Seq::empty(), paths, n) == matched(pattern, paths.take(n)).take(
            capped(matched(pattern, paths.take(n)).len() as int),
        ),
    decreases n,
{
    let p = |p: Seq<char>| glob_matches(pattern, p, true, true, false);
    let now = matched(pattern, paths.take(n));
    reveal(Seq::filter);
    if n > 0 {
        lemma_files_are_found(pattern, paths, n - 1);
        let was = matched(pattern, paths.take(n - 1));
        assert(paths.take(n).drop_last() =~= paths.take(n - 1));
        assert(paths.take(n).last() == paths[n - 1]);
        assert(now == if p(paths[n - 1]) {
            was.push(paths[n - 1])
        } else {
            was
        });
        assert(found_paths(pattern, Seq::empty(), paths, n) =~= now.take(capped(now.len() as int)));
    } else {
        assert(now.take(capped(now.len() as int)) =~= Seq::empty());
    }
}

/// A search for files is answered with how many were found and each of them, in a line of its
/// own and in the order of their names.
pub proof fn lemma_files_are_reported(pattern: Seq<char>, root: Seq<char>, found: Seq<Seq<char>>)
    requires
        found.len() > 0,
    ensures
        exists|s: Seq<Seq<char>>| #[trigger]
            s.to_multiset() == found.to_multiset() && (forall|i: int, j: int|
                0 <= i < j < s.len() ==> text_le(s[i], s[j])) && glob_report(pattern, root, found)
                == "Found "@ + dec(found.len() as int) + " file(s) matching '"@ + pattern
                + "':\n"@ + join(s, "\n"@),
{
    let key = crate::sorting::itself();
    crate::sorting::lemma_sorted_by(found, key, found.len() as int);
    assert(found.take(found.len() as int) =~= found);
    let s = sorted_texts(found);
    assert(s.to_multiset() == found.to_multiset());
    assert forall|i: int, j: int| 0 <= i < j < s.len() implies text_le(s[i], s[j]) by {
        assert(text_le(key(s[i]), key(s[j])));
    }
}

} // verus!
