//! The two matchers, the selection that both are built on, and what holds of
//! every result.

use vstd::prelude::*;
use crate::text::{
    contains, lemma_empty_occurs, lines_of, lowercase_of, occurs_in, split_lines, to_lowercase,
};
use crate::config::Config;

verus! {

/// A match as the contracts see it: the zero-based position of a line and the
/// line's text.
pub type Match = (int, Seq<char>);

/// The matches among the first `n` lines: line `i` is reported, with its own
/// text, exactly if `keys[i]` contains `needle`.
pub open spec fn select_upto(
    lines: Seq<Seq<char>>,
    keys: Seq<Seq<char>>,
    needle: Seq<char>,
    n: nat,
) -> Seq<Match>
    decreases n,
{
    if n == 0 {
        Seq::empty()
    } else {
        let before = select_upto(lines, keys, needle, (n - 1) as nat);
        if occurs_in(needle, keys[n - 1]) {
            before.push((n - 1, lines[n - 1]))
        } else {
            before
        }
    }
}

/// The number of lines that have a key.
pub open spec fn keyed_len(lines: Seq<Seq<char>>, keys: Seq<Seq<char>>) -> nat {
    if lines.len() <= keys.len() {
        lines.len()
    } else {
        keys.len()
    }
}

/// The matches among all lines that have a key.
pub open spec fn select(lines: Seq<Seq<char>>, keys: Seq<Seq<char>>, needle: Seq<char>) -> Seq<
    Match,
> {
    select_upto(lines, keys, needle, keyed_len(lines, keys))
}

/// Every line lowered.
pub open spec fn lowered(lines: Seq<Seq<char>>) -> Seq<Seq<char>> {
    Seq::new(lines.len(), |i: int| lowercase_of(lines[i]))
}

/// Every line paired with its position.
pub open spec fn numbered(lines: Seq<Seq<char>>) -> Seq<Match> {
    Seq::new(lines.len(), |i: int| (i, lines[i]))
}

/// What a case-sensitive search for `query` in `contents` reports.
pub open spec fn exact_matches(query: Seq<char>, contents: Seq<char>) -> Seq<Match> {
    select(lines_of(contents), lines_of(contents), query)
}

/// What a search that ignores case reports: line and query are compared in
/// their lowercase forms, the line is reported as it stands.
pub open spec fn folded_matches(query: Seq<char>, contents: Seq<char>) -> Seq<Match> {
    select(lines_of(contents), lowered(lines_of(contents)), lowercase_of(query))
}

/// The text of each slice.
pub open spec fn texts_of(slices: Seq<&str>) -> Seq<Seq<char>> {
    Seq::new(slices.len(), |i: int| slices[i]@)
}

/// A result as the contracts see it.
pub open spec fn pairs_of(found: Seq<(usize, &str)>) -> Seq<Match> {
    Seq::new(found.len(), |i: int| (found[i].0 as int, found[i].1@))
}

/// The positions in `found` rise strictly and lie below `count`.
pub open spec fn ordered_below(found: Seq<Match>, count: int) -> bool {
    &&& forall|j: int| 0 <= j < found.len() ==> 0 <= (#[trigger] found[j]).0 < count
    &&& forall|j: int, k: int| 0 <= j < k < found.len() ==> (#[trigger] found[j]).0 < (#[trigger] found[k]).0
}

/// `found` reports nothing but lines whose key contains `needle`, each with
/// its own text.
pub open spec fn sound(
    found: Seq<Match>,
    lines: Seq<Seq<char>>,
    keys: Seq<Seq<char>>,
    needle: Seq<char>,
) -> bool {
    forall|j: int|
        0 <= j < found.len() ==> {
            let at = (#[trigger] found[j]).0;
            &&& 0 <= at < keyed_len(lines, keys)
            &&& found[j].1 == lines[at]
            &&& occurs_in(needle, keys[at])
        }
}

/// `found` reports every line whose key contains `needle`.
pub open spec fn complete(
    found: Seq<Match>,
    lines: Seq<Seq<char>>,
    keys: Seq<Seq<char>>,
    needle: Seq<char>,
) -> bool {
    forall|at: int|
        0 <= at < keyed_len(lines, keys) && occurs_in(needle, #[trigger] keys[at])
            ==> found.contains((at, lines[at]))
}

/// Line `at` is the one line of `lines` that contains `query`.
pub open spec fn only_match(lines: Seq<Seq<char>>, query: Seq<char>, at: int) -> bool {
    &&& 0 <= at < lines.len()
    &&& forall|i: int| 0 <= i < lines.len() ==> (occurs_in(query, #[trigger] lines[i]) <==> i == at)
}

proof fn lemma_select_upto(lines: Seq<Seq<char>>, keys: Seq<Seq<char>>, needle: Seq<char>, n: nat)
    requires
        n <= keyed_len(lines, keys),
    ensures
        ordered_below(select_upto(lines, keys, needle, n), n as int),
        sound(select_upto(lines, keys, needle, n), lines, keys, needle),
        forall|at: int|
            0 <= at < n && occurs_in(needle, #[trigger] keys[at]) ==> select_upto(
                lines,
                keys,
                needle,
                n,
            ).contains((at, lines[at])),
    decreases n,
{
    if n > 0 {
        let before = select_upto(lines, keys, needle, (n - 1) as nat);
        let now = select_upto(lines, keys, needle, n);
        lemma_select_upto(lines, keys, needle, (n - 1) as nat);
        assert forall|at: int| 0 <= at < n && occurs_in(needle, #[trigger] keys[at]) implies now.contains(
            (at, lines[at]),
        ) by {
            if at < n - 1 {
                let j = choose|j: int| 0 <= j < before.len() && before[j] == (at, lines[at]);
                assert(now[j] == (at, lines[at]));
            } else {
                assert(now[now.len() - 1] == (at, lines[at]));
            }
        }
    }
}

/// In every selection the positions rise strictly and lie below the number of
/// lines, each reported text is the line at its position, the key of each
/// reported line contains the needle, and no such line is left out.
pub proof fn lemma_select_exact(lines: Seq<Seq<char>>, keys: Seq<Seq<char>>, needle: Seq<char>)
    ensures
        ordered_below(select(lines, keys, needle), lines.len() as int),
        sound(select(lines, keys, needle), lines, keys, needle),
        complete(select(lines, keys, needle), lines, keys, needle),
{
    lemma_select_upto(lines, keys, needle, keyed_len(lines, keys));
}

proof fn lemma_select_all(lines: Seq<Seq<char>>, keys: Seq<Seq<char>>, needle: Seq<char>, n: nat)
    requires
        n <= keyed_len(lines, keys),
        forall|i: int| 0 <= i < n ==> occurs_in(needle, #[trigger] keys[i]),
    ensures
        select_upto(lines, keys, needle, n) == numbered(lines).take(n as int),
    decreases n,
{
    if n > 0 {
        lemma_select_all(lines, keys, needle, (n - 1) as nat);
        assert(numbered(lines).take(n as int) =~= numbered(lines).take(n - 1).push(
            (n - 1, lines[n - 1]),
        ));
    } else {
        assert(numbered(lines).take(0) =~= Seq::<Match>::empty());
    }
}

proof fn lemma_select_one(lines: Seq<Seq<char>>, keys: Seq<Seq<char>>, needle: Seq<char>, at: int, n: nat)
    requires
        n <= keyed_len(lines, keys),
        0 <= at < keyed_len(lines, keys),
        forall|i: int| 0 <= i < n ==> (occurs_in(needle, #[trigger] keys[i]) <==> i == at),
    ensures
        select_upto(lines, keys, needle, n) == if at < n {
            seq![(at, lines[at])]
        } else {
            Seq::<Match>::empty()
        },
    decreases n,
{
    if n > 0 {
        lemma_select_one(lines, keys, needle, at, (n - 1) as nat);
        if at == n - 1 {
            assert(Seq::<Match>::empty().push((at, lines[at])) =~= seq![(at, lines[at])]);
        }
    }
}

/// For every text, the index sequence of a case-sensitive search rises
/// strictly and stays below the number of lines; each reported text is the
/// line at that index, and the reported lines are exactly those that contain
/// the query.
pub proof fn lemma_exact_matches(query: Seq<char>, contents: Seq<char>)
    ensures
        ordered_below(exact_matches(query, contents), lines_of(contents).len() as int),
        sound(exact_matches(query, contents), lines_of(contents), lines_of(contents), query),
        complete(exact_matches(query, contents), lines_of(contents), lines_of(contents), query),
{
    lemma_select_exact(lines_of(contents), lines_of(contents), query);
}

/// For every text, the index sequence of a search that ignores case rises
/// strictly and stays below the number of lines; each reported text is the
/// original line at that index, and the reported lines are exactly those whose
/// lowercase form contains the lowercase form of the query.
pub proof fn lemma_folded_matches(query: Seq<char>, contents: Seq<char>)
    ensures
        ordered_below(folded_matches(query, contents), lines_of(contents).len() as int),
        sound(
            folded_matches(query, contents),
            lines_of(contents),
            lowered(lines_of(contents)),
            lowercase_of(query),
        ),
        complete(
            folded_matches(query, contents),
            lines_of(contents),
            lowered(lines_of(contents)),
            lowercase_of(query),
        ),
{
    lemma_select_exact(lines_of(contents), lowered(lines_of(contents)), lowercase_of(query));
}

/// A case-sensitive search for the empty query reports every line of the
/// text, each with its index.
pub proof fn lemma_empty_query_matches_all(contents: Seq<char>)
    ensures
        exact_matches(Seq::empty(), contents) == numbered(lines_of(contents)),
{
    let lines = lines_of(contents);
    assert forall|i: int| 0 <= i < lines.len() implies occurs_in(Seq::empty(), #[trigger] lines[i]) by {
        lemma_empty_occurs(lines[i]);
    }
    lemma_select_all(lines, lines, Seq::empty(), lines.len());
    assert(numbered(lines).take(lines.len() as int) =~= numbered(lines));
}

/// Where the query occurs in exactly one line of the text, a case-sensitive
/// search reports that line alone, with its index and its full text.
pub proof fn lemma_single_match(query: Seq<char>, contents: Seq<char>, at: int)
    requires
        only_match(lines_of(contents), query, at),
    ensures
        exact_matches(query, contents) == seq![(at, lines_of(contents)[at])],
{
    let lines = lines_of(contents);
    lemma_select_one(lines, lines, query, at, lines.len());
}

/// Pairs each line whose key contains `needle` with the line's position, in
/// the order of the lines. `keys[i]` is the text that line `i` is compared by;
/// a line without a key is not reported.
pub fn select_lines<'a>(needle: &str, lines: &Vec<&'a str>, keys: &Vec<&str>) -> (found: Vec<
    (usize, &'a str),
>)
    ensures
        pairs_of(found@) == select(texts_of(lines@), texts_of(keys@), needle@),
{
    let count: usize = if lines.len() <= keys.len() {
        lines.len()
    } else {
        keys.len()
    };
    let mut found: Vec<(usize, &'a str)> = Vec::new();
    let mut i: usize = 0;
    assert(pairs_of(found@) =~= Seq::<Match>::empty());
    while i < count
        invariant
            i <= count,
            count == keyed_len(texts_of(lines@), texts_of(keys@)),
            pairs_of(found@) == select_upto(texts_of(lines@), texts_of(keys@), needle@, i as nat),
        decreases count - i,
    {
        if contains(keys[i], needle) {
            let ghost before = found@;
            found.push((i, lines[i]));
            assert(pairs_of(found@) =~= pairs_of(before).push((i as int, lines@[i as int]@)));
        }
        i += 1;
    }
    found
}

/// Reports the lines of `contents` that contain `query`, each with its
/// zero-based index, in the order of the text. The comparison is exact.
pub fn search<'a>(query: &'a str, contents: &'a str) -> (found: Vec<(usize, &'a str)>)
    ensures
        pairs_of(found@) == exact_matches(query@, contents@),
        ordered_below(pairs_of(found@), lines_of(contents@).len() as int),
        sound(pairs_of(found@), lines_of(contents@), lines_of(contents@), query@),
        complete(pairs_of(found@), lines_of(contents@), lines_of(contents@), query@),
        query@.len() == 0 ==> pairs_of(found@) == numbered(lines_of(contents@)),
        forall|at: int| #[trigger]
            only_match(lines_of(contents@), query@, at) ==> pairs_of(found@) == seq![
                (at, lines_of(contents@)[at]),
            ],
{
    let lines = split_lines(contents);
    let found = select_lines(query, &lines, &lines);
    proof {
        assert(texts_of(lines@) =~= lines_of(contents@));
        lemma_exact_matches(query@, contents@);
        if query@.len() == 0 {
            assert(query@ =~= Seq::<char>::empty());
            lemma_empty_query_matches_all(contents@);
        }
        assert forall|at: int| #[trigger]
            only_match(lines_of(contents@), query@, at) implies pairs_of(found@) == seq![
            (at, lines_of(contents@)[at]),
        ] by {
            lemma_single_match(query@, contents@, at);
        }
    }
    found
}

/// Reports the lines of `contents` whose lowercase form contains the lowercase
/// form of `query`, each as it stands in the text and with its zero-based
/// index, in the order of the text.
pub fn search_case_insensitive<'a>(query: &'a str, contents: &'a str) -> (found: Vec<
    (usize, &'a str),
>)
    ensures
        pairs_of(found@) == folded_matches(query@, contents@),
        ordered_below(pairs_of(found@), lines_of(contents@).len() as int),
        sound(
            pairs_of(found@),
            lines_of(contents@),
            lowered(lines_of(contents@)),
            lowercase_of(query@),
        ),
        complete(
            pairs_of(found@),
            lines_of(contents@),
            lowered(lines_of(contents@)),
            lowercase_of(query@),
        ),
{
    let lines = split_lines(contents);
    let needle = to_lowercase(query);
    let mut folded: Vec<String> = Vec::new();
    let mut i: usize = 0;
    while i < lines.len()
        invariant
            i <= lines@.len(),
            folded@.len() == i,
            forall|j: int| 0 <= j < i ==> (#[trigger] folded@[j])@ == lowercase_of(lines@[j]@),
        decreases lines@.len() - i,
    {
        folded.push(to_lowercase(lines[i]));
        i += 1;
    }
    let mut keys: Vec<&str> = Vec::new();
    let mut k: usize = 0;
    while k < folded.len()
        invariant
            k <= folded@.len(),
            keys@.len() == k,
            forall|j: int| 0 <= j < k ==> (#[trigger] keys@[j])@ == folded@[j]@,
        decreases folded@.len() - k,
    {
        keys.push(folded[k].as_str());
        k += 1;
    }
    let found = select_lines(needle.as_str(), &lines, &keys);
    proof {
        assert(texts_of(lines@) =~= lines_of(contents@));
        assert(texts_of(keys@) =~= lowered(lines_of(contents@)));
        lemma_folded_matches(query@, contents@);
    }
    found
}

/// Searches `contents` as `config` asks: without regard to case where
/// `config.case_insensitive` is set, exactly where it is not.
pub fn run<'a>(config: &'a Config, contents: &'a str) -> (found: Vec<(usize, &'a str)>)
    ensures
        config.case_insensitive ==> pairs_of(found@) == folded_matches(config.query@, contents@),
        !config.case_insensitive ==> pairs_of(found@) == exact_matches(config.query@, contents@),
        ordered_below(pairs_of(found@), lines_of(contents@).len() as int),
{
    if config.case_insensitive {
        search_case_insensitive(config.query.as_str(), contents)
    } else {
        search(config.query.as_str(), contents)
    }
}

} // verus!
