use vstd::prelude::*;

use crate::watch::{all_reconcilable, recalculated, Watch, WatchError, WatchView};

verus! {

/// Whether a name query compiles as a case-insensitive regular expression.
pub uninterp spec fn pattern_compiles(pattern: Seq<char>) -> bool;

/// Whether a case-insensitive regular expression finds a match in `haystack`.
pub uninterp spec fn pattern_matches(pattern: Seq<char>, haystack: Seq<char>) -> bool;

#[verifier::external_type_specification]
#[verifier::external_body]
pub struct ExRegex(regex::Regex);

#[verifier::external_type_specification]
#[verifier::external_body]
pub struct ExRegexError(regex::Error);

/// Relies on regex::RegexBuilder::new, case_insensitive(true) and build: the
/// pattern compiles or not by its text alone.
#[verifier::external_body]
fn build_case_insensitive(pattern: &str) -> (r: Result<regex::Regex, regex::Error>)
    ensures
        r is Ok <==> pattern_compiles(pattern@),
{
    regex::RegexBuilder::new(pattern).case_insensitive(true).build()
}

/// A compiled, case-insensitive query on watch names.
pub struct NameQuery {
    pattern: String,
    regex: regex::Regex,
}

/// Relies on regex::Regex::is_match, on the regex that NameQuery::new built
/// from the query's pattern with case_insensitive(true).
#[verifier::external_body]
fn regex_is_match(query: &NameQuery, haystack: &str) -> (r: bool)
    ensures
        r == pattern_matches(query.pattern@, haystack@),
{
    query.regex.is_match(haystack)
}

impl NameQuery {
    /// The text that the query was compiled from.
    pub closed spec fn pattern(&self) -> Seq<char> {
        self.pattern@
    }

    /// Compiles `pattern`; refused where it is not a valid expression.
    pub fn new(pattern: &str) -> (r: Result<NameQuery, WatchError>)
        ensures
            r is Ok <==> pattern_compiles(pattern@),
            r is Ok ==> r->Ok_0.pattern() == pattern@,
            r is Err ==> r == Err::<NameQuery, WatchError>(WatchError::InvalidPattern),
    {
        match build_case_insensitive(pattern) {
            Ok(regex) => Ok(NameQuery { pattern: pattern.to_owned(), regex }),
            Err(_) => Err(WatchError::InvalidPattern),
        }
    }

    /// Whether the query finds a match in `name`.
    pub fn is_match(&self, name: &str) -> (r: bool)
        ensures
            r == pattern_matches(self.pattern(), name@),
    {
        regex_is_match(self, name)
    }
}

/// The views of a collection of watches.
pub open spec fn views(watches: Seq<Watch>) -> Seq<WatchView> {
    watches.map_values(|w: Watch| w@)
}

/// The position of the first watch named `name`; the length where none is.
pub open spec fn first_named(watches: Seq<WatchView>, name: Seq<char>) -> int
    decreases watches.len(),
{
    if watches.len() == 0 {
        0
    } else if watches[0].name == name {
        0
    } else {
        1 + first_named(watches.drop_first(), name)
    }
}

/// The collection after `w` is saved into it: it replaces the first watch of
/// the same name, in place, or is appended where none has that name.
pub open spec fn saved(watches: Seq<WatchView>, w: WatchView) -> Seq<WatchView> {
    let i = first_named(watches, w.name);
    if i < watches.len() {
        watches.update(i, w)
    } else {
        watches.push(w)
    }
}

/// The collection after each of `ws` is saved into it, in order.
pub open spec fn saved_all(watches: Seq<WatchView>, ws: Seq<WatchView>) -> Seq<WatchView>
    decreases ws.len(),
{
    if ws.len() == 0 {
        watches
    } else {
        saved(saved_all(watches, ws.drop_last()), ws.last())
    }
}

/// No two watches share a name.
pub open spec fn names_distinct(watches: Seq<WatchView>) -> bool {
    forall|i: int, j: int|
        0 <= i < j < watches.len() ==> #[trigger] watches[i].name != #[trigger] watches[j].name
}

/// The watches whose name the query matches, in the order of the collection.
pub open spec fn matching(watches: Seq<WatchView>, pattern: Seq<char>) -> Seq<WatchView>
    decreases watches.len(),
{
    if watches.len() == 0 {
        Seq::empty()
    } else {
        let rest = matching(watches.drop_last(), pattern);
        if pattern_matches(pattern, watches.last().name) {
            rest.push(watches.last())
        } else {
            rest
        }
    }
}

/// The watch with the drift of every measure recomputed.
pub open spec fn recalculated_watch(w: WatchView) -> WatchView {
    WatchView { measures: recalculated(w.measures, w.unit_ms()), ..w }
}

proof fn lemma_first_named(watches: Seq<WatchView>, name: Seq<char>)
    ensures
        0 <= first_named(watches, name) <= watches.len(),
        forall|j: int|
            0 <= j < first_named(watches, name) ==> #[trigger] watches[j].name != name,
        first_named(watches, name) < watches.len() ==> watches[first_named(
            watches,
            name,
        )].name == name,
    decreases watches.len(),
{
    if watches.len() > 0 && watches[0].name != name {
        lemma_first_named(watches.drop_first(), name);
        assert forall|j: int| 0 <= j < first_named(watches, name) implies #[trigger] watches[j].name
            != name by {
            if j > 0 {
                assert(watches[j] == watches.drop_first()[j - 1]);
            }
        }
    }
}

proof fn lemma_first_named_at(watches: Seq<WatchView>, name: Seq<char>, k: int)
    requires
        0 <= k <= watches.len(),
        forall|j: int| 0 <= j < k ==> #[trigger] watches[j].name != name,
        k < watches.len() ==> watches[k].name == name,
    ensures
        first_named(watches, name) == k,
    decreases watches.len(),
{
    if watches.len() > 0 && k > 0 {
        assert(watches[0].name != name);
        assert forall|j: int| 0 <= j < k - 1 implies #[trigger] watches.drop_first()[j].name
            != name by {
            assert(watches.drop_first()[j] == watches[j + 1]);
        }
        lemma_first_named_at(watches.drop_first(), name, k - 1);
    }
}

/// Saving a watch twice in succession leaves the collection as saving it
/// once did. Where names were distinct before, they still are, and the one
/// watch of that name holds the saved values.
pub proof fn lemma_save_twice(watches: Seq<WatchView>, w: WatchView)
    ensures
        saved(saved(watches, w), w) == saved(watches, w),
        saved(watches, w).contains(w),
        names_distinct(watches) ==> names_distinct(saved(watches, w)),
        names_distinct(watches) ==> forall|i: int|
            0 <= i < saved(watches, w).len() && #[trigger] saved(watches, w)[i].name == w.name
                ==> saved(watches, w)[i] == w,
{
    let i = first_named(watches, w.name);
    let once = saved(watches, w);
    lemma_first_named(watches, w.name);
    if i < watches.len() {
        assert forall|j: int| 0 <= j < i implies #[trigger] once[j].name != w.name by {
            assert(once[j] == watches[j]);
        }
        lemma_first_named_at(once, w.name, i);
        assert(once.update(i, w) =~= once);
        assert(once[i] == w);
        if names_distinct(watches) {
            assert forall|a: int, b: int| 0 <= a < b < once.len() implies #[trigger] once[a].name
                != #[trigger] once[b].name by {
                assert(watches[i].name == w.name);
                assert(watches[a].name != watches[b].name);
            }
            assert forall|k: int| 0 <= k < once.len() && #[trigger] once[k].name == w.name implies once[k]
                == w by {
                if k != i {
                    assert(watches[k].name == w.name);
                    if k < i {
                        assert(watches[k].name != watches[i].name);
                    } else {
                        assert(watches[i].name != watches[k].name);
                    }
                }
            }
        }
    } else {
        assert forall|j: int| 0 <= j < watches.len() implies #[trigger] once[j].name != w.name by {
            assert(once[j] == watches[j]);
        }
        lemma_first_named_at(once, w.name, watches.len() as int);
        assert(once.update(watches.len() as int, w) =~= once);
        assert(once[watches.len() as int] == w);
        if names_distinct(watches) {
            assert forall|a: int, b: int| 0 <= a < b < once.len() implies #[trigger] once[a].name
                != #[trigger] once[b].name by {
                if b < watches.len() {
                    assert(watches[a].name != watches[b].name);
                } else {
                    assert(once[a] == watches[a]);
                }
            }
            assert forall|k: int| 0 <= k < once.len() && #[trigger] once[k].name == w.name implies once[k]
                == w by {
                if k < watches.len() {
                    assert(once[k] == watches[k]);
                }
            }
        }
    }
}

impl Watch {
    /// Saves the watch into `watches`: it replaces the first watch of the
    /// same name, in place, or is appended where none has that name.
    pub fn save(&self, watches: &mut Vec<Watch>)
        ensures
            views(final(watches)@) == saved(views(old(watches)@), self@),
    {
        let ghost before = views(watches@);
        let mut i: usize = 0;
        while i < watches.len()
            invariant
                i <= watches@.len(),
                watches@ == old(watches)@,
                before == views(watches@),
                forall|j: int| 0 <= j < i ==> #[trigger] before[j].name != self@.name,
            decreases watches@.len() - i,
        {
            if watches[i].name == self.name {
                proof {
                    lemma_first_named_at(before, self@.name, i as int);
                }
                watches.set(i, self.duplicate());
                assert(views(watches@) == before.update(i as int, self@));
                return;
            }
            i = i + 1;
        }
        proof {
            lemma_first_named_at(before, self@.name, i as int);
        }
        watches.push(self.duplicate());
        assert(views(watches@) == before.push(self@));
    }
}

/// The watches of `watches` whose name `query` matches, case-insensitively, in
/// collection order; refused where `query` does not compile.
pub fn get_matching_watches(watches: &Vec<Watch>, query: &str) -> (r: Result<
    Vec<Watch>,
    WatchError,
>)
    ensures
        r is Ok <==> pattern_compiles(query@),
        r is Ok ==> views(r->Ok_0@) == matching(views(watches@), query@),
        r is Err ==> r == Err::<Vec<Watch>, WatchError>(WatchError::InvalidPattern),
{
    let q = NameQuery::new(query)?;
    let mut found: Vec<Watch> = Vec::new();
    let mut i: usize = 0;
    while i < watches.len()
        invariant
            i <= watches@.len(),
            q.pattern() == query@,
            views(found@) == matching(views(watches@.subrange(0, i as int)), query@),
        decreases watches@.len() - i,
    {
        let ghost prefix = watches@.subrange(0, i as int + 1);
        assert(views(prefix).drop_last() == views(watches@.subrange(0, i as int)));
        assert(views(prefix).last() == watches@[i as int]@);
        if q.is_match(watches[i].name.as_str()) {
            let w = watches[i].duplicate();
            found.push(w);
            assert(views(found@) == matching(views(watches@.subrange(0, i as int)), query@).push(
                w@,
            ));
        }
        i = i + 1;
    }
    assert(watches@.subrange(0, i as int) == watches@);
    Ok(found)
}

/// Recomputes the drift of every measure of each watch that `query` matches
/// and saves those watches back into `watches`, in collection order. Refused,
/// with `watches` left as it was, where the query does not compile or a
/// matched watch has a measure whose real time does not move forward.
pub fn handle_recalculate(watches: &mut Vec<Watch>, query: &str) -> (r: Result<(), WatchError>)
    ensures
        !pattern_compiles(query@) ==> r == Err::<(), WatchError>(WatchError::InvalidPattern),
        pattern_compiles(query@) ==> {
            let m = matching(views(old(watches)@), query@);
            &&& r is Ok <==> forall|i: int|
                0 <= i < m.len() ==> all_reconcilable(#[trigger] m[i].measures)
            &&& r is Ok ==> views(final(watches)@) == saved_all(
                views(old(watches)@),
                m.map_values(|w: WatchView| recalculated_watch(w)),
            )
            &&& r is Err ==> r == Err::<(), WatchError>(WatchError::InvalidInterval)
        },
        r is Err ==> final(watches)@ == old(watches)@,
{
    let found = get_matching_watches(watches, query)?;
    let ghost m = views(found@);
    let mut updated: Vec<Watch> = Vec::new();
    let mut i: usize = 0;
    while i < found.len()
        invariant
            i <= found@.len(),
            m == views(found@),
            pattern_compiles(query@),
            m == matching(views(old(watches)@), query@),
            watches@ == old(watches)@,
            forall|j: int| 0 <= j < i ==> all_reconcilable(#[trigger] m[j].measures),
            views(updated@) == m.subrange(0, i as int).map_values(
                |w: WatchView| recalculated_watch(w),
            ),
        decreases found@.len() - i,
    {
        let mut w = found[i].duplicate();
        match w.update_running() {
            Ok(()) => {},
            Err(_) => {
                assert(!all_reconcilable(m[i as int].measures));
                return Err(WatchError::InvalidInterval);
            },
        }
        let ghost old_updated = updated@;
        updated.push(w);
        assert(views(updated@) == views(old_updated).push(w@));
        assert(w@ == recalculated_watch(m[i as int]));
        assert(m.subrange(0, i + 1) == m.subrange(0, i as int).push(m[i as int]));
        assert(m.subrange(0, i + 1).map_values(|w: WatchView| recalculated_watch(w)) == m.subrange(
            0,
            i as int,
        ).map_values(|w: WatchView| recalculated_watch(w)).push(recalculated_watch(m[i as int])));
        i = i + 1;
    }
    assert(m.subrange(0, i as int) == m);
    let ghost all = m.map_values(|w: WatchView| recalculated_watch(w));
    let ghost start = views(watches@);
    let mut k: usize = 0;
    while k < updated.len()
        invariant
            k <= updated@.len(),
            views(updated@) == all,
            views(watches@) == saved_all(start, all.subrange(0, k as int)),
        decreases updated@.len() - k,
    {
        updated[k].save(watches);
        assert(all.subrange(0, k + 1).drop_last() == all.subrange(0, k as int));
        k = k + 1;
    }
    assert(all.subrange(0, k as int) == all);
    Ok(())
}

} // verus!
