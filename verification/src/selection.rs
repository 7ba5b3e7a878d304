//! The column-selection algorithm: merging the registry's default list with
//! the caller's include / exclude / explicit overrides into one ordered,
//! duplicate-free set of column names.
//!
//! The mathematical model works on `Seq<Seq<char>>` (lists of column names);
//! [`selected_columns`] is the specification that the executable selector in
//! this module and the schema builder are proved against.

use crate::ordered::{index_set_view, iset_difference, iset_insert, iset_intersection, iset_new};
use vstd::prelude::*;

verus! {

/// View of a list of owned column names as a sequence of name views.
pub open spec fn names_view(v: Seq<String>) -> Seq<Seq<char>> {
    v.map_values(|s: String| s@)
}

/// View of an optional list of owned column names.
pub open spec fn opt_names_view(v: Option<Vec<String>>) -> Option<Seq<Seq<char>>> {
    match v {
        Option::Some(l) => Option::Some(names_view(l@)),
        Option::None => Option::None,
    }
}

/// Whether a user-supplied list is exactly the single-element list holding
/// the literal marker `"all"`. Only that exact shape expands to the full
/// column universe; any other list containing `"all"` is ordinary data.
pub open spec fn is_all_marker(names: Seq<Seq<char>>) -> bool {
    names.len() == 1 && names[0] == "all"@
}

/// First-occurrence deduplication: every name keeps the position of its
/// first appearance and later repetitions vanish. This is what inserting a
/// list element by element into an insertion-ordered set produces.
pub open spec fn dedup_first(names: Seq<Seq<char>>) -> Seq<Seq<char>>
    decreases names.len(),
{
    if names.len() == 0 {
        Seq::empty()
    } else {
        let prefix = dedup_first(names.drop_last());
        if prefix.contains(names.last()) {
            prefix
        } else {
            prefix.push(names.last())
        }
    }
}

/// Keep, in order, exactly the names that occur in `keep`.
pub open spec fn intersect_names(names: Seq<Seq<char>>, keep: Seq<Seq<char>>) -> Seq<Seq<char>> {
    names.filter(|n: Seq<char>| keep.contains(n))
}

/// Remove every name that occurs in `drop`, keeping the order of the rest.
pub open spec fn remove_names(names: Seq<Seq<char>>, drop: Seq<Seq<char>>) -> Seq<Seq<char>> {
    names.filter(|n: Seq<char>| !drop.contains(n))
}

/// Apply the exclusion step when an exclude list is present. Names of the
/// exclude list that are absent from `working` are silently ignored.
pub open spec fn apply_exclude(
    working: Seq<Seq<char>>,
    exclude: Option<Seq<Seq<char>>>,
) -> Seq<Seq<char>> {
    match exclude {
        Option::Some(e) => remove_names(working, e),
        Option::None => working,
    }
}

/// The column-selection algorithm, in strict precedence order:
///
/// 1. An `explicit` list replaces everything else: the `"all"` marker yields
///    the full universe in registry order, any other list is taken verbatim
///    (up to set semantics collapsing duplicates), unknown names included.
/// 2. Otherwise the working set starts from the registry's defaults.
/// 3. An `include` list equal to the `"all"` marker yields the full universe
///    at once; any other include list is appended to the working set, which
///    is then intersected with the universe, silently dropping names this
///    registry does not know.
/// 4. An `exclude` list removes its names from the working set, ignoring
///    names that were never there.
pub open spec fn selected_columns(
    all_columns: Seq<Seq<char>>,
    default_columns: Seq<Seq<char>>,
    included: Option<Seq<Seq<char>>>,
    exclude: Option<Seq<Seq<char>>>,
    explicit: Option<Seq<Seq<char>>>,
) -> Seq<Seq<char>> {
    match explicit {
        Option::Some(e) => if is_all_marker(e) {
            all_columns
        } else {
            dedup_first(e)
        },
        Option::None => match included {
            Option::Some(inc) => if is_all_marker(inc) {
                all_columns
            } else {
                apply_exclude(
                    intersect_names(dedup_first(default_columns + inc), all_columns),
                    exclude,
                )
            },
            Option::None => apply_exclude(dedup_first(default_columns), exclude),
        },
    }
}

/// Deduplication keeps membership exactly.
pub proof fn lemma_dedup_first_contains(names: Seq<Seq<char>>, x: Seq<char>)
    ensures
        dedup_first(names).contains(x) <==> names.contains(x),
    decreases names.len(),
{
    if names.len() == 0 {
    } else {
        lemma_dedup_first_contains(names.drop_last(), x);
        let prefix = dedup_first(names.drop_last());
        if names.contains(x) {
            let i = choose|i: int| 0 <= i < names.len() && names[i] == x;
            if i < names.len() - 1 {
                assert(names.drop_last()[i] == x);
                assert(names.drop_last().contains(x));
                assert(prefix.contains(x));
                let j = choose|j: int| 0 <= j < prefix.len() && prefix[j] == x;
                if !prefix.contains(names.last()) {
                    assert(prefix.push(names.last())[j] == x);
                }
            } else {
                assert(x == names.last());
                if !prefix.contains(names.last()) {
                    assert(prefix.push(names.last()).last() == x);
                }
            }
            assert(dedup_first(names).contains(x));
        }
        if dedup_first(names).contains(x) && !names.contains(x) {
            if prefix.contains(x) {
                assert(names.drop_last().contains(x));
                let j = choose|j: int| 0 <= j < names.drop_last().len() && names.drop_last()[j]
                    == x;
                assert(names[j] == x);
            } else {
                assert(dedup_first(names) == prefix.push(names.last()));
                let j = choose|j: int|
                    0 <= j < dedup_first(names).len() && dedup_first(names)[j] == x;
                if j < prefix.len() {
                    assert(prefix.contains(x));
                } else {
                    assert(x == names.last());
                    assert(names[names.len() - 1] == x);
                }
            }
        }
    }
}

/// Deduplication yields a duplicate-free sequence.
pub proof fn lemma_dedup_first_no_duplicates(names: Seq<Seq<char>>)
    ensures
        dedup_first(names).no_duplicates(),
    decreases names.len(),
{
    if names.len() == 0 {
    } else {
        lemma_dedup_first_no_duplicates(names.drop_last());
        let prefix = dedup_first(names.drop_last());
        if !prefix.contains(names.last()) {
            assert forall|i: int, j: int|
                0 <= i < prefix.push(names.last()).len() && 0 <= j < prefix.push(
                    names.last(),
                ).len() && i != j implies prefix.push(names.last())[i] != prefix.push(
                names.last(),
            )[j] by {
                if i < prefix.len() && j < prefix.len() {
                } else if i == prefix.len() {
                    assert(prefix.contains(prefix[j]));
                } else if j == prefix.len() {
                    assert(prefix.contains(prefix[i]));
                }
            }
        }
    }
}

/// A list that is already duplicate-free deduplicates to itself.
pub proof fn lemma_dedup_first_of_distinct(names: Seq<Seq<char>>)
    requires
        names.no_duplicates(),
    ensures
        dedup_first(names) == names,
    decreases names.len(),
{
    if names.len() == 0 {
        assert(dedup_first(names) =~= names);
    } else {
        assert(names.drop_last().no_duplicates());
        lemma_dedup_first_of_distinct(names.drop_last());
        if names.drop_last().contains(names.last()) {
            let i = choose|i: int|
                0 <= i < names.drop_last().len() && names.drop_last()[i] == names.last();
            assert(names[i] == names[names.len() - 1]);
            assert(false);
        }
        assert(dedup_first(names) =~= names);
    }
}

/// Appending one name to a list commutes with deduplication in the expected
/// way: the name is appended exactly when it was not already present.
pub proof fn lemma_dedup_first_push(names: Seq<Seq<char>>, x: Seq<char>)
    ensures
        dedup_first(names.push(x)) == if names.contains(x) {
            dedup_first(names)
        } else {
            dedup_first(names).push(x)
        },
{
    assert(names.push(x).drop_last() =~= names);
    assert(names.push(x).last() == x);
    lemma_dedup_first_contains(names, x);
}

/// Everything a filtered sequence holds comes from the source sequence and
/// satisfies the predicate.
pub proof fn lemma_filter_membership(s: Seq<Seq<char>>, pred: spec_fn(Seq<char>) -> bool)
    ensures
        forall|x: Seq<char>| #[trigger]
            s.filter(pred).contains(x) ==> s.contains(x) && pred(x),
{
    assert forall|x: Seq<char>| #[trigger] s.filter(pred).contains(x) implies s.contains(x)
        && pred(x) by {
        let i = choose|i: int| 0 <= i < s.filter(pred).len() && s.filter(pred)[i] == x;
        s.lemma_filter_pred(pred, i);
        lemma_filter_is_subsequence(s, pred);
    }
}

/// A filtered duplicate-free sequence stays duplicate-free.
pub proof fn lemma_filter_no_duplicates(s: Seq<Seq<char>>, pred: spec_fn(Seq<char>) -> bool)
    requires
        s.no_duplicates(),
    ensures
        s.filter(pred).no_duplicates(),
    decreases s.len(),
{
    reveal(Seq::filter);
    if s.len() == 0 {
    } else {
        assert(s.drop_last().no_duplicates());
        lemma_filter_no_duplicates(s.drop_last(), pred);
        let sub = s.drop_last().filter(pred);
        if pred(s.last()) {
            lemma_filter_membership(s.drop_last(), pred);
            if sub.contains(s.last()) {
                assert(s.drop_last().contains(s.last()));
                let i = choose|i: int|
                    0 <= i < s.drop_last().len() && s.drop_last()[i] == s.last();
                assert(s[i] == s[s.len() - 1]);
                assert(false);
            }
            assert forall|i: int, j: int|
                0 <= i < sub.push(s.last()).len() && 0 <= j < sub.push(s.last()).len() && i
                    != j implies sub.push(s.last())[i] != sub.push(s.last())[j] by {
                if i < sub.len() && j < sub.len() {
                } else if i == sub.len() {
                    assert(sub.contains(sub[j]));
                } else if j == sub.len() {
                    assert(sub.contains(sub[i]));
                }
            }
        }
    }
}

/// A filtered sequence is a subsequence: every retained element occurs in
/// the source.
proof fn lemma_filter_is_subsequence(s: Seq<Seq<char>>, pred: spec_fn(Seq<char>) -> bool)
    ensures
        forall|x: Seq<char>| s.filter(pred).contains(x) ==> #[trigger] s.contains(x),
    decreases s.len(),
{
    reveal(Seq::filter);
    if s.len() == 0 {
    } else {
        lemma_filter_is_subsequence(s.drop_last(), pred);
        assert forall|x: Seq<char>| s.filter(pred).contains(x) implies #[trigger] s.contains(
            x,
        ) by {
            let sub = s.drop_last().filter(pred);
            if pred(s.last()) && x == s.last() {
                assert(s[s.len() - 1] == x);
            } else {
                assert(sub.contains(x)) by {
                    let i = choose|i: int|
                        0 <= i < s.filter(pred).len() && s.filter(pred)[i] == x;
                    if pred(s.last()) {
                        assert(s.filter(pred) == sub.push(s.last()));
                        assert(i < sub.len());
                        assert(sub[i] == x);
                    } else {
                        assert(s.filter(pred) == sub);
                    }
                }
                assert(s.drop_last().contains(x));
                let j = choose|j: int| 0 <= j < s.drop_last().len() && s.drop_last()[j] == x;
                assert(s[j] == x);
            }
        }
    }
}

/// The full selection result is duplicate-free whenever the registry's
/// column universe is, on every path of the algorithm.
pub proof fn lemma_selected_columns_no_duplicates(
    all_columns: Seq<Seq<char>>,
    default_columns: Seq<Seq<char>>,
    included: Option<Seq<Seq<char>>>,
    exclude: Option<Seq<Seq<char>>>,
    explicit: Option<Seq<Seq<char>>>,
)
    requires
        all_columns.no_duplicates(),
    ensures
        selected_columns(all_columns, default_columns, included, exclude, explicit)
            .no_duplicates(),
{
    match explicit {
        Option::Some(e) => {
            if !is_all_marker(e) {
                lemma_dedup_first_no_duplicates(e);
            }
        },
        Option::None => match included {
            Option::Some(inc) => {
                if !is_all_marker(inc) {
                    lemma_dedup_first_no_duplicates(default_columns + inc);
                    let merged = dedup_first(default_columns + inc);
                    let narrowed = intersect_names(merged, all_columns);
                    lemma_filter_no_duplicates(
                        merged,
                        |n: Seq<char>| all_columns.contains(n),
                    );
                    match exclude {
                        Option::Some(exc) => {
                            lemma_filter_no_duplicates(
                                narrowed,
                                |n: Seq<char>| !exc.contains(n),
                            );
                        },
                        Option::None => {},
                    }
                }
            },
            Option::None => {
                lemma_dedup_first_no_duplicates(default_columns);
                match exclude {
                    Option::Some(exc) => {
                        lemma_filter_no_duplicates(
                            dedup_first(default_columns),
                            |n: Seq<char>| !exc.contains(n),
                        );
                    },
                    Option::None => {},
                }
            },
        },
    }
}

/// A filter whose predicate holds of every element changes nothing.
proof fn lemma_filter_all_true(s: Seq<Seq<char>>, pred: spec_fn(Seq<char>) -> bool)
    requires
        forall|i: int| 0 <= i < s.len() ==> pred(#[trigger] s[i]),
    ensures
        s.filter(pred) == s,
    decreases s.len(),
{
    reveal(Seq::filter);
    if s.len() == 0 {
        assert(s.filter(pred) =~= s);
    } else {
        assert forall|i: int| 0 <= i < s.drop_last().len() implies pred(
            #[trigger] s.drop_last()[i],
        ) by {
            assert(s.drop_last()[i] == s[i]);
        }
        lemma_filter_all_true(s.drop_last(), pred);
        assert(pred(s.last()));
        assert(s.filter(pred) =~= s);
    }
}

/// With no include, exclude, or explicit list, selection yields exactly the
/// registry's default column list: the same names, in the same order.
pub proof fn lemma_select_defaults(all_columns: Seq<Seq<char>>, default_columns: Seq<Seq<char>>)
    requires
        default_columns.no_duplicates(),
    ensures
        selected_columns(all_columns, default_columns, Option::None, Option::None, Option::None)
            == default_columns,
{
    lemma_dedup_first_of_distinct(default_columns);
}

/// An explicit list or an include list that is exactly the `"all"` marker
/// yields the full registry column set in registry-canonical order, whatever
/// the other parameters hold.
pub proof fn lemma_select_all_marker(
    all_columns: Seq<Seq<char>>,
    default_columns: Seq<Seq<char>>,
    included: Option<Seq<Seq<char>>>,
    exclude: Option<Seq<Seq<char>>>,
    marker: Seq<Seq<char>>,
)
    requires
        is_all_marker(marker),
    ensures
        selected_columns(all_columns, default_columns, included, exclude, Option::Some(marker))
            == all_columns,
        selected_columns(
            all_columns,
            default_columns,
            Option::Some(marker),
            exclude,
            Option::None,
        ) == all_columns,
{
}

/// An explicit list that is not the `"all"` marker and repeats no name is
/// the selection result verbatim: order and count are preserved, and the
/// include and exclude lists are ignored entirely.
pub proof fn lemma_select_explicit(
    all_columns: Seq<Seq<char>>,
    default_columns: Seq<Seq<char>>,
    included: Option<Seq<Seq<char>>>,
    exclude: Option<Seq<Seq<char>>>,
    explicit_list: Seq<Seq<char>>,
)
    requires
        !is_all_marker(explicit_list),
        explicit_list.no_duplicates(),
    ensures
        selected_columns(
            all_columns,
            default_columns,
            included,
            exclude,
            Option::Some(explicit_list),
        ) == explicit_list,
{
    lemma_dedup_first_of_distinct(explicit_list);
}

/// Excluding names that are absent from the working set is a no-op: the
/// working set comes back unchanged, and no error arises.
pub proof fn lemma_exclude_absent_noop(working: Seq<Seq<char>>, exclude_list: Seq<Seq<char>>)
    requires
        forall|i: int| 0 <= i < exclude_list.len() ==> !working.contains(
            #[trigger] exclude_list[i],
        ),
    ensures
        remove_names(working, exclude_list) == working,
{
    assert forall|i: int| 0 <= i < working.len() implies !exclude_list.contains(
        #[trigger] working[i],
    ) by {
        if exclude_list.contains(working[i]) {
            let j = choose|j: int|
                0 <= j < exclude_list.len() && exclude_list[j] == working[i];
            assert(!working.contains(exclude_list[j]));
        }
    }
    lemma_filter_all_true(working, |n: Seq<char>| !exclude_list.contains(n));
}

/// An empty include list behaves as an absent one whenever every default
/// column belongs to the registry's column universe (as registry defaults
/// always do): adding nothing and then intersecting with the universe
/// leaves the working set untouched.
pub proof fn lemma_empty_included_is_absent(
    all_columns: Seq<Seq<char>>,
    default_columns: Seq<Seq<char>>,
    exclude: Option<Seq<Seq<char>>>,
)
    requires
        forall|i: int| 0 <= i < default_columns.len() ==> all_columns.contains(
            #[trigger] default_columns[i],
        ),
    ensures
        selected_columns(
            all_columns,
            default_columns,
            Option::Some(Seq::empty()),
            exclude,
            Option::None,
        ) == selected_columns(all_columns, default_columns, Option::None, exclude, Option::None),
{
    assert(default_columns + Seq::<Seq<char>>::empty() =~= default_columns);
    let base = dedup_first(default_columns);
    assert forall|i: int| 0 <= i < base.len() implies all_columns.contains(
        #[trigger] base[i],
    ) by {
        assert(base.contains(base[i]));
        lemma_dedup_first_contains(default_columns, base[i]);
        let j = choose|j: int|
            0 <= j < default_columns.len() && default_columns[j] == base[i];
        assert(all_columns.contains(default_columns[j]));
    }
    lemma_filter_all_true(base, |n: Seq<char>| all_columns.contains(n));
}

/// A name the registry for this entity does not know never survives an
/// include list: it is silently dropped, and the final set cannot hold it.
pub proof fn lemma_unknown_included_dropped(
    all_columns: Seq<Seq<char>>,
    default_columns: Seq<Seq<char>>,
    included_list: Seq<Seq<char>>,
    exclude: Option<Seq<Seq<char>>>,
    x: Seq<char>,
)
    requires
        !all_columns.contains(x),
    ensures
        !selected_columns(
            all_columns,
            default_columns,
            Option::Some(included_list),
            exclude,
            Option::None,
        ).contains(x),
{
    if !is_all_marker(included_list) {
        let merged = dedup_first(default_columns + included_list);
        let narrowed = intersect_names(merged, all_columns);
        lemma_filter_membership(merged, |n: Seq<char>| all_columns.contains(n));
        match exclude {
            Option::Some(exc) => {
                lemma_filter_membership(narrowed, |n: Seq<char>| !exc.contains(n));
            },
            Option::None => {},
        }
    }
}

/// When a name stands in both the include and the exclude list, exclusion
/// wins: it runs after inclusion, so the name is absent from the final set.
/// (An include list equal to the `"all"` marker short-circuits before any
/// exclusion, so it is left out here.)
pub proof fn lemma_exclude_wins(
    all_columns: Seq<Seq<char>>,
    default_columns: Seq<Seq<char>>,
    included_list: Seq<Seq<char>>,
    exclude_list: Seq<Seq<char>>,
    x: Seq<char>,
)
    requires
        included_list.contains(x),
        exclude_list.contains(x),
        !is_all_marker(included_list),
    ensures
        !selected_columns(
            all_columns,
            default_columns,
            Option::Some(included_list),
            Option::Some(exclude_list),
            Option::None,
        ).contains(x),
{
    let narrowed = intersect_names(dedup_first(default_columns + included_list), all_columns);
    lemma_filter_membership(narrowed, |n: Seq<char>| !exclude_list.contains(n));
}

/// Two pointwise-equal predicates filter a sequence to the same result.
proof fn lemma_filter_congruent(
    s: Seq<Seq<char>>,
    p1: spec_fn(Seq<char>) -> bool,
    p2: spec_fn(Seq<char>) -> bool,
)
    requires
        forall|x: Seq<char>| #[trigger] p1(x) == p2(x),
    ensures
        s.filter(p1) == s.filter(p2),
    decreases s.len(),
{
    reveal(Seq::filter);
    if s.len() > 0 {
        lemma_filter_congruent(s.drop_last(), p1, p2);
    }
}

/// Whether a user-supplied list is exactly the single-element `"all"`
/// marker list.
fn is_all_marker_exec(names: &Vec<String>) -> (r: bool)
    ensures
        r == is_all_marker(names_view(names@)),
{
    if names.len() == 1 {
        let marker: String = "all".to_owned();
        let first_matches: bool = names[0] == marker;
        first_matches
    } else {
        false
    }
}

/// Merge the registry's column universe and default list with the caller's
/// include, exclude, and explicit lists into the final ordered,
/// duplicate-free set of output column names, exactly as
/// [`selected_columns`] describes: an explicit list takes total precedence,
/// the `"all"` marker expands to the full universe, included names unknown
/// to this registry are silently dropped, and exclusion runs last.
pub fn compute_used_columns(
    all_columns: indexmap::IndexSet<String>,
    default_columns: &Vec<String>,
    include_columns: &Option<Vec<String>>,
    exclude_columns: &Option<Vec<String>>,
    columns: &Option<Vec<String>>,
) -> (result: indexmap::IndexSet<String>)
    ensures
        index_set_view(result) == selected_columns(
            index_set_view(all_columns),
            names_view(default_columns@),
            opt_names_view(*include_columns),
            opt_names_view(*exclude_columns),
            opt_names_view(*columns),
        ),
{
    if let Some(cols) = columns {
        if is_all_marker_exec(cols) {
            return all_columns;
        }
        let ghost cols_v = names_view(cols@);
        let mut result: indexmap::IndexSet<String> = iset_new();
        let mut i: usize = 0;
        while i < cols.len()
            invariant
                i <= cols.len(),
                cols_v == names_view(cols@),
                index_set_view(result) == dedup_first(cols_v.take(i as int)),
            decreases cols.len() - i,
        {
            proof {
                lemma_dedup_first_contains(cols_v.take(i as int), cols_v[i as int]);
                lemma_dedup_first_push(cols_v.take(i as int), cols_v[i as int]);
                assert(cols_v.take(i as int + 1) =~= cols_v.take(i as int).push(
                    cols_v[i as int],
                ));
            }
            iset_insert(&mut result, cols[i].clone());
            i = i + 1;
        }
        proof {
            assert(cols_v.take(cols.len() as int) =~= cols_v);
        }
        return result;
    }
    let ghost defaults_v = names_view(default_columns@);
    let mut result_set: indexmap::IndexSet<String> = iset_new();
    let mut i: usize = 0;
    while i < default_columns.len()
        invariant
            i <= default_columns.len(),
            defaults_v == names_view(default_columns@),
            index_set_view(result_set) == dedup_first(defaults_v.take(i as int)),
        decreases default_columns.len() - i,
    {
        proof {
            lemma_dedup_first_contains(defaults_v.take(i as int), defaults_v[i as int]);
            lemma_dedup_first_push(defaults_v.take(i as int), defaults_v[i as int]);
            assert(defaults_v.take(i as int + 1) =~= defaults_v.take(i as int).push(
                defaults_v[i as int],
            ));
        }
        iset_insert(&mut result_set, default_columns[i].clone());
        i = i + 1;
    }
    proof {
        assert(defaults_v.take(default_columns.len() as int) =~= defaults_v);
    }
    if let Some(inc) = include_columns {
        if is_all_marker_exec(inc) {
            return all_columns;
        }
        let ghost inc_v = names_view(inc@);
        proof {
            assert(defaults_v + inc_v.take(0) =~= defaults_v);
        }
        let mut j: usize = 0;
        while j < inc.len()
            invariant
                j <= inc.len(),
                inc_v == names_view(inc@),
                index_set_view(result_set) == dedup_first(defaults_v + inc_v.take(j as int)),
            decreases inc.len() - j,
        {
            proof {
                let merged = defaults_v + inc_v.take(j as int);
                lemma_dedup_first_contains(merged, inc_v[j as int]);
                lemma_dedup_first_push(merged, inc_v[j as int]);
                assert(defaults_v + inc_v.take(j as int + 1) =~= merged.push(inc_v[j as int]));
            }
            iset_insert(&mut result_set, inc[j].clone());
            j = j + 1;
        }
        proof {
            assert(inc_v.take(inc.len() as int) =~= inc_v);
        }
        result_set = iset_intersection(&result_set, &all_columns);
    }
    if let Some(exclude) = exclude_columns {
        let ghost exclude_v = names_view(exclude@);
        let ghost working = index_set_view(result_set);
        let mut exclude_set: indexmap::IndexSet<String> = iset_new();
        let mut k: usize = 0;
        while k < exclude.len()
            invariant
                k <= exclude.len(),
                exclude_v == names_view(exclude@),
                index_set_view(exclude_set) == dedup_first(exclude_v.take(k as int)),
            decreases exclude.len() - k,
        {
            proof {
                lemma_dedup_first_contains(exclude_v.take(k as int), exclude_v[k as int]);
                lemma_dedup_first_push(exclude_v.take(k as int), exclude_v[k as int]);
                assert(exclude_v.take(k as int + 1) =~= exclude_v.take(k as int).push(
                    exclude_v[k as int],
                ));
            }
            iset_insert(&mut exclude_set, exclude[k].clone());
            k = k + 1;
        }
        proof {
            assert(exclude_v.take(exclude.len() as int) =~= exclude_v);
        }
        let narrowed = iset_difference(&result_set, &exclude_set);
        proof {
            let dedup_pred = |n: Seq<char>| !index_set_view(exclude_set).contains(n);
            let plain_pred = |n: Seq<char>| !exclude_v.contains(n);
            assert forall|x: Seq<char>| #[trigger] dedup_pred(x) == plain_pred(x) by {
                lemma_dedup_first_contains(exclude_v, x);
            }
            lemma_filter_congruent(working, dedup_pred, plain_pred);
        }
        result_set = narrowed;
    }
    result_set
}

} // verus!
