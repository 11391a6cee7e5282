//! Status filter keywords: validation, group expansion, parsing of
//! `--filter-status` values and their display.
use vstd::prelude::*;

use crate::error::DiffCopyError;
use crate::text::{chars_of, join, join_strings, lowercase, push_str, str_equal, string_from, to_lowercase};
use crate::types::{underscores_to_hyphens, FileStatus, StatusFilter, StatusSet, ThreeWayStatus};

verus! {

/// The three-way statuses that a group keyword stands for (empty when the
/// keyword is no group).
pub open spec fn three_way_group(k: Seq<char>) -> Seq<Seq<char>> {
    if k == "added"@ {
        seq!["added-ours"@, "added-theirs"@, "added-both-same"@, "added-both-diff"@]
    } else if k == "deleted"@ {
        seq!["deleted-ours"@, "deleted-theirs"@, "deleted-both"@]
    } else if k == "conflicts"@ {
        seq!["CONFLICT"@, "added-both-diff"@, "modify-delete"@, "delete-modify"@]
    } else if k == "conflict"@ {
        seq!["CONFLICT"@]
    } else {
        Seq::empty()
    }
}

/// A lowercase keyword that a filter may name: a two-way status or alias, a
/// three-way status (with `-` or `_`), a group keyword, or `all`.
pub open spec fn valid_keyword(k: Seq<char>) -> bool {
    FileStatus::keyword(k) is Some
        || ThreeWayStatus::keyword(underscores_to_hyphens(k)) is Some
        || three_way_group(k).len() > 0
        || k == "all"@
}

/// The keyword a filter stores for a value: the canonical name of a two-way
/// alias, or the value itself.
pub open spec fn canonical_keyword(v: Seq<char>) -> Seq<char> {
    match FileStatus::keyword(v) {
        Some(s) => s.name(),
        None => v,
    }
}

impl StatusFilter {
    /// Whether a lowercase keyword may appear in a filter.
    pub fn is_valid_status(k: &str) -> (r: bool)
        ensures
            r == valid_keyword(k@),
    {
        if FileStatus::from_keyword(k).is_some() {
            return true;
        }
        let hyphenated = crate::types::replace_underscores(k);
        if ThreeWayStatus::from_keyword(hyphenated.as_str()).is_some() {
            return true;
        }
        if StatusFilter::expand_three_way_group(k).is_some() {
            return true;
        }
        str_equal(k, "all")
    }

    /// The three-way statuses that a group keyword stands for.
    pub fn expand_three_way_group(k: &str) -> (r: Option<Vec<&'static str>>)
        ensures
            r is None <==> three_way_group(k@).len() == 0,
            r matches Some(v) ==> v@.map_values(|s: &str| s@) == three_way_group(k@),
    {
        proof {
            reveal_strlit("added");
            reveal_strlit("deleted");
            reveal_strlit("conflicts");
            reveal_strlit("conflict");
        }
        let r = if str_equal(k, "added") {
            Some(vec!["added-ours", "added-theirs", "added-both-same", "added-both-diff"])
        } else if str_equal(k, "deleted") {
            Some(vec!["deleted-ours", "deleted-theirs", "deleted-both"])
        } else if str_equal(k, "conflicts") {
            Some(vec!["CONFLICT", "added-both-diff", "modify-delete", "delete-modify"])
        } else if str_equal(k, "conflict") {
            Some(vec!["CONFLICT"])
        } else {
            None
        };
        proof {
            if r is Some {
                let v = r->0;
                assert(v@.map_values(|s: &str| s@) =~= three_way_group(k@));
            }
        }
        r
    }

    /// The filter as the reports print it.
    pub fn to_display_string(&self) -> (r: String)
        ensures
            r@ == join(display_parts(*self), ", "@),
    {
        format_filter_status(self)
    }
}

/// The parts of a filter's display: `all`, the shown keywords in order, or
/// `all (implied)` when only exclusions exist; then each hidden keyword
/// behind `^`, in order.
pub open spec fn display_parts(f: StatusFilter) -> Seq<Seq<char>> {
    let head: Seq<Seq<char>> = if f.include_all {
        seq!["all"@]
    } else if f.included@.len() > 0 {
        f.included@
    } else if f.excluded@.len() > 0 {
        seq!["all (implied)"@]
    } else {
        Seq::empty()
    };
    head + f.excluded@.map_values(|k: Seq<char>| "^"@ + k)
}

/// Formats a filter for the Options section of the reports.
pub fn format_filter_status(filter: &StatusFilter) -> (r: String)
    ensures
        r@ == join(display_parts(*filter), ", "@),
{
    let mut parts: Vec<String> = Vec::new();
    if filter.include_all {
        parts.push("all".to_owned());
    } else if !filter.included.is_empty() {
        parts = filter.included.to_vec();
    } else if !filter.excluded.is_empty() {
        parts.push("all (implied)".to_owned());
    }
    let ghost head = parts@.map_values(|s: String| s@);
    let excluded = filter.excluded.to_vec();
    let mut i: usize = 0;
    while i < excluded.len()
        invariant
            i <= excluded@.len(),
            excluded@.map_values(|s: String| s@) == filter.excluded@,
            parts@.len() == head.len() + i,
            forall|k: int| 0 <= k < head.len() ==> (#[trigger] parts@[k])@ == head[k],
            forall|k: int| 0 <= k < i ==> (#[trigger] parts@[head.len() + k])@ == "^"@ + filter.excluded@[k],
        decreases excluded@.len() - i,
    {
        let mut item = "^".to_owned();
        push_str(&mut item, excluded[i].as_str());
        proof {
            assert(excluded@[i as int]@ == filter.excluded@[i as int]);
        }
        parts.push(item);
        i = i + 1;
    }
    proof {
        let ex_parts = filter.excluded@.map_values(|k: Seq<char>| "^"@ + k);
        assert forall|k: int| head.len() <= k < parts@.len() implies (#[trigger] parts@[k])@ == ex_parts[k - head.len()] by {
            let j = k - head.len();
            assert(parts@[head.len() + j]@ == "^"@ + filter.excluded@[j]);
        }
        assert(parts@.map_values(|s: String| s@) =~= head + ex_parts);
        assert(head + ex_parts =~= display_parts(*filter));
    }
    join_strings(&parts, ", ")
}

/// The keywords a filter records for one canonical keyword: the keyword
/// itself and the three-way statuses of its group.
pub open spec fn keyword_set(c: Seq<char>) -> Set<Seq<char>> {
    three_way_group(c).to_set().insert(c)
}

/// Adds a canonical keyword and its group to a keyword set.
fn insert_keywords(set: &mut StatusSet, canonical: String)
    ensures
        final(set)@.to_set() == old(set)@.to_set() + keyword_set(canonical@),
{
    let ghost c = canonical@;
    let expanded = StatusFilter::expand_three_way_group(canonical.as_str());
    set.insert(canonical);
    let ghost after_first = set@.to_set();
    if let Some(v) = expanded {
        let mut j: usize = 0;
        while j < v.len()
            invariant
                j <= v@.len(),
                v@.map_values(|s: &str| s@) == three_way_group(c),
                after_first == old(set)@.to_set().insert(c),
                set@.to_set() == after_first + v@.map_values(|s: &str| s@).take(j as int).to_set(),
            decreases v@.len() - j,
        {
            let ghost before = set@.to_set();
            set.insert(v[j].to_owned());
            proof {
                let g = v@.map_values(|s: &str| s@);
                assert(g[j as int] == v@[j as int]@);
                assert(g.take(j + 1) =~= g.take(j as int).push(g[j as int]));
                g.take(j as int).lemma_push_to_set_commute(g[j as int]);
                assert(set@.to_set() =~= after_first + g.take(j + 1).to_set());
            }
            j = j + 1;
        }
        proof {
            let g = v@.map_values(|s: &str| s@);
            assert(g.take(j as int) =~= g);
            assert(set@.to_set() =~= old(set)@.to_set() + keyword_set(c));
        }
    } else {
        proof {
            assert(three_way_group(c).to_set() =~= Set::empty());
            assert(set@.to_set() =~= old(set)@.to_set() + keyword_set(c));
        }
    }
}

/// Whether a lowercased filter entry hides rather than shows (`^` prefix).
pub open spec fn entry_excludes(l: Seq<char>) -> bool {
    l.len() > 0 && l[0] == '^'
}

/// The keyword of a lowercased filter entry, without its `^` prefix.
pub open spec fn entry_value(l: Seq<char>) -> Seq<char> {
    if entry_excludes(l) { l.drop_first() } else { l }
}

/// A lowercased entry that `all` does not stand for names a valid keyword.
pub open spec fn entry_valid(l: Seq<char>) -> bool {
    l == "all"@ || valid_keyword(entry_value(l))
}

/// The lowercased filter entries.
pub open spec fn lowered_entries(statuses: Seq<Seq<char>>) -> Seq<Seq<char>> {
    statuses.map_values(|s: Seq<char>| lowercase(s))
}

/// The keywords that the first `n` lowercased entries show (`exclude` false)
/// or hide (`exclude` true).
pub open spec fn collected(ls: Seq<Seq<char>>, n: int, exclude: bool) -> Set<Seq<char>> {
    Set::new(
        |k: Seq<char>|
            exists|i: int|
                0 <= i < n && ls[i] != "all"@ && entry_excludes(ls[i]) == exclude
                    && #[trigger] keyword_set(canonical_keyword(entry_value(ls[i]))).contains(k),
    )
}

/// Whether some of the first `n` lowercased entries is `all`.
pub open spec fn names_all(ls: Seq<Seq<char>>, n: int) -> bool {
    exists|i: int| 0 <= i < n && #[trigger] ls[i] == "all"@
}

/// The filter that the entries of `--filter-status` (or of `filter_status` in
/// a configuration file) describe, or the first entry that names no valid
/// keyword.
pub open spec fn filter_outcome_ok(statuses: Seq<Seq<char>>, f: StatusFilter) -> bool {
    let ls = lowered_entries(statuses);
    &&& forall|i: int| 0 <= i < ls.len() ==> entry_valid(#[trigger] ls[i])
    &&& f.included@.to_set() == collected(ls, ls.len() as int, false)
    &&& f.excluded@.to_set() == collected(ls, ls.len() as int, true)
    &&& f.include_all == ((statuses.len() > 0 && statuses[0].len() > 0 && statuses[0][0] == '^')
        || names_all(ls, ls.len() as int))
}

/// Every entry names a valid keyword once lowercased.
pub open spec fn entries_valid(statuses: Seq<Seq<char>>) -> bool {
    forall|i: int| 0 <= i < statuses.len() ==> entry_valid(lowercase(#[trigger] statuses[i]))
}

/// The error reported for filter entries: the first entry that names no
/// valid keyword.
pub open spec fn filter_error(statuses: Seq<String>, e: DiffCopyError) -> bool {
    exists|i: int|
        0 <= i < statuses.len()
            && !entry_valid(lowercase(#[trigger] statuses[i]@))
            && (forall|j: int| 0 <= j < i ==> entry_valid(lowercase(#[trigger] statuses[j]@)))
            && e == DiffCopyError::InvalidFilterStatus(statuses[i])
}

/// Parses filter entries: `all` shows everything, `^k` hides `k`, other
/// entries show their keyword; aliases become canonical names and group
/// keywords also record their three-way statuses. A first entry that hides
/// makes the filter show everything else.
pub fn parse_filter_status_vec(statuses: &Vec<String>) -> (r: Result<StatusFilter, DiffCopyError>)
    ensures
        r is Ok <==> entries_valid(statuses@.map_values(|s: String| s@)),
        match r {
            Ok(f) => filter_outcome_ok(statuses@.map_values(|s: String| s@), f),
            Err(e) => filter_error(statuses@, e),
        },
{
    let ghost raw = statuses@.map_values(|s: String| s@);
    let ghost ls = lowered_entries(raw);
    let mut filter = StatusFilter::new();
    if statuses.len() == 0 {
        proof {
            assert(filter.included@.to_set() =~= collected(ls, 0, false));
            assert(filter.excluded@.to_set() =~= collected(ls, 0, true));
        }
        return Ok(filter);
    }
    let first = chars_of(statuses[0].as_str());
    if first.len() > 0 && first[0] == '^' {
        filter.include_all = true;
    }
    let mut i: usize = 0;
    while i < statuses.len()
        invariant
            0 < statuses@.len(),
            i <= statuses@.len(),
            raw == statuses@.map_values(|s: String| s@),
            ls == lowered_entries(raw),
            forall|j: int| 0 <= j < i ==> entry_valid(#[trigger] ls[j]),
            filter.included@.to_set() == collected(ls, i as int, false),
            filter.excluded@.to_set() == collected(ls, i as int, true),
            filter.include_all == ((raw[0].len() > 0 && raw[0][0] == '^') || names_all(ls, i as int)),
        decreases statuses@.len() - i,
    {
        let lowered = to_lowercase(statuses[i].as_str());
        proof {
            assert(ls[i as int] == lowered@);
        }
        let ghost before_in = filter.included@.to_set();
        let ghost before_ex = filter.excluded@.to_set();
        if str_equal(lowered.as_str(), "all") {
            filter.include_all = true;
            proof {
                assert(collected(ls, i + 1, false) =~= collected(ls, i as int, false));
                assert(collected(ls, i + 1, true) =~= collected(ls, i as int, true));
                assert(names_all(ls, i + 1));
            }
        } else {
            let lc = chars_of(lowered.as_str());
            let excludes = lc.len() > 0 && lc[0] == '^';
            let value = if excludes { string_from(&lc, 1) } else { string_from(&lc, 0) };
            proof {
                assert(lc@.skip(0) =~= lc@);
                assert(value@ == entry_value(ls[i as int])) by {
                    if excludes {
                        assert(lc@.skip(1) =~= lc@.drop_first());
                    }
                }
            }
            if !StatusFilter::is_valid_status(value.as_str()) {
                proof {
                    assert(!entry_valid(lowercase(statuses@[i as int]@)));
                    assert forall|j: int| 0 <= j < i implies entry_valid(lowercase(#[trigger] statuses@[j]@)) by {
                        assert(ls[j] == lowercase(statuses@[j]@));
                    }
                }
                proof {
                    assert(!entries_valid(raw)) by {
                        assert(raw[i as int] == statuses@[i as int]@);
                    }
                }
                return Err(DiffCopyError::InvalidFilterStatus(statuses[i].clone()));
            }
            let canonical = match FileStatus::from_keyword(value.as_str()) {
                Some(st) => st.as_str().to_owned(),
                None => value,
            };
            proof {
                assert(canonical@ == canonical_keyword(entry_value(ls[i as int])));
            }
            let ghost ks = keyword_set(canonical@);
            if excludes {
                insert_keywords(&mut filter.excluded, canonical);
                proof {
                    assert(collected(ls, i + 1, true) =~= before_ex + ks);
                    assert(collected(ls, i + 1, false) =~= collected(ls, i as int, false));
                }
            } else {
                insert_keywords(&mut filter.included, canonical);
                proof {
                    assert(collected(ls, i + 1, false) =~= before_in + ks);
                    assert(collected(ls, i + 1, true) =~= collected(ls, i as int, true));
                }
            }
            proof {
                assert(names_all(ls, i + 1) == names_all(ls, i as int));
            }
        }
        i = i + 1;
    }
    proof {
        assert forall|j: int| 0 <= j < raw.len() implies entry_valid(lowercase(#[trigger] raw[j])) by {
            assert(ls[j] == lowercase(raw[j]));
        }
    }
    Ok(filter)
}

} // verus!
