//! The exchange orchestrator: validate the two resolved paths, classify
//! them, plan both entries' names, check for destination collisions, select
//! the rename strategy, and hand back the ordered rename operations for the
//! embedding program to carry out.

use vstd::prelude::*;
use vstd::string::*;

use crate::file_rename::{plan_matches, temp_candidate_spec};
use crate::path_checkout::mode_spec;
use crate::path_text::{
    ext_spec, file_name_spec, join_spec, lemma_has_char_concat, lemma_join_split,
    lemma_split_join, lemma_stem_ext_glue, lemma_stem_ext_no_slash, parent_spec, recombines,
    same_dir_spec, stem_spec, taken_contains, wf_path,
};
use crate::types::{ExchangeDecision, GetPathInfo, NameExchange, RenameError};

verus! {

/// The final path of one entry: its own parent directory, joined with the
/// other entry's base name carrying this entry's own extension.
pub open spec fn new_path_spec(
    own: Seq<char>,
    other: Seq<char>,
    own_is_file: bool,
    other_is_file: bool,
) -> Seq<char> {
    join_spec(parent_spec(own), stem_spec(other, other_is_file) + ext_spec(own, own_is_file))
}

/// A destination collision: the two final paths do not share a parent
/// directory, and at least one of them already exists. When the final
/// paths share a parent directory a collision is expected and resolved by
/// the rename strategy itself, so it is no error there.
pub open spec fn dest_conflict_spec(
    p1: Seq<char>,
    p2: Seq<char>,
    f1: bool,
    f2: bool,
    taken: Seq<Seq<char>>,
) -> bool {
    let n1 = new_path_spec(p1, p2, f1, f2);
    let n2 = new_path_spec(p2, p1, f2, f1);
    &&& !same_dir_spec(n1, n2)
    &&& (taken_contains(taken, n1) || taken_contains(taken, n2))
}

/// The strategy table: from the two stat flags and the containment mode to
/// `(is_nested, file1_first)`. A containment relationship selects the
/// direct strategy, ordered so the contained entry moves first; everything
/// else selects the temp-mediated strategy.
pub open spec fn strategy_spec(is_file1: bool, is_file2: bool, mode: u8) -> (bool, bool) {
    if is_file1 && is_file2 {
        (false, true)
    } else if !is_file1 && !is_file2 {
        if mode == 1 {
            (true, false)
        } else if mode == 2 {
            (true, true)
        } else {
            (false, true)
        }
    } else if is_file1 && !is_file2 {
        if mode == 2 {
            (true, true)
        } else {
            (false, true)
        }
    } else {
        if mode == 1 {
            (true, false)
        } else {
            (false, false)
        }
    }
}

/// Everything a successful orchestration hands back: the filled-in entry
/// information, the chosen strategy and ordering, and the rename plan.
pub open spec fn decision_ok(
    d: ExchangeDecision,
    p1: Seq<char>,
    p2: Seq<char>,
    f1: bool,
    f2: bool,
    taken: Seq<Seq<char>>,
) -> bool {
    &&& d.info.f1.is_exist
    &&& d.info.f2.is_exist
    &&& d.info.f1.is_file == f1
    &&& d.info.f2.is_file == f2
    &&& d.info.f1.packed_info.name@ == stem_spec(p1, f1)
    &&& d.info.f1.packed_info.ext@ == ext_spec(p1, f1)
    &&& d.info.f1.packed_info.parent_dir@ == parent_spec(p1)
    &&& d.info.f2.packed_info.name@ == stem_spec(p2, f2)
    &&& d.info.f2.packed_info.ext@ == ext_spec(p2, f2)
    &&& d.info.f2.packed_info.parent_dir@ == parent_spec(p2)
    &&& d.info.f1.exchange.original_path@ == p1
    &&& d.info.f2.exchange.original_path@ == p2
    &&& d.info.f1.exchange.new_path@ == new_path_spec(p1, p2, f1, f2)
    &&& d.info.f2.exchange.new_path@ == new_path_spec(p2, p1, f2, f1)
    &&& !taken_contains(taken, d.info.f1.exchange.pre_path@)
    &&& !taken_contains(taken, d.info.f2.exchange.pre_path@)
    &&& (exists|m: nat|
        d.info.f1.exchange.pre_path@ == temp_candidate_spec(parent_spec(p1), ext_spec(p1, f1), m)
            && (forall|k: nat|
                k < m ==> taken_contains(
                    taken,
                    temp_candidate_spec(parent_spec(p1), ext_spec(p1, f1), k),
                )))
    &&& (exists|m: nat|
        d.info.f2.exchange.pre_path@ == temp_candidate_spec(parent_spec(p2), ext_spec(p2, f2), m)
            && (forall|k: nat|
                k < m ==> taken_contains(
                    taken,
                    temp_candidate_spec(parent_spec(p2), ext_spec(p2, f2), k),
                )))
    &&& (d.is_nested, d.file1_first) == strategy_spec(f1, f2, mode_spec(p1, p2))
    &&& plan_matches(
        d.ops@,
        (if d.file1_first {
            d.info.f1.exchange
        } else {
            d.info.f2.exchange
        }),
        (if d.file1_first {
            d.info.f2.exchange
        } else {
            d.info.f1.exchange
        }),
        d.is_nested,
    )
}

/// Select the rename strategy and ordering from the two stat flags and the
/// containment mode, per the strategy table.
pub fn select_strategy(is_file1: bool, is_file2: bool, mode: u8) -> (r: (bool, bool))
    ensures
        r == strategy_spec(is_file1, is_file2, mode),
{
    match (is_file1, is_file2) {
        (true, true) => (false, true),
        (false, false) => {
            if mode == 1 {
                (true, false)
            } else if mode == 2 {
                (true, true)
            } else {
                (false, true)
            }
        },
        (true, false) => {
            if mode == 2 {
                (true, true)
            } else {
                (false, true)
            }
        },
        (false, true) => {
            if mode == 1 {
                (true, false)
            } else {
                (false, false)
            }
        },
    }
}

/// Orchestrate one exchange over two resolved paths. `exists1` and
/// `exists2` say whether each path points at an existing entry, `is_file1`
/// and `is_file2` whether it is a regular file, and `existing` lists the
/// full paths of the entries currently present in both parent directories.
/// A missing entry, a pair of identical paths, and a destination collision
/// are rejected, in that order; otherwise the result carries the filled-in
/// plan whose rename operations the caller performs in order.
pub fn exchange_paths(
    path1: &String,
    path2: &String,
    exists1: bool,
    exists2: bool,
    is_file1: bool,
    is_file2: bool,
    existing: &Vec<String>,
) -> (r: Result<ExchangeDecision, RenameError>)
    ensures
        (!exists1 || !exists2) ==> r == Err::<ExchangeDecision, RenameError>(
            RenameError::NotExists,
        ),
        (exists1 && exists2 && path1@ == path2@) ==> r == Err::<ExchangeDecision, RenameError>(
            RenameError::SamePath,
        ),
        (exists1 && exists2 && path1@ != path2@ && dest_conflict_spec(
            path1@,
            path2@,
            is_file1,
            is_file2,
            existing.deep_view(),
        )) ==> r == Err::<ExchangeDecision, RenameError>(RenameError::AlreadyExists),
        (exists1 && exists2 && path1@ != path2@ && !dest_conflict_spec(
            path1@,
            path2@,
            is_file1,
            is_file2,
            existing.deep_view(),
        )) ==> r is Ok,
        r matches Ok(d) ==> decision_ok(
            d,
            path1@,
            path2@,
            is_file1,
            is_file2,
            existing.deep_view(),
        ),
{
    if !exists1 || !exists2 {
        return Err(RenameError::NotExists);
    }
    if crate::path_text::str_eq(path1.as_str(), path2.as_str()) {
        return Err(RenameError::SamePath);
    }

    let mut info = NameExchange::new();
    info.f1.is_exist = true;
    info.f2.is_exist = true;
    info.f1.is_file = is_file1;
    info.f2.is_file = is_file2;

    let original_paths = GetPathInfo {
        path1: path1.clone(),
        path2: path2.clone(),
        is_file1,
        is_file2,
    };

    let (metadata1, metadata2) = original_paths.metadata_collect(is_file1, is_file2);
    info.f1.packed_info = metadata1;
    info.f2.packed_info = metadata2;

    info.f1.exchange.original_path = path1.clone();
    info.f2.exchange.original_path = path2.clone();

    let (pre1, new1) = NameExchange::make_name(
        &info.f1.packed_info.parent_dir,
        &info.f2.packed_info.name,
        &info.f1.packed_info.ext,
        existing,
    );
    info.f1.exchange.pre_path = pre1;
    info.f1.exchange.new_path = new1;

    let (pre2, new2) = NameExchange::make_name(
        &info.f2.packed_info.parent_dir,
        &info.f1.packed_info.name,
        &info.f2.packed_info.ext,
        existing,
    );
    info.f2.exchange.pre_path = pre2;
    info.f2.exchange.new_path = new2;

    let new_path_conflict_1 = crate::path_text::contains_path_str(
        existing,
        info.f1.exchange.new_path.as_str(),
    );
    let new_path_conflict_2 = crate::path_text::contains_path_str(
        existing,
        info.f2.exchange.new_path.as_str(),
    );
    let new_paths = GetPathInfo {
        path1: info.f1.exchange.new_path.clone(),
        path2: info.f2.exchange.new_path.clone(),
        is_file1,
        is_file2,
    };
    let same_parent = new_paths.if_same_dir();

    if !same_parent && (new_path_conflict_1 || new_path_conflict_2) {
        return Err(RenameError::AlreadyExists);
    }

    let mode = original_paths.if_root();
    let (is_nested, file1_first) = select_strategy(is_file1, is_file2, mode);
    let ops = info.rename_each(is_nested, file1_first);

    Ok(ExchangeDecision { info, is_nested, file1_first, ops })
}

/// Exchanging twice restores both original paths: after a first exchange
/// gives each entry the other's base name, planning the exchange of the two
/// new paths hands each entry its own base name back. This holds whenever
/// the borrowed base names and kept extensions recombine cleanly, which
/// excludes only entries whose reglued names split differently, such as a
/// file without an extension borrowing a dotted name.
pub proof fn lemma_double_exchange_restores(p1: Seq<char>, p2: Seq<char>, f1: bool, f2: bool)
    requires
        wf_path(p1),
        wf_path(p2),
        recombines(stem_spec(p2, f2), ext_spec(p1, f1), f1),
        recombines(stem_spec(p1, f1), ext_spec(p2, f2), f2),
    ensures
        new_path_spec(
            new_path_spec(p1, p2, f1, f2),
            new_path_spec(p2, p1, f2, f1),
            f1,
            f2,
        ) == p1,
        new_path_spec(
            new_path_spec(p2, p1, f2, f1),
            new_path_spec(p1, p2, f1, f2),
            f2,
            f1,
        ) == p2,
{
    let n1 = new_path_spec(p1, p2, f1, f2);
    let n2 = new_path_spec(p2, p1, f2, f1);
    lemma_split_join(p1);
    lemma_split_join(p2);
    lemma_stem_ext_no_slash(file_name_spec(p1), f1);
    lemma_stem_ext_no_slash(file_name_spec(p2), f2);
    lemma_has_char_concat(stem_spec(p2, f2), ext_spec(p1, f1), '/');
    lemma_has_char_concat(stem_spec(p1, f1), ext_spec(p2, f2), '/');
    crate::path_text::lemma_last_index_of_props(file_name_spec(p1), '.');
    crate::path_text::lemma_last_index_of_props(file_name_spec(p2), '.');
    assert(stem_spec(p1, f1).len() > 0);
    assert(stem_spec(p2, f2).len() > 0);
    lemma_join_split(parent_spec(p1), stem_spec(p2, f2) + ext_spec(p1, f1));
    lemma_join_split(parent_spec(p2), stem_spec(p1, f1) + ext_spec(p2, f2));
    lemma_stem_ext_glue(file_name_spec(p1), f1);
    lemma_stem_ext_glue(file_name_spec(p2), f2);
    assert(stem_spec(n1, f1) == stem_spec(p2, f2));
    assert(ext_spec(n1, f1) == ext_spec(p1, f1));
    assert(stem_spec(n2, f2) == stem_spec(p1, f1));
    assert(ext_spec(n2, f2) == ext_spec(p2, f2));
    assert(new_path_spec(n1, n2, f1, f2) == join_spec(parent_spec(p1), file_name_spec(p1)));
    assert(new_path_spec(n2, n1, f2, f1) == join_spec(parent_spec(p2), file_name_spec(p2)));
}

} // verus!
