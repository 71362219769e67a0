//! The name planner and the rename sequencer's plan: temporary names that
//! collide with nothing, final names that borrow the other entry's base
//! name, and the ordered rename operations of the chosen strategy.

use vstd::prelude::*;
use vstd::string::*;

use crate::path_text::{
    char_repeat, concat_strs, contains_path_str, join_path, join_spec, lemma_max_len, max_len,
    taken_contains,
};
use crate::types::{FileInfos, NameExchange, PrepareName, RenameOp};

verus! {

/// The fixed sentinel token that opens every temporary name. It is long and
/// arbitrary enough that a collision with an unrelated entry is an oddity,
/// and the planner extends it until the collision is gone.
pub open spec fn temp_token_spec() -> Seq<char> {
    "1C6FD285BEDCC274F"@
}

/// The temporary name candidate of rank `n`: the sentinel token, extended by
/// `n` filler digits, carrying the borrowed extension, joined to the target
/// directory.
pub open spec fn temp_candidate_spec(dir: Seq<char>, ext: Seq<char>, n: nat) -> Seq<char> {
    join_spec(dir, temp_token_spec() + char_repeat('9', n) + ext)
}

/// The rename operations of one strategy, over the ordered pair of entries.
/// The direct strategy renames the first-ordered entry to its final name and
/// then the second; the temp-mediated strategy first moves the second-ordered
/// entry aside to its temporary name, renames the first to its final name,
/// and then brings the second from the temporary name to its final name.
pub open spec fn plan_matches(
    ops: Seq<RenameOp>,
    first: PrepareName,
    second: PrepareName,
    is_nested: bool,
) -> bool {
    if is_nested {
        &&& ops.len() == 2
        &&& ops[0].from@ == first.original_path@
        &&& ops[0].to@ == first.new_path@
        &&& ops[1].from@ == second.original_path@
        &&& ops[1].to@ == second.new_path@
    } else {
        &&& ops.len() == 3
        &&& ops[0].from@ == second.original_path@
        &&& ops[0].to@ == second.pre_path@
        &&& ops[1].from@ == first.original_path@
        &&& ops[1].to@ == first.new_path@
        &&& ops[2].from@ == second.pre_path@
        &&& ops[2].to@ == second.new_path@
    }
}

impl NameExchange {
    /// Fresh exchange state for both entries, every field at its initial
    /// value.
    pub fn new() -> (r: NameExchange)
        ensures
            crate::types::infos_is_empty(r.f1),
            crate::types::infos_is_empty(r.f2),
    {
        NameExchange { f1: FileInfos::default(), f2: FileInfos::default() }
    }

    /// Plan the two names of one entry inside `dir`: the final name, which
    /// borrows `other_name` and keeps `ext`, and a temporary name built from
    /// the sentinel token and extended, rank by rank, past every collision
    /// with the paths listed in `taken`.
    pub fn make_name(dir: &String, other_name: &String, ext: &String, taken: &Vec<String>) -> (r:
        (String, String))
        ensures
            r.1@ == join_spec(dir@, other_name@ + ext@),
            !taken_contains(taken.deep_view(), r.0@),
            exists|n: nat|
                r.0@ == temp_candidate_spec(dir@, ext@, n) && (forall|m: nat|
                    m < n ==> taken_contains(
                        taken.deep_view(),
                        temp_candidate_spec(dir@, ext@, m),
                    )),
    {
        let new_name = join_path(dir.as_str(), concat_strs(other_name.as_str(), ext.as_str()).as_str());

        let mut token = "1C6FD285BEDCC274F".to_owned();
        let ghost mut n: nat = 0;
        proof {
            assert(temp_token_spec() + char_repeat('9', 0) =~= token@);
        }
        let mut pre_name = join_path(dir.as_str(), concat_strs(token.as_str(), ext.as_str()).as_str());
        proof {
            assert(temp_token_spec() + char_repeat('9', 0) + ext@ =~= token@ + ext@);
            lemma_max_len(taken.deep_view());
        }
        while contains_path_str(taken, pre_name.as_str())
            invariant
                token@ == temp_token_spec() + char_repeat('9', n),
                pre_name@ == temp_candidate_spec(dir@, ext@, n),
                forall|m: nat|
                    m < n ==> taken_contains(taken.deep_view(), temp_candidate_spec(dir@, ext@, m)),
                max_len(taken.deep_view()) >= 0,
                forall|i: int|
                    0 <= i < taken.deep_view().len() ==> taken.deep_view()[i].len() <= max_len(
                        taken.deep_view(),
                    ),
            decreases max_len(taken.deep_view()) + 1 - pre_name@.len(),
        {
            token.append("9");
            proof {
                n = n + 1;
                assert(temp_token_spec() + char_repeat('9', (n - 1) as nat) + "9"@
                    =~= temp_token_spec() + char_repeat('9', n)) by {
                    reveal_strlit("9");
                    assert(char_repeat('9', (n - 1) as nat).push('9') =~= char_repeat('9', n));
                }
            }
            pre_name = join_path(dir.as_str(), concat_strs(token.as_str(), ext.as_str()).as_str());
            proof {
                assert(temp_token_spec() + char_repeat('9', n) + ext@ =~= token@ + ext@);
            }
        }
        proof {
            assert(pre_name@ == temp_candidate_spec(dir@, ext@, n));
        }
        (pre_name, new_name)
    }

    /// The ordered rename operations of the chosen strategy. `is_nested`
    /// selects the direct two-step plan over the temp-mediated three-step
    /// plan, and `file1_first` says which entry is ordered first.
    pub fn rename_each(&self, is_nested: bool, file1_first: bool) -> (r: Vec<RenameOp>)
        ensures
            plan_matches(
                r@,
                (if file1_first {
                    self.f1.exchange
                } else {
                    self.f2.exchange
                }),
                (if file1_first {
                    self.f2.exchange
                } else {
                    self.f1.exchange
                }),
                is_nested,
            ),
    {
        let first = if file1_first {
            &self.f1.exchange
        } else {
            &self.f2.exchange
        };
        let second = if file1_first {
            &self.f2.exchange
        } else {
            &self.f1.exchange
        };
        let mut ops: Vec<RenameOp> = Vec::new();
        if is_nested {
            ops.push(RenameOp { from: first.original_path.clone(), to: first.new_path.clone() });
            ops.push(RenameOp { from: second.original_path.clone(), to: second.new_path.clone() });
        } else {
            ops.push(RenameOp { from: second.original_path.clone(), to: second.pre_path.clone() });
            ops.push(RenameOp { from: first.original_path.clone(), to: first.new_path.clone() });
            ops.push(RenameOp { from: second.pre_path.clone(), to: second.new_path.clone() });
        }
        ops
    }
}

} // verus!
