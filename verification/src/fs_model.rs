//! A model of the filesystem namespace the rename plans act on: a map from
//! paths to content identities. A rename moves the content at one path to
//! another path. Over this model the temp-mediated plan is proved to swap
//! the two entries' names and to leave every other entry untouched, and the
//! rollbacks of a partially run plan are proved to restore the original
//! state. `apply_rename` treats each entry's path as a whole, which is
//! faithful for entries with no nesting relationship; for the nested pairs
//! that take the direct strategy, `apply_rename_tree` models how a rename
//! carries the whole subtree under the moved path along, and the direct
//! plan is proved to keep the contained entry's content.

use vstd::prelude::*;

use crate::exchange::{decision_ok, new_path_spec};
use crate::path_text::{contains_spec, taken_contains};
use crate::types::{ExchangeDecision, RenameOp};

verus! {

/// One rename applied to the namespace: when `from` is present, its content
/// moves to `to`, overwriting whatever was there; when `from` is absent the
/// call fails and the namespace is unchanged.
pub open spec fn apply_rename(
    fs: Map<Seq<char>, nat>,
    from: Seq<char>,
    to: Seq<char>,
) -> Map<Seq<char>, nat> {
    if fs.dom().contains(from) {
        fs.remove(from).insert(to, fs[from])
    } else {
        fs
    }
}

/// A plan applied to the namespace, one rename after the other.
pub open spec fn apply_ops(fs: Map<Seq<char>, nat>, ops: Seq<RenameOp>) -> Map<Seq<char>, nat>
    decreases ops.len(),
{
    if ops.len() == 0 {
        fs
    } else {
        apply_ops(apply_rename(fs, ops[0].from@, ops[0].to@), ops.subrange(1, ops.len() as int))
    }
}

/// Undoing a rename restores the namespace, provided the rename moved the
/// content onto a fresh path.
pub proof fn lemma_rename_roundtrip(fs: Map<Seq<char>, nat>, from: Seq<char>, to: Seq<char>)
    requires
        fs.dom().contains(from),
        !fs.dom().contains(to),
    ensures
        apply_rename(apply_rename(fs, from, to), to, from) == fs,
{
    assert(apply_rename(apply_rename(fs, from, to), to, from) =~= fs);
}

/// The temp-mediated strategy swaps the two names. Entry `a` is ordered
/// first and entry `b` second: `b` moves aside to its temporary path, `a`
/// moves to its final path, and `b` follows to its own final path. When
/// the temporary path is fresh and neither final path collides with an
/// unrelated entry, the result holds `a`'s content under its final path,
/// `b`'s content under its final path, and every other entry unchanged.
pub proof fn lemma_temp_plan_swaps(
    fs: Map<Seq<char>, nat>,
    orig_a: Seq<char>,
    new_a: Seq<char>,
    orig_b: Seq<char>,
    pre_b: Seq<char>,
    new_b: Seq<char>,
)
    requires
        fs.dom().contains(orig_a),
        fs.dom().contains(orig_b),
        orig_a != orig_b,
        !fs.dom().contains(pre_b),
        pre_b != new_a,
        pre_b != new_b,
        new_a != new_b,
        !fs.remove(orig_a).remove(orig_b).dom().contains(new_a),
        !fs.remove(orig_a).remove(orig_b).dom().contains(new_b),
    ensures
        apply_rename(apply_rename(apply_rename(fs, orig_b, pre_b), orig_a, new_a), pre_b, new_b)
            == fs.remove(orig_a).remove(orig_b).insert(new_a, fs[orig_a]).insert(
            new_b,
            fs[orig_b],
        ),
{
    let fs1 = apply_rename(fs, orig_b, pre_b);
    let fs2 = apply_rename(fs1, orig_a, new_a);
    let fs3 = apply_rename(fs2, pre_b, new_b);
    assert(fs1.dom().contains(orig_a));
    assert(fs2.dom().contains(pre_b));
    assert(fs3 =~= fs.remove(orig_a).remove(orig_b).insert(new_a, fs[orig_a]).insert(
        new_b,
        fs[orig_b],
    ));
}

/// Rolling back the first two steps of the temp-mediated strategy restores
/// the namespace: entry `a` returns from its final path to its original
/// path, then entry `b` returns from its temporary path to its original
/// path.
pub proof fn lemma_temp_rollback_restores(
    fs: Map<Seq<char>, nat>,
    orig_a: Seq<char>,
    new_a: Seq<char>,
    orig_b: Seq<char>,
    pre_b: Seq<char>,
)
    requires
        fs.dom().contains(orig_a),
        fs.dom().contains(orig_b),
        orig_a != orig_b,
        !fs.dom().contains(pre_b),
        pre_b != new_a,
        !fs.remove(orig_a).remove(orig_b).dom().contains(new_a),
    ensures
        apply_rename(
            apply_rename(
                apply_rename(apply_rename(fs, orig_b, pre_b), orig_a, new_a),
                new_a,
                orig_a,
            ),
            pre_b,
            orig_b,
        ) == fs,
{
    let fs1 = apply_rename(fs, orig_b, pre_b);
    let fs2 = apply_rename(fs1, orig_a, new_a);
    assert(fs1.dom().contains(orig_a));
    assert(!fs1.dom().contains(new_a) || new_a == orig_a);
    assert(apply_rename(fs2, new_a, orig_a) =~= fs1);
    lemma_rename_roundtrip(fs, orig_b, pre_b);
}

/// True when renaming the subtree at `from` moves the entry at `k`: the
/// moved path itself, or anything inside its subtree.
pub open spec fn moves_with(from: Seq<char>, k: Seq<char>) -> bool {
    k == from || contains_spec(from, k)
}

/// The path `k`, rebased from the subtree at `from` to the subtree at `to`.
pub open spec fn rebase(from: Seq<char>, to: Seq<char>, k: Seq<char>) -> Seq<char> {
    to + k.skip(from.len() as int)
}

/// One rename applied to the whole subtree at `from`: the entry at `from`
/// and everything inside it reappear at the corresponding paths under `to`,
/// and every other entry keeps its place. It describes a rename that
/// succeeded onto a destination subtree that held nothing of its own.
pub open spec fn apply_rename_tree(
    fs: Map<Seq<char>, nat>,
    from: Seq<char>,
    to: Seq<char>,
) -> Map<Seq<char>, nat> {
    Map::new(
        |k: Seq<char>|
            if moves_with(to, k) {
                fs.dom().contains(rebase(to, from, k))
            } else {
                fs.dom().contains(k) && !moves_with(from, k)
            },
        |k: Seq<char>|
            if moves_with(to, k) {
                fs[rebase(to, from, k)]
            } else {
                fs[k]
            },
    )
}

/// The direct strategy loses nothing when one entry contains the other:
/// the contained entry moves first to its final path inside the containing
/// entry, the containing entry then moves to its own final path and carries
/// its subtree along, so the containing entry's content sits at its final
/// path and the contained entry's content at that final path extended by
/// its own new base name.
pub proof fn lemma_direct_nested_preserves_content(
    fs: Map<Seq<char>, nat>,
    p1: Seq<char>,
    n1: Seq<char>,
    p2: Seq<char>,
    n2: Seq<char>,
)
    requires
        fs.dom().contains(p1),
        fs.dom().contains(p2),
        contains_spec(p1, p2),
        n2.len() > p1.len(),
        n2.subrange(0, p1.len() as int) == p1,
        n2[p1.len() as int] == '/',
    ensures
        apply_rename_tree(apply_rename_tree(fs, p2, n2), p1, n1).dom().contains(n1),
        apply_rename_tree(apply_rename_tree(fs, p2, n2), p1, n1)[n1] == fs[p1],
        apply_rename_tree(apply_rename_tree(fs, p2, n2), p1, n1).dom().contains(
            rebase(p1, n1, n2),
        ),
        apply_rename_tree(apply_rename_tree(fs, p2, n2), p1, n1)[rebase(p1, n1, n2)] == fs[p2],
{
    let fs1 = apply_rename_tree(fs, p2, n2);
    let g = apply_rename_tree(fs1, p1, n1);
    let q = rebase(p1, n1, n2);

    assert(rebase(n2, p2, n2) =~= p2);
    assert(fs1.dom().contains(n2) && fs1[n2] == fs[p2]);

    assert(!moves_with(n2, p1) && !moves_with(p2, p1));
    assert(fs1.dom().contains(p1) && fs1[p1] == fs[p1]);

    assert(rebase(n1, p1, n1) =~= p1);
    assert(g.dom().contains(n1) && g[n1] == fs1[p1]);

    assert(q.subrange(0, n1.len() as int) =~= n1);
    assert(q[n1.len() as int] == n2[p1.len() as int]);
    assert(moves_with(n1, q));
    assert(rebase(n1, p1, q) =~= n2);
    assert(g.dom().contains(q) && g[q] == fs1[n2]);
}

/// What a successful non-nested exchange does to the namespace: the plan
/// the orchestrator returned, applied to a namespace that the directory
/// listing covered, moves the first entry's content under its final path,
/// the second entry's content under its final path, and leaves every other
/// entry — in particular the rest of both parent directories — unchanged.
pub proof fn lemma_decision_swaps(
    fs: Map<Seq<char>, nat>,
    d: ExchangeDecision,
    p1: Seq<char>,
    p2: Seq<char>,
    f1: bool,
    f2: bool,
    taken: Seq<Seq<char>>,
)
    requires
        decision_ok(d, p1, p2, f1, f2, taken),
        !d.is_nested,
        fs.dom().contains(p1),
        fs.dom().contains(p2),
        p1 != p2,
        forall|q: Seq<char>| fs.dom().contains(q) ==> taken_contains(taken, q),
        new_path_spec(p1, p2, f1, f2) != new_path_spec(p2, p1, f2, f1),
        d.info.f1.exchange.pre_path@ != new_path_spec(p1, p2, f1, f2),
        d.info.f1.exchange.pre_path@ != new_path_spec(p2, p1, f2, f1),
        d.info.f2.exchange.pre_path@ != new_path_spec(p1, p2, f1, f2),
        d.info.f2.exchange.pre_path@ != new_path_spec(p2, p1, f2, f1),
        !fs.remove(p1).remove(p2).dom().contains(new_path_spec(p1, p2, f1, f2)),
        !fs.remove(p1).remove(p2).dom().contains(new_path_spec(p2, p1, f2, f1)),
    ensures
        apply_ops(fs, d.ops@) == fs.remove(p1).remove(p2).insert(
            new_path_spec(p1, p2, f1, f2),
            fs[p1],
        ).insert(new_path_spec(p2, p1, f2, f1), fs[p2]),
        apply_ops(fs, d.ops@)[new_path_spec(p1, p2, f1, f2)] == fs[p1],
        apply_ops(fs, d.ops@)[new_path_spec(p2, p1, f2, f1)] == fs[p2],
        forall|q: Seq<char>|
            fs.dom().contains(q) && q != p1 && q != p2 ==> apply_ops(fs, d.ops@).dom().contains(q)
                && apply_ops(fs, d.ops@)[q] == fs[q],
{
    let n1 = new_path_spec(p1, p2, f1, f2);
    let n2 = new_path_spec(p2, p1, f2, f1);
    let ops = d.ops@;
    let rest1 = ops.subrange(1, ops.len() as int);
    let rest2 = rest1.subrange(1, rest1.len() as int);
    let rest3 = rest2.subrange(1, rest2.len() as int);
    assert(rest1[0] == ops[1]);
    assert(rest1[1] == ops[2]);
    assert(rest2[0] == ops[2]);
    assert(rest3.len() == 0);
    let m1 = apply_rename(fs, ops[0].from@, ops[0].to@);
    let m2 = apply_rename(m1, ops[1].from@, ops[1].to@);
    let m3 = apply_rename(m2, ops[2].from@, ops[2].to@);
    assert(apply_ops(fs, ops) == apply_ops(m1, rest1));
    assert(apply_ops(m1, rest1) == apply_ops(m2, rest2));
    assert(apply_ops(m2, rest2) == apply_ops(m3, rest3));
    assert(apply_ops(m3, rest3) == m3);
    if d.file1_first {
        let pre2 = d.info.f2.exchange.pre_path@;
        assert(!fs.dom().contains(pre2));
        lemma_temp_plan_swaps(fs, p1, n1, p2, pre2, n2);
        assert(m1 == apply_rename(fs, p2, pre2));
        assert(m2 == apply_rename(apply_rename(fs, p2, pre2), p1, n1));
        assert(m3 == apply_rename(apply_rename(apply_rename(fs, p2, pre2), p1, n1), pre2, n2));
    } else {
        let pre1 = d.info.f1.exchange.pre_path@;
        assert(!fs.dom().contains(pre1));
        lemma_temp_plan_swaps(fs, p2, n2, p1, pre1, n1);
        assert(m1 == apply_rename(fs, p1, pre1));
        assert(m2 == apply_rename(apply_rename(fs, p1, pre1), p2, n2));
        assert(m3 == apply_rename(apply_rename(apply_rename(fs, p1, pre1), p2, n2), pre1, n1));
        assert(fs.remove(p2).remove(p1).insert(n2, fs[p2]).insert(n1, fs[p1]) =~= fs.remove(
            p1,
        ).remove(p2).insert(n1, fs[p1]).insert(n2, fs[p2]));
    }
}

} // verus!
