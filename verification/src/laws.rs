//! The guarantees the checker gives, stated and proved once and for all:
//! one violation per unguarded declaration, soundness of every record,
//! source order, safety of `var`, and that wrapping a declaration in a
//! block removes exactly its violation.

use vstd::prelude::*;

use crate::checker::{
    clause_records, clause_records_upto, is_unguarded_decl, switch_records, switch_records_upto,
};
use crate::tree::{StatementNode, ViolationLoc};

verus! {

/// The number of unguarded declarations among the first `n` statements of
/// a clause.
pub open spec fn clause_decl_count_upto(stmts: Seq<StatementNode>, n: int) -> nat
    decreases n,
{
    if n <= 0 {
        0
    } else {
        clause_decl_count_upto(stmts, n - 1) + if is_unguarded_decl(stmts[n - 1]) {
            1nat
        } else {
            0nat
        }
    }
}

/// The number of unguarded declarations directly in a clause's statement
/// list.
pub open spec fn clause_decl_count(stmts: Seq<StatementNode>) -> nat {
    clause_decl_count_upto(stmts, stmts.len() as int)
}

/// The number of unguarded declarations among the first `m` clauses.
pub open spec fn switch_decl_count_upto(cls: Seq<Seq<StatementNode>>, m: int) -> nat
    decreases m,
{
    if m <= 0 {
        0
    } else {
        switch_decl_count_upto(cls, m - 1) + clause_decl_count(cls[m - 1])
    }
}

/// The number of statements of declaration kind (`let`/`const`, class,
/// function) standing directly in some clause of the switch.
pub open spec fn switch_decl_count(cls: Seq<Seq<StatementNode>>) -> nat {
    switch_decl_count_upto(cls, cls.len() as int)
}

/// `a` stands strictly before `b` in source order: in an earlier clause,
/// or earlier within the same clause.
pub open spec fn precedes(a: ViolationLoc, b: ViolationLoc) -> bool {
    a.clause < b.clause || (a.clause == b.clause && a.statement < b.statement)
}

proof fn lemma_clause_upto(ci: int, stmts: Seq<StatementNode>, n: int)
    ensures
        ({
            let r = clause_records_upto(ci, stmts, n);
            &&& r.len() == clause_decl_count_upto(stmts, n)
            &&& forall|k: int|
                0 <= k < r.len() ==> (#[trigger] r[k]).clause == ci && 0 <= r[k].statement < n
                    && is_unguarded_decl(stmts[r[k].statement])
            &&& forall|k1: int, k2: int|
                0 <= k1 < k2 < r.len() ==> (#[trigger] r[k1]).statement
                    < (#[trigger] r[k2]).statement
            &&& forall|j: int|
                0 <= j < n && is_unguarded_decl(#[trigger] stmts[j]) ==> exists|k: int|
                    0 <= k < r.len() && #[trigger] r[k] == ViolationLoc {
                        clause: ci,
                        statement: j,
                    }
        }),
    decreases n,
{
    if n > 0 {
        lemma_clause_upto(ci, stmts, n - 1);
        let r0 = clause_records_upto(ci, stmts, n - 1);
        let r = clause_records_upto(ci, stmts, n);
        assert forall|j: int| 0 <= j < n && is_unguarded_decl(#[trigger] stmts[j]) implies exists|
            k: int,
        |
            0 <= k < r.len() && #[trigger] r[k] == ViolationLoc {
                clause: ci,
                statement: j,
            } by {
            if j < n - 1 {
                let k = choose|k: int|
                    0 <= k < r0.len() && #[trigger] r0[k] == ViolationLoc {
                        clause: ci,
                        statement: j,
                    };
                assert(r[k] == ViolationLoc { clause: ci, statement: j });
            } else {
                assert(r[r0.len() as int] == ViolationLoc { clause: ci, statement: j });
            }
        }
    }
}

proof fn lemma_switch_upto(cls: Seq<Seq<StatementNode>>, m: int)
    ensures
        ({
            let r = switch_records_upto(cls, m);
            &&& r.len() == switch_decl_count_upto(cls, m)
            &&& forall|k: int|
                0 <= k < r.len() ==> 0 <= (#[trigger] r[k]).clause < m && 0 <= r[k].statement
                    < cls[r[k].clause].len() && is_unguarded_decl(cls[r[k].clause][r[k].statement])
            &&& forall|k1: int, k2: int|
                0 <= k1 < k2 < r.len() ==> precedes(#[trigger] r[k1], #[trigger] r[k2])
            &&& forall|ci: int, si: int|
                0 <= ci < m && 0 <= si < cls[ci].len() && is_unguarded_decl(
                    #[trigger] cls[ci][si],
                ) ==> exists|k: int|
                    0 <= k < r.len() && #[trigger] r[k] == ViolationLoc {
                        clause: ci,
                        statement: si,
                    }
        }),
    decreases m,
{
    if m > 0 {
        lemma_switch_upto(cls, m - 1);
        lemma_clause_upto(m - 1, cls[m - 1], cls[m - 1].len() as int);
        let r0 = switch_records_upto(cls, m - 1);
        let rc = clause_records(m - 1, cls[m - 1]);
        let r = switch_records_upto(cls, m);
        assert forall|ci: int, si: int|
            0 <= ci < m && 0 <= si < cls[ci].len() && is_unguarded_decl(
                #[trigger] cls[ci][si],
            ) implies exists|k: int|
            0 <= k < r.len() && #[trigger] r[k] == ViolationLoc {
                clause: ci,
                statement: si,
            } by {
            if ci < m - 1 {
                let k = choose|k: int|
                    0 <= k < r0.len() && #[trigger] r0[k] == ViolationLoc {
                        clause: ci,
                        statement: si,
                    };
                assert(r[k] == ViolationLoc { clause: ci, statement: si });
            } else {
                let k = choose|k: int|
                    0 <= k < rc.len() && #[trigger] rc[k] == ViolationLoc {
                        clause: m - 1,
                        statement: si,
                    };
                assert(r[r0.len() + k] == ViolationLoc { clause: ci, statement: si });
            }
        }
    }
}

/// The checker reports exactly one violation per unguarded declaration:
/// the number of records equals the number of statements of declaration
/// kind standing directly in some clause.
pub proof fn lemma_violation_count(cls: Seq<Seq<StatementNode>>)
    ensures
        switch_records(cls).len() == switch_decl_count(cls),
{
    lemma_switch_upto(cls, cls.len() as int);
}

/// Every record points at a real position in the switch, and the statement
/// there is an unguarded declaration: the checker never flags anything
/// else, and never reaches inside a nested block.
pub proof fn lemma_records_point_at_decls(cls: Seq<Seq<StatementNode>>)
    ensures
        ({
            let r = switch_records(cls);
            forall|k: int|
                0 <= k < r.len() ==> 0 <= (#[trigger] r[k]).clause < cls.len() && 0
                    <= r[k].statement < cls[r[k].clause].len() && is_unguarded_decl(
                    cls[r[k].clause][r[k].statement],
                )
        }),
{
    lemma_switch_upto(cls, cls.len() as int);
}

/// Violations come out in source order: clause order first, then statement
/// order within the clause, with no two records at the same position.
pub proof fn lemma_source_order(cls: Seq<Seq<StatementNode>>)
    ensures
        ({
            let r = switch_records(cls);
            forall|k1: int, k2: int|
                0 <= k1 < k2 < r.len() ==> precedes(#[trigger] r[k1], #[trigger] r[k2])
        }),
{
    lemma_switch_upto(cls, cls.len() as int);
}

/// Every unguarded declaration standing directly in a clause's statement
/// list is reported: some record points exactly at it.
pub proof fn lemma_every_decl_flagged(cls: Seq<Seq<StatementNode>>, ci: int, si: int)
    requires
        0 <= ci < cls.len(),
        0 <= si < cls[ci].len(),
        is_unguarded_decl(cls[ci][si]),
    ensures
        (exists|k: int|
            0 <= k < switch_records(cls).len() && #[trigger] switch_records(cls)[k]
                == ViolationLoc { clause: ci, statement: si }),
{
    lemma_switch_upto(cls, cls.len() as int);
    let r = switch_records_upto(cls, cls.len() as int);
    let k = choose|k: int|
        0 <= k < r.len() && #[trigger] r[k] == ViolationLoc { clause: ci, statement: si };
    assert(switch_records(cls)[k] == ViolationLoc { clause: ci, statement: si });
}

/// The switch with the statement at clause `ci`, position `si` replaced by
/// the statement `b` — the shape a scoping fix leaves behind when `b` is a
/// block holding the old statement.
pub open spec fn wrap_in_block(
    cls: Seq<Seq<StatementNode>>,
    ci: int,
    si: int,
    b: StatementNode,
) -> Seq<Seq<StatementNode>> {
    cls.update(ci, cls[ci].update(si, b))
}

/// How many violations of the switch stand strictly before clause `ci`,
/// position `si` in source order.
pub open spec fn records_before(cls: Seq<Seq<StatementNode>>, ci: int, si: int) -> int {
    switch_records_upto(cls, ci).len() + clause_records_upto(ci, cls[ci], si).len() as int
}

proof fn lemma_clause_upto_agrees(ci: int, s1: Seq<StatementNode>, s2: Seq<StatementNode>, n: int)
    requires
        forall|j: int| 0 <= j < n ==> s1[j] == #[trigger] s2[j],
    ensures
        clause_records_upto(ci, s1, n) == clause_records_upto(ci, s2, n),
    decreases n,
{
    if n > 0 {
        lemma_clause_upto_agrees(ci, s1, s2, n - 1);
    }
}

proof fn lemma_switch_upto_agrees(
    c1: Seq<Seq<StatementNode>>,
    c2: Seq<Seq<StatementNode>>,
    m: int,
)
    requires
        forall|j: int| 0 <= j < m ==> c1[j] == #[trigger] c2[j],
    ensures
        switch_records_upto(c1, m) == switch_records_upto(c2, m),
    decreases m,
{
    if m > 0 {
        lemma_switch_upto_agrees(c1, c2, m - 1);
    }
}

proof fn lemma_push_is_insert_at_end<T>(a: Seq<T>, x: T)
    ensures
        a.push(x) == a.insert(a.len() as int, x),
{
    assert(a.push(x) =~= a.insert(a.len() as int, x));
}

proof fn lemma_insert_then_push<T>(a: Seq<T>, k: int, x: T, y: T)
    requires
        0 <= k <= a.len(),
    ensures
        a.insert(k, x).push(y) == a.push(y).insert(k, x),
{
    assert(a.insert(k, x).push(y) =~= a.push(y).insert(k, x));
}

proof fn lemma_prepend_insert<T>(a: Seq<T>, b: Seq<T>, k: int, x: T)
    requires
        0 <= k <= b.len(),
    ensures
        a + b.insert(k, x) == (a + b).insert(a.len() + k, x),
{
    assert(a + b.insert(k, x) =~= (a + b).insert(a.len() + k, x));
}

proof fn lemma_insert_append<T>(a: Seq<T>, b: Seq<T>, k: int, x: T)
    requires
        0 <= k <= a.len(),
    ensures
        a.insert(k, x) + b == (a + b).insert(k, x),
{
    assert(a.insert(k, x) + b =~= (a + b).insert(k, x));
}

proof fn lemma_remove_of_insert<T>(a: Seq<T>, k: int, x: T)
    requires
        0 <= k <= a.len(),
    ensures
        a.insert(k, x).remove(k) == a,
{
    assert(a.insert(k, x).remove(k) =~= a);
}

proof fn lemma_clause_wrap_upto(
    ci: int,
    stmts: Seq<StatementNode>,
    si: int,
    b: StatementNode,
    n: int,
)
    requires
        0 <= si < n <= stmts.len(),
        is_unguarded_decl(stmts[si]),
        !is_unguarded_decl(b),
    ensures
        ({
            let k = clause_records_upto(ci, stmts, si).len() as int;
            let rw = clause_records_upto(ci, stmts.update(si, b), n);
            &&& k <= rw.len()
            &&& clause_records_upto(ci, stmts, n) == rw.insert(
                k,
                ViolationLoc { clause: ci, statement: si },
            )
        }),
    decreases n,
{
    let s2 = stmts.update(si, b);
    let loc = ViolationLoc { clause: ci, statement: si };
    let k = clause_records_upto(ci, stmts, si).len() as int;
    if n == si + 1 {
        lemma_clause_upto_agrees(ci, stmts, s2, si);
        lemma_push_is_insert_at_end(clause_records_upto(ci, stmts, si), loc);
    } else {
        lemma_clause_wrap_upto(ci, stmts, si, b, n - 1);
        if is_unguarded_decl(stmts[n - 1]) {
            lemma_insert_then_push(
                clause_records_upto(ci, s2, n - 1),
                k,
                loc,
                ViolationLoc { clause: ci, statement: n - 1 },
            );
        }
    }
}

proof fn lemma_switch_wrap_upto(
    cls: Seq<Seq<StatementNode>>,
    ci: int,
    si: int,
    b: StatementNode,
    m: int,
)
    requires
        0 <= ci < m <= cls.len(),
        0 <= si < cls[ci].len(),
        is_unguarded_decl(cls[ci][si]),
        !is_unguarded_decl(b),
    ensures
        ({
            let k = records_before(cls, ci, si);
            let rw = switch_records_upto(wrap_in_block(cls, ci, si, b), m);
            &&& 0 <= k <= rw.len()
            &&& switch_records_upto(cls, m) == rw.insert(
                k,
                ViolationLoc { clause: ci, statement: si },
            )
        }),
    decreases m,
{
    let cls2 = wrap_in_block(cls, ci, si, b);
    let loc = ViolationLoc { clause: ci, statement: si };
    let k = records_before(cls, ci, si);
    if m == ci + 1 {
        lemma_switch_upto_agrees(cls, cls2, ci);
        lemma_clause_wrap_upto(ci, cls[ci], si, b, cls[ci].len() as int);
        assert(cls2[ci] == cls[ci].update(si, b));
        assert(cls2[ci].len() == cls[ci].len());
        lemma_prepend_insert(
            switch_records_upto(cls, ci),
            clause_records(ci, cls2[ci]),
            clause_records_upto(ci, cls[ci], si).len() as int,
            loc,
        );
    } else {
        lemma_switch_wrap_upto(cls, ci, si, b, m - 1);
        assert(cls2[m - 1] == cls[m - 1]);
        lemma_insert_append(
            switch_records_upto(cls2, m - 1),
            clause_records(m - 1, cls2[m - 1]),
            k,
            loc,
        );
    }
}

/// Wrapping an unguarded declaration in its own block removes exactly that
/// one violation: the records of the rewritten switch are the records of
/// the original with the record for the wrapped statement taken out, and
/// every other record is untouched.
pub proof fn lemma_wrap_in_block(cls: Seq<Seq<StatementNode>>, ci: int, si: int, b: StatementNode)
    requires
        0 <= ci < cls.len(),
        0 <= si < cls[ci].len(),
        is_unguarded_decl(cls[ci][si]),
        b is BlockStatement,
    ensures
        ({
            let r = switch_records(cls);
            let rw = switch_records(wrap_in_block(cls, ci, si, b));
            let k = records_before(cls, ci, si);
            &&& 0 <= k < r.len()
            &&& r[k] == ViolationLoc { clause: ci, statement: si }
            &&& rw == r.remove(k)
        }),
{
    let cls2 = wrap_in_block(cls, ci, si, b);
    let loc = ViolationLoc { clause: ci, statement: si };
    let k = records_before(cls, ci, si);
    assert(cls2.len() == cls.len());
    lemma_switch_wrap_upto(cls, ci, si, b, cls.len() as int);
    let rw = switch_records(cls2);
    rw.insert_ensures(k, loc);
    lemma_remove_of_insert(rw, k, loc);
}

/// A `var` declaration standing directly in a clause never produces a
/// violation: no record points at a statement of kind
/// `VariableDeclaration`, whatever its clause or position. (One nested in
/// a block is never even looked at: see `lemma_records_point_at_decls`.)
pub proof fn lemma_var_never_flagged(cls: Seq<Seq<StatementNode>>, ci: int, si: int)
    requires
        0 <= ci < cls.len(),
        0 <= si < cls[ci].len(),
        cls[ci][si] is VariableDeclaration,
    ensures
        ({
            let r = switch_records(cls);
            forall|k: int|
                0 <= k < r.len() ==> !((#[trigger] r[k]).clause == ci && r[k].statement == si)
        }),
{
    lemma_switch_upto(cls, cls.len() as int);
    assert(!is_unguarded_decl(cls[ci][si]));
}

} // verus!
