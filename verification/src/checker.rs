//! The check itself: the specification of which violations a switch node
//! holds, and the executable scan proved against it.

use vstd::prelude::*;

use crate::tree::{ClauseNode, StatementNode, SwitchNode, ViolationLoc, ViolationRecord};

verus! {

/// A statement standing directly in a clause is a violation exactly when it
/// is a lexical (`let`/`const`), class or function declaration.
pub open spec fn is_unguarded_decl(s: StatementNode) -> bool {
    match s {
        StatementNode::LexicalDeclaration => true,
        StatementNode::ClassDeclaration => true,
        StatementNode::FunctionDeclaration => true,
        _ => false,
    }
}

/// The violations among the first `n` statements of clause `ci`, in source
/// order.
pub open spec fn clause_records_upto(ci: int, stmts: Seq<StatementNode>, n: int) -> Seq<
    ViolationLoc,
>
    decreases n,
{
    if n <= 0 {
        Seq::empty()
    } else if is_unguarded_decl(stmts[n - 1]) {
        clause_records_upto(ci, stmts, n - 1).push(ViolationLoc { clause: ci, statement: n - 1 })
    } else {
        clause_records_upto(ci, stmts, n - 1)
    }
}

/// All violations of clause `ci`, in source order.
pub open spec fn clause_records(ci: int, stmts: Seq<StatementNode>) -> Seq<ViolationLoc> {
    clause_records_upto(ci, stmts, stmts.len() as int)
}

/// The violations of the first `m` clauses, in source order.
pub open spec fn switch_records_upto(cls: Seq<Seq<StatementNode>>, m: int) -> Seq<ViolationLoc>
    decreases m,
{
    if m <= 0 {
        Seq::empty()
    } else {
        switch_records_upto(cls, m - 1) + clause_records(m - 1, cls[m - 1])
    }
}

/// Every violation of a switch, in source order: clause order first, then
/// statement order within the clause.
pub open spec fn switch_records(cls: Seq<Seq<StatementNode>>) -> Seq<ViolationLoc> {
    switch_records_upto(cls, cls.len() as int)
}

/// The locations that a list of violation records points at.
pub open spec fn locs_of(records: Seq<ViolationRecord>) -> Seq<ViolationLoc> {
    records.map_values(|r: ViolationRecord| r@)
}

proof fn lemma_locs_of_push(records: Seq<ViolationRecord>, r: ViolationRecord)
    ensures
        locs_of(records.push(r)) == locs_of(records).push(r@),
{
    assert(locs_of(records.push(r)) =~= locs_of(records).push(r@));
}

/// Classifies one statement: true exactly for the declarations that must
/// not stand directly in a clause's statement list.
pub fn is_unguarded_declaration(s: &StatementNode) -> (b: bool)
    ensures
        b == is_unguarded_decl(*s),
{
    match s {
        StatementNode::LexicalDeclaration => true,
        StatementNode::ClassDeclaration => true,
        StatementNode::FunctionDeclaration => true,
        _ => false,
    }
}

/// Checks one switch statement. Returns one record per `let`/`const`, class
/// or function declaration standing directly in some clause's statement
/// list, in source order; `var` declarations, blocks (and anything inside
/// them) and all other statements produce nothing.
pub fn check_switch(node: &SwitchNode) -> (r: Vec<ViolationRecord>)
    ensures
        locs_of(r@) == switch_records(node@),
{
    let mut out: Vec<ViolationRecord> = Vec::new();
    let mut ci: usize = 0;
    while ci < node.clauses.len()
        invariant
            ci <= node.clauses.len(),
            locs_of(out@) == switch_records_upto(node@, ci as int),
        decreases node.clauses.len() - ci,
    {
        let clause: &ClauseNode = &node.clauses[ci];
        let mut si: usize = 0;
        while si < clause.statements.len()
            invariant
                ci < node.clauses.len(),
                si <= clause.statements.len(),
                *clause == node.clauses@[ci as int],
                node@[ci as int] == clause.statements@,
                locs_of(out@) == switch_records_upto(node@, ci as int) + clause_records_upto(
                    ci as int,
                    node@[ci as int],
                    si as int,
                ),
            decreases clause.statements.len() - si,
        {
            if is_unguarded_declaration(&clause.statements[si]) {
                let rec = ViolationRecord { clause_index: ci, statement_index: si };
                proof {
                    lemma_locs_of_push(out@, rec);
                }
                out.push(rec);
            }
            si = si + 1;
        }
        ci = ci + 1;
    }
    out
}

} // verus!
