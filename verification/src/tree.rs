//! The slice of a syntax tree that the checker reads: a switch statement,
//! its clauses, and the statements directly under each clause.

use vstd::prelude::*;

verus! {

/// One statement in a clause's statement list, classified by the kinds the
/// checker distinguishes. Everything else is `Other`.
pub enum StatementNode {
    /// A `let` or `const` declaration: block-scoped, so unguarded use
    /// directly under a clause is a violation.
    LexicalDeclaration,
    /// A class declaration: block-scoped like `let`/`const`.
    ClassDeclaration,
    /// A function declaration.
    FunctionDeclaration,
    /// A `var` declaration: function-scoped and hoisted, so always safe.
    VariableDeclaration,
    /// An explicit `{ ... }` block. It opens a lexical scope of its own, so
    /// the checker never looks at its interior.
    BlockStatement(Vec<StatementNode>),
    /// Any other statement (`break`, an expression, ...): ignored.
    Other,
}

/// One `case <expr>:` or `default:` arm together with the statements that
/// follow its colon, in source order.
pub struct ClauseNode {
    /// True for a `default:` arm, false for a `case` arm. The checker
    /// treats both alike; its view therefore drops this flag.
    pub is_default: bool,
    /// The statements directly under this clause, in source order.
    pub statements: Vec<StatementNode>,
}

/// A `switch (...) { ... }` statement: its arms in source order.
pub struct SwitchNode {
    pub clauses: Vec<ClauseNode>,
}

/// Where a violation sits inside the checked switch, as mathematical
/// integers: the view of a `ViolationRecord`.
pub struct ViolationLoc {
    pub clause: int,
    pub statement: int,
}

/// One reported violation. It anchors the offending declaration inside the
/// switch that was checked: the index of its clause, and the index of the
/// statement within that clause's statement list.
#[derive(Clone, Copy, Debug, PartialEq, Eq, Structural)]
pub struct ViolationRecord {
    pub clause_index: usize,
    pub statement_index: usize,
}

impl View for ViolationRecord {
    type V = ViolationLoc;

    open spec fn view(&self) -> ViolationLoc {
        ViolationLoc { clause: self.clause_index as int, statement: self.statement_index as int }
    }
}

impl View for ClauseNode {
    type V = Seq<StatementNode>;

    open spec fn view(&self) -> Seq<StatementNode> {
        self.statements@
    }
}

impl View for SwitchNode {
    type V = Seq<Seq<StatementNode>>;

    open spec fn view(&self) -> Seq<Seq<StatementNode>> {
        self.clauses@.map_values(|c: ClauseNode| c@)
    }
}

} // verus!
