use no_case_declarations::checker::{check_switch, is_unguarded_declaration};
use no_case_declarations::tree::{ClauseNode, StatementNode, SwitchNode, ViolationRecord};

fn case_clause(statements: Vec<StatementNode>) -> ClauseNode {
    ClauseNode { is_default: false, statements }
}

fn default_clause(statements: Vec<StatementNode>) -> ClauseNode {
    ClauseNode { is_default: true, statements }
}

fn violation(clause_index: usize, statement_index: usize) -> ViolationRecord {
    ViolationRecord { clause_index, statement_index }
}

#[test]
fn let_directly_in_case_is_flagged() {
    // switch (foo) { case 1: let x = 1; break; }
    let node = SwitchNode {
        clauses: vec![case_clause(vec![
            StatementNode::LexicalDeclaration,
            StatementNode::Other,
        ])],
    };
    assert_eq!(check_switch(&node), vec![violation(0, 0)]);
}

#[test]
fn const_directly_in_case_is_flagged() {
    // switch (foo) { case 2: const y = 2; break; }
    let node = SwitchNode {
        clauses: vec![case_clause(vec![
            StatementNode::LexicalDeclaration,
            StatementNode::Other,
        ])],
    };
    assert_eq!(check_switch(&node), vec![violation(0, 0)]);
}

#[test]
fn function_directly_in_case_is_flagged() {
    // switch (foo) { case 3: function f() {}; break; }
    let node = SwitchNode {
        clauses: vec![case_clause(vec![
            StatementNode::FunctionDeclaration,
            StatementNode::Other,
        ])],
    };
    assert_eq!(check_switch(&node), vec![violation(0, 0)]);
}

#[test]
fn class_directly_in_default_is_flagged() {
    // switch (foo) { default: class C {} }
    let node = SwitchNode {
        clauses: vec![default_clause(vec![StatementNode::ClassDeclaration])],
    };
    assert_eq!(check_switch(&node), vec![violation(0, 0)]);
}

#[test]
fn let_in_case_before_empty_default_is_flagged_once() {
    // switch (foo) { case 1: let x = 1; break; default: break; }
    let node = SwitchNode {
        clauses: vec![
            case_clause(vec![StatementNode::LexicalDeclaration, StatementNode::Other]),
            default_clause(vec![StatementNode::Other]),
        ],
    };
    assert_eq!(check_switch(&node), vec![violation(0, 0)]);
}

#[test]
fn block_wrapped_let_is_not_flagged() {
    // switch (foo) { case 1: { let x = 1; break; } }
    let node = SwitchNode {
        clauses: vec![case_clause(vec![StatementNode::BlockStatement(vec![
            StatementNode::LexicalDeclaration,
            StatementNode::Other,
        ])])],
    };
    assert_eq!(check_switch(&node), Vec::new());
}

#[test]
fn block_wrapped_const_is_not_flagged() {
    // switch (foo) { case 2: { const y = 2; break; } }
    let node = SwitchNode {
        clauses: vec![case_clause(vec![StatementNode::BlockStatement(vec![
            StatementNode::LexicalDeclaration,
            StatementNode::Other,
        ])])],
    };
    assert_eq!(check_switch(&node), Vec::new());
}

#[test]
fn block_wrapped_function_is_not_flagged() {
    // switch (foo) { case 3: { function f() {} break; } }
    let node = SwitchNode {
        clauses: vec![case_clause(vec![StatementNode::BlockStatement(vec![
            StatementNode::FunctionDeclaration,
            StatementNode::Other,
        ])])],
    };
    assert_eq!(check_switch(&node), Vec::new());
}

#[test]
fn block_wrapped_class_is_not_flagged() {
    // switch (foo) { case 1: { class C {} } }
    let node = SwitchNode {
        clauses: vec![case_clause(vec![StatementNode::BlockStatement(vec![
            StatementNode::ClassDeclaration,
        ])])],
    };
    assert_eq!(check_switch(&node), Vec::new());
}

#[test]
fn var_in_case_is_not_flagged() {
    // switch (foo) { case 1: var z = 4; break; }
    let node = SwitchNode {
        clauses: vec![case_clause(vec![
            StatementNode::VariableDeclaration,
            StatementNode::Other,
        ])],
    };
    assert_eq!(check_switch(&node), Vec::new());
}

#[test]
fn block_wrapped_let_before_empty_default_is_not_flagged() {
    // switch (foo) { case 1: { let x = 1; break; } default: break; }
    let node = SwitchNode {
        clauses: vec![
            case_clause(vec![StatementNode::BlockStatement(vec![
                StatementNode::LexicalDeclaration,
                StatementNode::Other,
            ])]),
            default_clause(vec![StatementNode::Other]),
        ],
    };
    assert_eq!(check_switch(&node), Vec::new());
}

#[test]
fn var_before_empty_default_is_not_flagged() {
    // switch (foo) { case 1: var x = 3; break; default: break; }
    let node = SwitchNode {
        clauses: vec![
            case_clause(vec![StatementNode::VariableDeclaration, StatementNode::Other]),
            default_clause(vec![StatementNode::Other]),
        ],
    };
    assert_eq!(check_switch(&node), Vec::new());
}

#[test]
fn empty_switch_has_no_violations() {
    // switch (x) { }
    let node = SwitchNode { clauses: Vec::new() };
    assert_eq!(check_switch(&node), Vec::new());
}

#[test]
fn clauses_without_statements_have_no_violations() {
    // switch (x) { case 1: default: }
    let node = SwitchNode {
        clauses: vec![case_clause(Vec::new()), default_clause(Vec::new())],
    };
    assert_eq!(check_switch(&node), Vec::new());
}

#[test]
fn three_declarations_flagged_in_clause_order() {
    // switch (x) { case 1: const a = 1; case 2: class C {} default: function f() {} }
    let node = SwitchNode {
        clauses: vec![
            case_clause(vec![StatementNode::LexicalDeclaration]),
            case_clause(vec![StatementNode::ClassDeclaration]),
            default_clause(vec![StatementNode::FunctionDeclaration]),
        ],
    };
    assert_eq!(
        check_switch(&node),
        vec![violation(0, 0), violation(1, 0), violation(2, 0)]
    );
}

#[test]
fn two_declarations_in_one_clause_are_each_flagged() {
    // switch (x) { case 1: let a = 1; class C {} }
    let node = SwitchNode {
        clauses: vec![case_clause(vec![
            StatementNode::LexicalDeclaration,
            StatementNode::ClassDeclaration,
        ])],
    };
    assert_eq!(check_switch(&node), vec![violation(0, 0), violation(0, 1)]);
}

#[test]
fn violation_count_matches_unguarded_declarations() {
    // One violation per unguarded declaration, none for anything else:
    // switch (x) {
    //     case 1: var v = 0; let a = 1; { class B {} } x += 1; function f() {}
    //     default: class C {} break;
    // }
    let node = SwitchNode {
        clauses: vec![
            case_clause(vec![
                StatementNode::VariableDeclaration,
                StatementNode::LexicalDeclaration,
                StatementNode::BlockStatement(vec![StatementNode::ClassDeclaration]),
                StatementNode::Other,
                StatementNode::FunctionDeclaration,
            ]),
            default_clause(vec![StatementNode::ClassDeclaration, StatementNode::Other]),
        ],
    };
    let records = check_switch(&node);
    assert_eq!(records.len(), 3);
    assert_eq!(
        records,
        vec![violation(0, 1), violation(0, 4), violation(1, 0)]
    );
}

#[test]
fn wrapping_a_declaration_removes_only_its_violation() {
    // Before: switch (x) { case 1: let a = 1; default: class C {} }
    let before = SwitchNode {
        clauses: vec![
            case_clause(vec![StatementNode::LexicalDeclaration]),
            default_clause(vec![StatementNode::ClassDeclaration]),
        ],
    };
    assert_eq!(check_switch(&before), vec![violation(0, 0), violation(1, 0)]);

    // After wrapping the `let` in its own block, only the class remains.
    let after = SwitchNode {
        clauses: vec![
            case_clause(vec![StatementNode::BlockStatement(vec![
                StatementNode::LexicalDeclaration,
            ])]),
            default_clause(vec![StatementNode::ClassDeclaration]),
        ],
    };
    assert_eq!(check_switch(&after), vec![violation(1, 0)]);
}

#[test]
fn block_interior_is_never_scanned() {
    // switch (x) { case 1: { let a = 1; class C {} function f() {} } let b = 2; }
    let node = SwitchNode {
        clauses: vec![case_clause(vec![
            StatementNode::BlockStatement(vec![
                StatementNode::LexicalDeclaration,
                StatementNode::ClassDeclaration,
                StatementNode::FunctionDeclaration,
            ]),
            StatementNode::LexicalDeclaration,
        ])],
    };
    assert_eq!(check_switch(&node), vec![violation(0, 1)]);
}

#[test]
fn other_statements_are_ignored() {
    // switch (x) { case 1: x += 1; break; }
    let node = SwitchNode {
        clauses: vec![case_clause(vec![StatementNode::Other, StatementNode::Other])],
    };
    assert_eq!(check_switch(&node), Vec::new());
}

#[test]
fn classifier_matches_declaration_kinds() {
    assert!(is_unguarded_declaration(&StatementNode::LexicalDeclaration));
    assert!(is_unguarded_declaration(&StatementNode::ClassDeclaration));
    assert!(is_unguarded_declaration(&StatementNode::FunctionDeclaration));
    assert!(!is_unguarded_declaration(&StatementNode::VariableDeclaration));
    assert!(!is_unguarded_declaration(&StatementNode::BlockStatement(Vec::new())));
    assert!(!is_unguarded_declaration(&StatementNode::Other));
}
