use clue_solver::cache::{refresh, refresh_safe};
use clue_solver::constraints::{Constraint, Ops, Solvable, SolvedState, Token};
use clue_solver::element::{Element, ElementIdentifier, ElementState, ElementType, Elements,
    ProcesResult};

fn id(element_type: ElementType, index: usize) -> ElementIdentifier {
    ElementIdentifier { element_type, index }
}

fn leaf(element_type: ElementType, index: usize) -> Token {
    Token::Element(id(element_type, index))
}

/// The end-to-end scenario registry: locations [Kitchen, Library], people
/// [Green, White], weapons [Knife, Rope], all `Unknown`.
fn registry() -> Elements {
    Elements {
        locations: vec![
            Element::new("Kitchen".to_string()),
            Element::new("Library".to_string()),
        ],
        people: vec![Element::new("Green".to_string()), Element::new("White".to_string())],
        weapons: vec![Element::new("Knife".to_string()), Element::new("Rope".to_string())],
        max_name_length: 7,
    }
}

#[test]
fn tokenize_three_leaves() {
    let tokens = clue_solver::tokenize::tokenize("w1 | l3 | p5").unwrap();
    assert_eq!(
        tokens,
        vec![
            leaf(ElementType::Weapon, 0),
            Token::Op(Ops::Or),
            leaf(ElementType::Location, 2),
            Token::Op(Ops::Or),
            leaf(ElementType::Person, 4),
        ]
    );
}

#[test]
fn tokenize_unknown_section() {
    assert_eq!(clue_solver::tokenize::tokenize("q1|w2"), Err(ProcesResult::InvalidSection));
}

#[test]
fn tokenize_missing_index() {
    assert_eq!(clue_solver::tokenize::tokenize("w|w2"), Err(ProcesResult::InvalidIndex));
}

#[test]
fn tokenize_zero_index_clamps() {
    let tokens = clue_solver::tokenize::tokenize("w0 | l1").unwrap();
    assert_eq!(
        tokens,
        vec![leaf(ElementType::Weapon, 0), Token::Op(Ops::Or), leaf(ElementType::Location, 0)]
    );
}

#[test]
fn tokenize_adjacent_operators_collapse() {
    let tokens = clue_solver::tokenize::tokenize(" p2||p7 ").unwrap();
    assert_eq!(
        tokens,
        vec![
            leaf(ElementType::Person, 1),
            Token::Op(Ops::Or),
            Token::Op(Ops::Or),
            leaf(ElementType::Person, 6),
        ]
    );
}

#[test]
fn tokenize_whitespace_inside_operand() {
    let tokens = clue_solver::tokenize::tokenize("w 1 | l 2").unwrap();
    assert_eq!(
        tokens,
        vec![leaf(ElementType::Weapon, 0), Token::Op(Ops::Or), leaf(ElementType::Location, 1)]
    );
}

#[test]
fn tokenize_unicode_whitespace_skipped() {
    let tokens = clue_solver::tokenize::tokenize("w1\u{00A0}| l2").unwrap();
    assert_eq!(
        tokens,
        vec![leaf(ElementType::Weapon, 0), Token::Op(Ops::Or), leaf(ElementType::Location, 1)]
    );
}

#[test]
fn tokenize_overflowing_index_rejected() {
    assert_eq!(
        clue_solver::tokenize::tokenize("w99999999999999999999999|l1"),
        Err(ProcesResult::InvalidIndex)
    );
}

#[test]
fn tokenize_ignores_after_digits() {
    let tokens = clue_solver::tokenize::tokenize("w1x|l2").unwrap();
    assert_eq!(
        tokens,
        vec![leaf(ElementType::Weapon, 0), Token::Op(Ops::Or), leaf(ElementType::Location, 1)]
    );
}

#[test]
fn parse_single_leaf_rejected() {
    assert_eq!(Constraint::parse("w1").unwrap_err(), ProcesResult::InvalidConstraint);
}

#[test]
fn parse_empty_rejected() {
    assert_eq!(Constraint::parse("").unwrap_err(), ProcesResult::InvalidConstraint);
}

#[test]
fn parse_dangling_operator_rejected() {
    assert_eq!(Constraint::parse("w1 |").unwrap_err(), ProcesResult::InvalidConstraint);
    assert_eq!(Constraint::parse("| w1").unwrap_err(), ProcesResult::InvalidConstraint);
    assert_eq!(Constraint::parse("w1 || l2").unwrap_err(), ProcesResult::InvalidConstraint);
}

#[test]
fn parse_single_leaf_tokens_rejected() {
    let tokens = vec![leaf(ElementType::Weapon, 0)];
    assert_eq!(clue_solver::tree::parse(tokens).unwrap_err(), ProcesResult::InvalidConstraint);
}

#[test]
fn parse_builds_left_associated_tree() {
    let c = Constraint::parse("w1 | l3 | p5").unwrap();
    let expected = Token::Tree(
        Ops::Or,
        Box::new(Token::Tree(
            Ops::Or,
            Box::new(leaf(ElementType::Weapon, 0)),
            Box::new(leaf(ElementType::Location, 2)),
        )),
        Box::new(leaf(ElementType::Person, 4)),
    );
    assert_eq!(*c.tree(), expected);
}

#[test]
fn flatten_keeps_leaf_order() {
    let c = Constraint::parse("w1 | l3 | p5").unwrap();
    let tree = c.tree();
    let flat = tree.flatten_tree();
    assert_eq!(flat.len(), 3);
    assert_eq!(*flat[0], leaf(ElementType::Weapon, 0));
    assert_eq!(*flat[1], leaf(ElementType::Location, 2));
    assert_eq!(*flat[2], leaf(ElementType::Person, 4));
}

#[test]
fn solveable_counts_unresolved_leaves() {
    let mut elements = registry();
    let c = Constraint::parse("w1 | l1").unwrap();

    // Both leaves unknown: nothing can be concluded.
    assert_eq!(c.solveable(&elements), Solvable::No);

    // One leaf fixed: the other is the unique unresolved leaf.
    elements.set_state(&id(ElementType::Weapon, 0), ElementState::Dismissed);
    assert_eq!(c.solveable(&elements), Solvable::Yes(id(ElementType::Location, 0)));

    // Both fixed: nothing left to resolve.
    elements.set_state(&id(ElementType::Location, 0), ElementState::Confirmed);
    assert_eq!(c.solveable(&elements), Solvable::AlreadySolved);
}

#[test]
fn solveable_duplicate_unknown_leaf_is_no() {
    let elements = registry();
    let c = Constraint::parse("w1 | w1").unwrap();
    assert_eq!(c.solveable(&elements), Solvable::No);
}

#[test]
fn scenario_forced_confirmed() {
    let mut elements = registry();
    elements.set_state(&id(ElementType::Weapon, 0), ElementState::Dismissed);

    let c = Constraint::parse("w1 | l1").unwrap();
    assert_eq!(c.solveable(&elements), Solvable::Yes(id(ElementType::Location, 0)));
    assert_eq!(c.solve(&elements), Ok((id(ElementType::Location, 0), SolvedState::Confirmed)));
}

#[test]
fn scenario_already_solved() {
    let mut elements = registry();
    elements.set_state(&id(ElementType::Weapon, 0), ElementState::Dismissed);
    elements.set_state(&id(ElementType::Location, 0), ElementState::Confirmed);

    let c = Constraint::parse("w1 | l1").unwrap();
    assert_eq!(c.solveable(&elements), Solvable::AlreadySolved);
    assert_eq!(c.solve(&elements), Err(Solvable::AlreadySolved));
}

#[test]
fn solve_any_when_clue_already_holds() {
    let mut elements = registry();
    elements.set_state(&id(ElementType::Weapon, 0), ElementState::Confirmed);

    let c = Constraint::parse("w1 | l1").unwrap();
    assert_eq!(c.solve(&elements), Ok((id(ElementType::Location, 0), SolvedState::Any)));
}

#[test]
fn solve_propagates_no() {
    let elements = registry();
    let c = Constraint::parse("w1 | l1").unwrap();
    assert_eq!(c.solve(&elements), Err(Solvable::No));
}

#[test]
fn refresh_fills_cache_and_unsolved() {
    let mut elements = registry();
    elements.set_state(&id(ElementType::Weapon, 0), ElementState::Dismissed);

    let solved = Constraint::parse("w1 | l1").unwrap();
    let open = Constraint::parse("p1 | p2").unwrap();
    let constraints = vec![solved.clone(), open.clone()];

    assert!(refresh_safe(&constraints, &elements));
    let (cache, unsolved) = refresh(&constraints, &elements);

    assert_eq!(cache.get(&id(ElementType::Location, 0)), Some(SolvedState::Confirmed));
    assert_eq!(cache.get(&id(ElementType::Person, 0)), None);
    assert_eq!(cache.len(), 1);

    assert!(unsolved.contains(&open));
    assert!(!unsolved.contains(&solved));
    assert_eq!(unsolved.len(), 1);
}

#[test]
fn refresh_twice_yields_identical_contents() {
    let mut elements = registry();
    elements.set_state(&id(ElementType::Weapon, 0), ElementState::Dismissed);

    let constraints = vec![
        Constraint::parse("w1 | l1").unwrap(),
        Constraint::parse("p1 | p2").unwrap(),
        Constraint::parse("w1 | w2").unwrap(),
    ];

    assert!(refresh_safe(&constraints, &elements));
    let (cache_a, unsolved_a) = refresh(&constraints, &elements);
    let (cache_b, unsolved_b) = refresh(&constraints, &elements);

    assert_eq!(cache_a.len(), cache_b.len());
    assert_eq!(unsolved_a.len(), unsolved_b.len());
    for t in [ElementType::Weapon, ElementType::Location, ElementType::Person] {
        for i in 0..2 {
            assert_eq!(cache_a.get(&id(t, i)), cache_b.get(&id(t, i)));
        }
    }
    for c in &constraints {
        assert_eq!(unsolved_a.contains(c), unsolved_b.contains(c));
    }
}

#[test]
fn refresh_safe_rejects_out_of_range_leaf() {
    let mut elements = registry();
    elements.set_state(&id(ElementType::Weapon, 0), ElementState::Dismissed);

    // The unique unresolved leaf w9 lies outside the two-weapon registry.
    let constraints = vec![Constraint::parse("w9 | w1").unwrap()];
    assert!(!refresh_safe(&constraints, &elements));
}

#[test]
fn get_state_out_of_range_is_unknown() {
    let elements = registry();
    assert_eq!(elements.get_state(&id(ElementType::Weapon, 9)), ElementState::Unknown);
}

#[test]
fn set_state_out_of_range_is_ignored() {
    let mut elements = registry();
    elements.set_state(&id(ElementType::Weapon, 9), ElementState::Confirmed);
    assert_eq!(elements.get_state(&id(ElementType::Weapon, 9)), ElementState::Unknown);
    assert_eq!(elements.get_state(&id(ElementType::Weapon, 0)), ElementState::Unknown);
}

#[test]
fn process_action_updates_state() {
    let mut elements = registry();
    assert_eq!(elements.process_action("l1c"), None);
    assert_eq!(elements.get_state(&id(ElementType::Location, 0)), ElementState::Confirmed);
    assert_eq!(elements.process_action("l1d"), None);
    assert_eq!(elements.get_state(&id(ElementType::Location, 0)), ElementState::Dismissed);
    assert_eq!(elements.process_action("l1u"), None);
    assert_eq!(elements.get_state(&id(ElementType::Location, 0)), ElementState::Unknown);
}

#[test]
fn process_action_rejects_non_actions() {
    let mut elements = registry();
    assert_eq!(elements.process_action(""), Some(None));
    assert_eq!(elements.process_action("x1c"), Some(None));
    assert_eq!(elements.process_action("lc"), Some(None));
    assert_eq!(elements.process_action("l1"), Some(None));
    assert_eq!(elements.process_action("l1x"), Some(None));
}

#[test]
fn process_action_overflowing_index_is_not_an_action() {
    let mut elements = registry();
    assert_eq!(elements.process_action("l99999999999999999999999c"), Some(None));
}

#[test]
fn process_action_out_of_range_index() {
    let mut elements = registry();
    assert_eq!(elements.process_action("l9c"), Some(Some("Invalid index".to_string())));
}

#[test]
fn render_identifier() {
    assert_eq!(id(ElementType::Location, 2).render(), "l3");
    assert_eq!(id(ElementType::Weapon, 0).render(), "w1");
    assert_eq!(id(ElementType::Person, 11).render(), "p12");
}

#[test]
fn render_constraint() {
    let c = Constraint::parse("w1|l3|p5").unwrap();
    assert_eq!(c.render(), "w1 | l3 | p5");
}

#[test]
fn error_messages() {
    assert_eq!(ProcesResult::InvalidSection.message(), "Invalid section");
    assert_eq!(ProcesResult::InvalidIndex.message(), "Invalid index");
    assert_eq!(ProcesResult::InvalidConstraint.message(), "Invalid constraint");
}
