//! The boolean-filter rule of CSG nodes: every operation and flag
//! combination of the truth table, plus construction basics.
use ray_tracer_challenge::csg::{csg, intersection_allowed};
use ray_tracer_challenge::shapes::{cube, sphere};

#[test]
fn test_csg_01_evaluating_the_rule_for_a_csg_operation_ex00() {
    // Evaluating the rule for a CSG operation
    let result = intersection_allowed("union", &true, &true, &true);
    assert_eq!(result, false);
}

#[test]
fn test_csg_01_evaluating_the_rule_for_a_csg_operation_ex01() {
    // Evaluating the rule for a CSG operation
    let result = intersection_allowed("union", &true, &true, &false);
    assert_eq!(result, true);
}

#[test]
fn test_csg_01_evaluating_the_rule_for_a_csg_operation_ex02() {
    // Evaluating the rule for a CSG operation
    let result = intersection_allowed("union", &true, &false, &true);
    assert_eq!(result, false);
}

#[test]
fn test_csg_01_evaluating_the_rule_for_a_csg_operation_ex03() {
    // Evaluating the rule for a CSG operation
    let result = intersection_allowed("union", &true, &false, &false);
    assert_eq!(result, true);
}

#[test]
fn test_csg_01_evaluating_the_rule_for_a_csg_operation_ex04() {
    // Evaluating the rule for a CSG operation
    let result = intersection_allowed("union", &false, &true, &true);
    assert_eq!(result, false);
}

#[test]
fn test_csg_01_evaluating_the_rule_for_a_csg_operation_ex05() {
    // Evaluating the rule for a CSG operation
    let result = intersection_allowed("union", &false, &true, &false);
    assert_eq!(result, false);
}

#[test]
fn test_csg_01_evaluating_the_rule_for_a_csg_operation_ex06() {
    // Evaluating the rule for a CSG operation
    let result = intersection_allowed("union", &false, &false, &true);
    assert_eq!(result, true);
}

#[test]
fn test_csg_01_evaluating_the_rule_for_a_csg_operation_ex07() {
    // Evaluating the rule for a CSG operation
    let result = intersection_allowed("union", &false, &false, &false);
    assert_eq!(result, true);
}

#[test]
fn test_csg_01_evaluating_the_rule_for_a_csg_operation_ex08() {
    // Evaluating the rule for a CSG operation
    let result = intersection_allowed("intersection", &true, &true, &true);
    assert_eq!(result, true);
}

#[test]
fn test_csg_01_evaluating_the_rule_for_a_csg_operation_ex09() {
    // Evaluating the rule for a CSG operation
    let result = intersection_allowed("intersection", &true, &true, &false);
    assert_eq!(result, false);
}

#[test]
fn test_csg_01_evaluating_the_rule_for_a_csg_operation_ex10() {
    // Evaluating the rule for a CSG operation
    let result = intersection_allowed("intersection", &true, &false, &true);
    assert_eq!(result, true);
}

#[test]
fn test_csg_01_evaluating_the_rule_for_a_csg_operation_ex11() {
    // Evaluating the rule for a CSG operation
    let result = intersection_allowed("intersection", &true, &false, &false);
    assert_eq!(result, false);
}

#[test]
fn test_csg_01_evaluating_the_rule_for_a_csg_operation_ex12() {
    // Evaluating the rule for a CSG operation
    let result = intersection_allowed("intersection", &false, &true, &true);
    assert_eq!(result, true);
}

#[test]
fn test_csg_01_evaluating_the_rule_for_a_csg_operation_ex13() {
    // Evaluating the rule for a CSG operation
    let result = intersection_allowed("intersection", &false, &true, &false);
    assert_eq!(result, true);
}

#[test]
fn test_csg_01_evaluating_the_rule_for_a_csg_operation_ex14() {
    // Evaluating the rule for a CSG operation
    let result = intersection_allowed("intersection", &false, &false, &true);
    assert_eq!(result, false);
}

#[test]
fn test_csg_01_evaluating_the_rule_for_a_csg_operation_ex15() {
    // Evaluating the rule for a CSG operation
    let result = intersection_allowed("intersection", &false, &false, &false);
    assert_eq!(result, false);
}

#[test]
fn test_csg_01_evaluating_the_rule_for_a_csg_operation_ex16() {
    // Evaluating the rule for a CSG operation
    let result = intersection_allowed("difference", &true, &true, &true);
    assert_eq!(result, false);
}

#[test]
fn test_csg_01_evaluating_the_rule_for_a_csg_operation_ex17() {
    // Evaluating the rule for a CSG operation
    let result = intersection_allowed("difference", &true, &true, &false);
    assert_eq!(result, true);
}

#[test]
fn test_csg_01_evaluating_the_rule_for_a_csg_operation_ex18() {
    // Evaluating the rule for a CSG operation
    let result = intersection_allowed("difference", &true, &false, &true);
    assert_eq!(result, false);
}

#[test]
fn test_csg_01_evaluating_the_rule_for_a_csg_operation_ex19() {
    // Evaluating the rule for a CSG operation
    let result = intersection_allowed("difference", &true, &false, &false);
    assert_eq!(result, true);
}

#[test]
fn test_csg_01_evaluating_the_rule_for_a_csg_operation_ex20() {
    // Evaluating the rule for a CSG operation
    let result = intersection_allowed("difference", &false, &true, &true);
    assert_eq!(result, true);
}

#[test]
fn test_csg_01_evaluating_the_rule_for_a_csg_operation_ex21() {
    // Evaluating the rule for a CSG operation
    let result = intersection_allowed("difference", &false, &true, &false);
    assert_eq!(result, true);
}

#[test]
fn test_csg_01_evaluating_the_rule_for_a_csg_operation_ex22() {
    // Evaluating the rule for a CSG operation
    let result = intersection_allowed("difference", &false, &false, &true);
    assert_eq!(result, false);
}

#[test]
fn test_csg_01_evaluating_the_rule_for_a_csg_operation_ex23() {
    // Evaluating the rule for a CSG operation
    let result = intersection_allowed("difference", &false, &false, &false);
    assert_eq!(result, false);
}

#[test]
fn test_csg_00_csg_is_created_with_an_operation_and_two_shapes() {
    // CSG is created with an operation and two shapes
    let s1 = sphere();
    let s2 = cube();
    let c = csg("union", s1, s2);
    assert_eq!(c.operation(), "union");
    assert!(matches!(c.left().shape_type, ray_tracer_challenge::shapes::ShapeType::Sphere(_)));
    assert!(matches!(c.right().shape_type, ray_tracer_challenge::shapes::ShapeType::Cube(_)));
}
