use ram::program::Program;
use ram::stmt::{DataOpKind, JumpKind, Label, Op, Operand};

#[test]
fn label_mapping_last_occurrence_wins() {
    let ops = vec![
        Op::Label(String::from("a"), None),
        Op::Halt,
        Op::Label(String::from("b"), None),
        Op::Label(String::from("a"), None),
    ];
    let p = Program::new(ops);
    assert_eq!(p.decode_label(&Label::new(String::from("a"))), Some(3));
    assert_eq!(p.decode_label(&Label::new(String::from("b"))), Some(2));
    assert_eq!(p.decode_label(&Label::new(String::from("c"))), None);
}

#[test]
fn label_mapping_empty_program() {
    let p = Program::new(Vec::new());
    assert_eq!(p.decode_label(&Label::new(String::from("a"))), None);
    assert!(p.get(0).is_none());
}

#[test]
fn get_in_and_out_of_range() {
    let p = Program::new(vec![Op::Halt]);
    assert_eq!(p.get(0), Some(&Op::Halt));
    assert!(p.get(1).is_none());
}

#[test]
fn inject_instruction_shifts_tail_and_remaps() {
    let mut p = Program::new(vec![Op::Label(String::from("x"), None), Op::Halt]);
    assert_eq!(p.decode_label(&Label::new(String::from("x"))), Some(0));
    p.inject_instruction(Op::DataOp(DataOpKind::Load, Operand::Immediate(1), 0), 0);
    assert_eq!(
        p.get(0),
        Some(&Op::DataOp(DataOpKind::Load, Operand::Immediate(1), 0))
    );
    assert_eq!(p.get(1), Some(&Op::Label(String::from("x"), None)));
    assert_eq!(p.get(2), Some(&Op::Halt));
    assert_eq!(p.decode_label(&Label::new(String::from("x"))), Some(1));
}

#[test]
fn inject_instructions_preserves_order() {
    let mut p = Program::new(vec![
        Op::Halt,
        Op::Label(String::from("x"), None),
        Op::Halt,
    ]);
    let spliced = vec![
        Op::Label(String::from("y"), None),
        Op::Jump(JumpKind::Unconditional, Label::new(String::from("x"))),
    ];
    p.inject_instructions(spliced, 1);
    // p[0..1] ++ spliced ++ p[1..3]
    assert_eq!(p.get(0), Some(&Op::Halt));
    assert_eq!(p.get(1), Some(&Op::Label(String::from("y"), None)));
    assert_eq!(
        p.get(2),
        Some(&Op::Jump(
            JumpKind::Unconditional,
            Label::new(String::from("x"))
        ))
    );
    assert_eq!(p.get(3), Some(&Op::Label(String::from("x"), None)));
    assert_eq!(p.get(4), Some(&Op::Halt));
    assert!(p.get(5).is_none());
    // The mapping equals the one computed fresh from the concatenation.
    let fresh = Program::new(vec![
        Op::Halt,
        Op::Label(String::from("y"), None),
        Op::Jump(JumpKind::Unconditional, Label::new(String::from("x"))),
        Op::Label(String::from("x"), None),
        Op::Halt,
    ]);
    assert_eq!(p.labels, fresh.labels);
    assert_eq!(p.decode_label(&Label::new(String::from("y"))), Some(1));
    assert_eq!(p.decode_label(&Label::new(String::from("x"))), Some(3));
}

#[test]
fn rebuild_is_idempotent() {
    let mut p = Program::new(vec![
        Op::Label(String::from("a"), None),
        Op::Label(String::from("a"), None),
        Op::Halt,
    ]);
    p.init_labels();
    let first = p.labels.clone();
    p.init_labels();
    assert_eq!(p.labels, first);
}
