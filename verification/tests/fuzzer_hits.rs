//! Cases that once crashed the integer interpreter.
use tardi::consts::MachineWord;
use tardi::instr::OpCode;
use tardi::interpreter::Interpreter;

#[test]
fn div_by_zero() {
    let program = vec![OpCode::PushZero.into(), OpCode::Div.into()];
    let mut int = Interpreter::new(program, vec![]);
    int.execute();
}

#[test]
fn mod_div_by_zero() {
    let program = vec![OpCode::PushZero.into(), OpCode::ModDiv.into()];
    let mut int = Interpreter::new(program, vec![]);
    int.execute();
}

#[test]
fn negative_sqrt() {
    let program = vec![
        OpCode::PushIn.into(),
        OpCode::Sqrt.into(),
        OpCode::PopOut.into(),
    ];
    let mut int = Interpreter::new(program, vec![-25 as MachineWord]);
    int.execute();
    assert_eq!(
        vec![5 as MachineWord],
        int.output(),
        "sqrt of negative number should be the sqrt of its magnitude"
    );
}

#[test]
fn mul_ovfl() {
    let program = vec![
        OpCode::PushIn.into(),
        OpCode::PushIn.into(),
        OpCode::Mul.into(),
        OpCode::PopOut.into(),
    ];
    let mut int = Interpreter::new(program, vec![MachineWord::MAX, 2 as MachineWord]);
    int.execute();
    assert_eq!(
        vec![-2 as MachineWord],
        int.output(),
        "integer multiplication should be wrapping"
    );
}

#[test]
fn add_ovfl() {
    let program = vec![
        OpCode::PushIn.into(),
        OpCode::PushIn.into(),
        OpCode::Add.into(),
        OpCode::PopOut.into(),
    ];
    let mut int = Interpreter::new(program, vec![MachineWord::MAX, 2 as MachineWord]);
    int.execute();
    assert_eq!(
        vec![MachineWord::MIN + 1 as MachineWord],
        int.output(),
        "integer addition should be wrapping"
    );
}

#[test]
fn sub_unfl() {
    let program = vec![
        OpCode::PushIn.into(),
        OpCode::PushIn.into(),
        OpCode::Sub.into(),
        OpCode::PopOut.into(),
    ];
    let mut int = Interpreter::new(program, vec![2 as MachineWord, MachineWord::MIN]);
    int.execute();
    assert_eq!(
        vec![MachineWord::MAX - 1 as MachineWord],
        int.output(),
        "integer subtraction should be wrapping"
    );
}

#[test]
fn jump_tos() {
    let program = vec![OpCode::PushIn.into(), OpCode::JmpTos.into()];
    let mut int = Interpreter::new(program, vec![MachineWord::MIN]);
    int.execute();
}

#[test]
fn neg() {
    let program = vec![
        OpCode::PushIn.into(),
        OpCode::Neg.into(),
        OpCode::PopOut.into(),
    ];
    let mut int = Interpreter::new(program, vec![MachineWord::MIN]);
    int.execute();
    assert_eq!(
        vec![MachineWord::MAX],
        int.output(),
        "neg of MIN should saturate to MAX"
    );
}

#[test]
fn abs() {
    let program = vec![
        OpCode::PushIn.into(),
        OpCode::Abs.into(),
        OpCode::PopOut.into(),
    ];
    let mut int = Interpreter::new(program, vec![MachineWord::MIN]);
    int.execute();
    assert_eq!(
        vec![MachineWord::MAX],
        int.output(),
        "abs of MIN should saturate to MAX"
    );
}
