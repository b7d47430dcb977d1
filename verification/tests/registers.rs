use emulator::errors::ExecError;
use emulator::mem::Mem;

#[test]
fn set_then_get_roundtrip_all_registers() {
    for reg in 1u8..=6u8 {
        let mut m = Mem::new();
        let val = 1000 + reg as i32;
        assert!(m.set_reg(reg, val).is_ok());
        assert_eq!(m.get_reg(reg).unwrap(), val);
    }
}

#[test]
fn set_then_get_roundtrip_negative_value() {
    let mut m = Mem::new();
    assert!(m.set_reg(3, -77).is_ok());
    assert_eq!(m.get_reg(3).unwrap(), -77);
}

#[test]
fn fresh_registers_are_zero() {
    let m = Mem::new();
    for reg in 1u8..=6u8 {
        assert_eq!(m.get_reg(reg).unwrap(), 0);
    }
}

#[test]
fn get_unknown_register_fails() {
    let m = Mem::new();
    assert_eq!(m.get_reg(0), Err(ExecError::UnknownRegister(0)));
    assert_eq!(m.get_reg(7), Err(ExecError::UnknownRegister(7)));
    assert_eq!(m.get_reg(255), Err(ExecError::UnknownRegister(255)));
}

#[test]
fn set_unknown_register_fails_and_mutates_nothing() {
    let mut m = Mem::new();
    assert!(m.set_reg(2, 42).is_ok());
    assert_eq!(m.set_reg(0, 9), Err(ExecError::UnknownRegister(0)));
    assert_eq!(m.set_reg(7, 9), Err(ExecError::UnknownRegister(7)));
    for reg in 1u8..=6u8 {
        let expected = if reg == 2 { 42 } else { 0 };
        assert_eq!(m.get_reg(reg).unwrap(), expected);
    }
}

#[test]
fn write_one_register_leaves_others_alone() {
    let mut m = Mem::new();
    assert!(m.set_reg(5, 11).is_ok());
    assert_eq!(m.get_reg(1).unwrap(), 0);
    assert_eq!(m.get_reg(2).unwrap(), 0);
    assert_eq!(m.get_reg(3).unwrap(), 0);
    assert_eq!(m.get_reg(4).unwrap(), 0);
    assert_eq!(m.get_reg(5).unwrap(), 11);
    assert_eq!(m.get_reg(6).unwrap(), 0);
}
