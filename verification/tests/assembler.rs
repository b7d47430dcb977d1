use emulator::errors::AsmError;
use emulator::lexer::{assemble, Lexer};

#[test]
fn empty_source_assembles_to_empty_program() {
    assert_eq!(assemble(""), Ok(vec![]));
}

#[test]
fn mov_constant_to_register_encoding() {
    // MOV opcode, constant tag, 258 big-endian, register tag, AX.
    assert_eq!(assemble("mov 258 ax"), Ok(vec![13, 2, 0, 0, 1, 2, 1, 1]));
}

#[test]
fn negative_constant_is_twos_complement_big_endian() {
    assert_eq!(assemble("mov -1 ax"), Ok(vec![13, 2, 255, 255, 255, 255, 1, 1]));
}

#[test]
fn arithmetic_on_registers_encoding() {
    // ADD, then three register operands AX BX CX.
    assert_eq!(assemble("add ax bx cx"), Ok(vec![1, 1, 1, 1, 2, 1, 3]));
}

#[test]
fn label_resolves_to_byte_offset() {
    // "mov 5 ax" is eight bytes wide, so the label stands at offset 8.
    assert_eq!(
        assemble("mov 5 ax\n.here\njmp .here"),
        Ok(vec![13, 2, 0, 0, 0, 5, 1, 1, 6, 2, 0, 0, 0, 8])
    );
}

#[test]
fn leading_label_resolves_to_zero() {
    assert_eq!(assemble(".l\njmp .l"), Ok(vec![6, 2, 0, 0, 0, 0]));
}

#[test]
fn later_duplicate_label_wins() {
    // The first ".x" stands at 0, the second after the one-byte "add".
    assert_eq!(assemble(".x\nadd\n.x\njmp .x"), Ok(vec![1, 6, 2, 0, 0, 0, 1]));
}

#[test]
fn undefined_label_is_unresolved() {
    assert_eq!(assemble("jmp .nowhere"), Err(AsmError::UnresolvedLabel));
}

#[test]
fn jump_without_target_is_unresolved() {
    assert_eq!(assemble("jne"), Err(AsmError::UnresolvedLabel));
}

#[test]
fn label_defined_after_use_still_resolves() {
    assert_eq!(assemble("jmp .end\n.end"), Ok(vec![6, 2, 0, 0, 0, 6]));
}

#[test]
fn trailing_digit_garbage_is_malformed() {
    assert_eq!(assemble("mov 12x ax"), Err(AsmError::MalformedLiteral));
}

#[test]
fn bare_minus_is_malformed() {
    assert_eq!(assemble("mov - ax"), Err(AsmError::MalformedLiteral));
}

#[test]
fn literal_above_i32_max_is_malformed() {
    assert_eq!(assemble("mov 2147483648 ax"), Err(AsmError::MalformedLiteral));
}

#[test]
fn literal_i32_min_is_accepted() {
    assert_eq!(assemble("mov -2147483648 ax"), Ok(vec![13, 2, 128, 0, 0, 0, 1, 1]));
}

#[test]
fn literal_i32_max_is_accepted() {
    assert_eq!(assemble("mov 2147483647 ax"), Ok(vec![13, 2, 127, 255, 255, 255, 1, 1]));
}

#[test]
fn word_that_fits_no_category_is_unexpected() {
    assert_eq!(assemble("foo"), Err(AsmError::UnexpectedToken));
}

#[test]
fn repeated_separators_are_skipped() {
    assert_eq!(assemble("mov  5 \n\n ax"), Ok(vec![13, 2, 0, 0, 0, 5, 1, 1]));
}

#[test]
fn lexer_generate_matches_assemble() {
    let mut lexer = Lexer::new("add ax bx cx");
    assert_eq!(lexer.generate(), Ok(vec![1, 1, 1, 1, 2, 1, 3]));
}

#[test]
fn all_jump_mnemonics_encode_their_opcodes() {
    assert_eq!(assemble(".l\njmp .l"), Ok(vec![6, 2, 0, 0, 0, 0]));
    assert_eq!(assemble(".l\njeq .l"), Ok(vec![7, 2, 0, 0, 0, 0]));
    assert_eq!(assemble(".l\njne .l"), Ok(vec![8, 2, 0, 0, 0, 0]));
    assert_eq!(assemble(".l\njgt .l"), Ok(vec![9, 2, 0, 0, 0, 0]));
    assert_eq!(assemble(".l\njlt .l"), Ok(vec![10, 2, 0, 0, 0, 0]));
    assert_eq!(assemble(".l\njge .l"), Ok(vec![11, 2, 0, 0, 0, 0]));
    assert_eq!(assemble(".l\njle .l"), Ok(vec![12, 2, 0, 0, 0, 0]));
}

#[test]
fn all_register_names_encode_their_ids() {
    assert_eq!(
        assemble("cnd ax bx cnd cx dx cnd ex fx"),
        Ok(vec![5, 1, 1, 1, 2, 5, 1, 3, 1, 4, 5, 1, 5, 1, 6])
    );
}
