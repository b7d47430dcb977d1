//! The two-pass assembler. Pass one walks the whitespace-delimited
//! tokens of the source, accumulating each token's encoded byte width,
//! and records the running offset wherever a label definition stands.
//! Pass two walks the same tokens again and emits opcode bytes and
//! operand encodings, substituting each jump target's resolved offset.

use vstd::prelude::*;
use vstd::string::StrSliceExecFns;

use crate::consts::{
    ADD, AX, BX, CND, CX, DIV, DX, EX, FX, JEQ, JGE, JGT, JLE, JLT, JMP, JNE, MOV, MUL, SUB,
    TAG_CONST, TAG_REG,
};
use crate::decode::{enc_signed, enc_unsigned, push_be_signed, push_be_unsigned};
use crate::errors::AsmError;

verus! {

/// The characters that delimit tokens.
pub open spec fn is_sep(c: char) -> bool {
    c == ' ' || c == '\n'
}

/// The first position at or after `i` that does not hold a separator,
/// or the end of the text.
pub open spec fn skip_seps(chars: Seq<char>, i: int) -> int
    decreases chars.len() - i,
{
    if 0 <= i < chars.len() && is_sep(chars[i]) {
        skip_seps(chars, i + 1)
    } else {
        i
    }
}

/// The first position at or after `i` that holds a separator, or the
/// end of the text.
pub open spec fn token_end(chars: Seq<char>, i: int) -> int
    decreases chars.len() - i,
{
    if 0 <= i < chars.len() && !is_sep(chars[i]) {
        token_end(chars, i + 1)
    } else {
        i
    }
}

/// `skip_seps` never moves backwards and never leaves the text.
pub proof fn lemma_skip_seps_bounds(chars: Seq<char>, i: int)
    requires
        0 <= i <= chars.len(),
    ensures
        i <= skip_seps(chars, i) <= chars.len(),
        skip_seps(chars, i) < chars.len() ==> !is_sep(chars[skip_seps(chars, i)]),
    decreases chars.len() - i,
{
    if i < chars.len() && is_sep(chars[i]) {
        lemma_skip_seps_bounds(chars, i + 1);
    }
}

/// `token_end` never moves backwards, never leaves the text, and moves
/// at least one position when it starts on a token character.
pub proof fn lemma_token_end_bounds(chars: Seq<char>, i: int)
    requires
        0 <= i <= chars.len(),
    ensures
        i <= token_end(chars, i) <= chars.len(),
        i < chars.len() && !is_sep(chars[i]) ==> token_end(chars, i) >= i + 1,
    decreases chars.len() - i,
{
    if i < chars.len() && !is_sep(chars[i]) {
        lemma_token_end_bounds(chars, i + 1);
    }
}

/// Reads the next token at or after `*pos`, leaving `*pos` just past
/// it; `None` at the end of the text. A token is never empty.
fn next_token(chars: &Vec<char>, pos: &mut usize) -> (r: Option<Vec<char>>)
    requires
        *old(pos) <= chars@.len(),
    ensures
        ({
            let s = skip_seps(chars@, *old(pos) as int);
            let e = token_end(chars@, s);
            match r {
                None => s == chars@.len() && *final(pos) == chars@.len(),
                Some(tok) => {
                    &&& s < chars@.len()
                    &&& tok@ == chars@.subrange(s, e)
                    &&& *final(pos) == e
                    &&& tok@.len() > 0
                    &&& *old(pos) < *final(pos)
                },
            }
        }),
        *final(pos) <= chars@.len(),
{
    let ghost p0 = *pos as int;
    let len = chars.len();
    let mut i: usize = *pos;
    while i < len && (chars[i] == ' ' || chars[i] == '\n')
        invariant
            i <= len,
            len == chars@.len(),
            0 <= p0 <= i,
            skip_seps(chars@, p0) == skip_seps(chars@, i as int),
        decreases len - i,
    {
        i = i + 1;
    }
    proof {
        assert(skip_seps(chars@, i as int) == i as int);
    }
    if i >= len {
        *pos = i;
        return None;
    }
    let ghost start = i as int;
    let mut tok: Vec<char> = Vec::new();
    while i < len && !(chars[i] == ' ' || chars[i] == '\n')
        invariant
            i <= len,
            len == chars@.len(),
            0 <= start <= i,
            token_end(chars@, start) == token_end(chars@, i as int),
            tok@ == chars@.subrange(start, i as int),
        decreases len - i,
    {
        tok.push(chars[i]);
        i = i + 1;
        proof {
            assert(tok@ =~= chars@.subrange(start, i as int));
        }
    }
    proof {
        assert(token_end(chars@, i as int) == i as int);
        lemma_token_end_bounds(chars@, start);
    }
    *pos = i;
    Some(tok)
}

/// A token's category, as both passes of the assembler see it.
#[derive(Clone, Copy, PartialEq, Eq, Structural, Debug)]
pub enum TokKind {
    /// A non-jump mnemonic, carrying its opcode byte; one byte wide.
    Op(u8),
    /// A jump mnemonic, carrying its opcode byte; six bytes wide
    /// together with its target, which it consumes.
    Jump(u8),
    /// A register name, carrying the register id; two bytes wide.
    RegName(u8),
    /// A label definition: a token beginning with `.`; zero bytes wide.
    LabelDef,
    /// Anything else, treated as a numeric constant; five bytes wide.
    Other,
}

/// Whether `t` is the three characters `a`, `b`, `c`.
pub open spec fn is3(t: Seq<char>, a: char, b: char, c: char) -> bool {
    t.len() == 3 && t[0] == a && t[1] == b && t[2] == c
}

/// Whether `t` is the two characters `a`, `b`.
pub open spec fn is2(t: Seq<char>, a: char, b: char) -> bool {
    t.len() == 2 && t[0] == a && t[1] == b
}

/// The category of one token.
pub open spec fn classify(t: Seq<char>) -> TokKind {
    if is3(t, 'a', 'd', 'd') {
        TokKind::Op(ADD)
    } else if is3(t, 's', 'u', 'b') {
        TokKind::Op(SUB)
    } else if is3(t, 'm', 'u', 'l') {
        TokKind::Op(MUL)
    } else if is3(t, 'd', 'i', 'v') {
        TokKind::Op(DIV)
    } else if is3(t, 'm', 'o', 'v') {
        TokKind::Op(MOV)
    } else if is3(t, 'c', 'n', 'd') {
        TokKind::Op(CND)
    } else if is3(t, 'j', 'm', 'p') {
        TokKind::Jump(JMP)
    } else if is3(t, 'j', 'e', 'q') {
        TokKind::Jump(JEQ)
    } else if is3(t, 'j', 'n', 'e') {
        TokKind::Jump(JNE)
    } else if is3(t, 'j', 'g', 't') {
        TokKind::Jump(JGT)
    } else if is3(t, 'j', 'l', 't') {
        TokKind::Jump(JLT)
    } else if is3(t, 'j', 'g', 'e') {
        TokKind::Jump(JGE)
    } else if is3(t, 'j', 'l', 'e') {
        TokKind::Jump(JLE)
    } else if is2(t, 'a', 'x') {
        TokKind::RegName(AX)
    } else if is2(t, 'b', 'x') {
        TokKind::RegName(BX)
    } else if is2(t, 'c', 'x') {
        TokKind::RegName(CX)
    } else if is2(t, 'd', 'x') {
        TokKind::RegName(DX)
    } else if is2(t, 'e', 'x') {
        TokKind::RegName(EX)
    } else if is2(t, 'f', 'x') {
        TokKind::RegName(FX)
    } else if t.len() > 0 && t[0] == '.' {
        TokKind::LabelDef
    } else {
        TokKind::Other
    }
}

/// Categorizes one token.
fn classify_token(t: &Vec<char>) -> (k: TokKind)
    ensures
        k == classify(t@),
{
    let n = t.len();
    if n == 3 {
        let c0 = t[0];
        let c1 = t[1];
        let c2 = t[2];
        if c0 == 'a' && c1 == 'd' && c2 == 'd' {
            TokKind::Op(ADD)
        } else if c0 == 's' && c1 == 'u' && c2 == 'b' {
            TokKind::Op(SUB)
        } else if c0 == 'm' && c1 == 'u' && c2 == 'l' {
            TokKind::Op(MUL)
        } else if c0 == 'd' && c1 == 'i' && c2 == 'v' {
            TokKind::Op(DIV)
        } else if c0 == 'm' && c1 == 'o' && c2 == 'v' {
            TokKind::Op(MOV)
        } else if c0 == 'c' && c1 == 'n' && c2 == 'd' {
            TokKind::Op(CND)
        } else if c0 == 'j' && c1 == 'm' && c2 == 'p' {
            TokKind::Jump(JMP)
        } else if c0 == 'j' && c1 == 'e' && c2 == 'q' {
            TokKind::Jump(JEQ)
        } else if c0 == 'j' && c1 == 'n' && c2 == 'e' {
            TokKind::Jump(JNE)
        } else if c0 == 'j' && c1 == 'g' && c2 == 't' {
            TokKind::Jump(JGT)
        } else if c0 == 'j' && c1 == 'l' && c2 == 't' {
            TokKind::Jump(JLT)
        } else if c0 == 'j' && c1 == 'g' && c2 == 'e' {
            TokKind::Jump(JGE)
        } else if c0 == 'j' && c1 == 'l' && c2 == 'e' {
            TokKind::Jump(JLE)
        } else if c0 == '.' {
            TokKind::LabelDef
        } else {
            TokKind::Other
        }
    } else if n == 2 {
        let c0 = t[0];
        let c1 = t[1];
        if c0 == 'a' && c1 == 'x' {
            TokKind::RegName(AX)
        } else if c0 == 'b' && c1 == 'x' {
            TokKind::RegName(BX)
        } else if c0 == 'c' && c1 == 'x' {
            TokKind::RegName(CX)
        } else if c0 == 'd' && c1 == 'x' {
            TokKind::RegName(DX)
        } else if c0 == 'e' && c1 == 'x' {
            TokKind::RegName(EX)
        } else if c0 == 'f' && c1 == 'x' {
            TokKind::RegName(FX)
        } else if c0 == '.' {
            TokKind::LabelDef
        } else {
            TokKind::Other
        }
    } else if n > 0 {
        if t[0] == '.' {
            TokKind::LabelDef
        } else {
            TokKind::Other
        }
    } else {
        TokKind::Other
    }
}

/// Whether a character is a decimal digit.
pub open spec fn is_digit(c: char) -> bool {
    48 <= c as u32 <= 57
}

/// A decimal digit's value.
pub open spec fn digit_val(c: char) -> int {
    c as u32 - 48
}

/// Whether every character from `i` to the end is a decimal digit.
pub open spec fn digits_ok(t: Seq<char>, i: int) -> bool {
    forall|j: int| i <= j < t.len() ==> is_digit(#[trigger] t[j])
}

/// The value of the digits from `i` to the end, folded onto `acc`.
pub open spec fn digits_val(t: Seq<char>, i: int, acc: int) -> int
    decreases t.len() - i,
{
    if 0 <= i < t.len() {
        digits_val(t, i + 1, acc * 10 + digit_val(t[i]))
    } else {
        acc
    }
}

/// Folding further digits onto a non-negative accumulator never
/// shrinks it.
proof fn lemma_digits_val_lower(t: Seq<char>, i: int, acc: int)
    requires
        0 <= i <= t.len(),
        acc >= 0,
        digits_ok(t, i),
    ensures
        digits_val(t, i, acc) >= acc,
    decreases t.len() - i,
{
    if i < t.len() {
        assert(is_digit(t[i]));
        lemma_digits_val_lower(t, i + 1, acc * 10 + digit_val(t[i]));
    }
}

/// Whether a token begins like a number: with a digit or a minus sign.
pub open spec fn starts_numeric(t: Seq<char>) -> bool {
    t.len() > 0 && (t[0] == '-' || is_digit(t[0]))
}

/// Whether a token is a well-formed signed 32-bit decimal literal.
pub open spec fn lit_ok(t: Seq<char>) -> bool {
    if t.len() == 0 {
        false
    } else if t[0] == '-' {
        t.len() >= 2 && digits_ok(t, 1) && digits_val(t, 1, 0) <= 0x8000_0000
    } else {
        digits_ok(t, 0) && digits_val(t, 0, 0) <= 0x7FFF_FFFF
    }
}

/// The value of a well-formed literal.
pub open spec fn lit_val(t: Seq<char>) -> int {
    if t.len() > 0 && t[0] == '-' {
        -digits_val(t, 1, 0)
    } else {
        digits_val(t, 0, 0)
    }
}

/// Parses a token that begins like a number as a signed 32-bit decimal
/// literal.
fn parse_literal(t: &Vec<char>) -> (r: Result<i32, AsmError>)
    requires
        starts_numeric(t@),
    ensures
        match r {
            Ok(v) => lit_ok(t@) && v as int == lit_val(t@),
            Err(e) => !lit_ok(t@) && e == AsmError::MalformedLiteral,
        },
{
    let n = t.len();
    let neg = t[0] == '-';
    if neg && n < 2 {
        return Err(AsmError::MalformedLiteral);
    }
    let mut i: usize = if neg {
        1
    } else {
        0
    };
    let ghost st = i as int;
    let mut acc: u64 = 0;
    while i < n
        invariant
            st <= i <= n,
            n == t@.len(),
            st == (if neg {
                1int
            } else {
                0int
            }),
            neg == (t@[0] == '-'),
            n >= st,
            acc <= 0x8000_0000,
            forall|j: int| st <= j < i ==> is_digit(#[trigger] t@[j]),
            digits_val(t@, st, 0) == digits_val(t@, i as int, acc as int),
        decreases n - i,
    {
        let c = t[i];
        let cv = c as u32;
        if cv < 48 || cv > 57 {
            assert(!is_digit(t@[i as int]));
            return Err(AsmError::MalformedLiteral);
        }
        let d = (cv - 48) as u64;
        acc = acc * 10 + d;
        i = i + 1;
        if acc > 0x8000_0000 {
            proof {
                if digits_ok(t@, i as int) {
                    lemma_digits_val_lower(t@, i as int, acc as int);
                }
            }
            return Err(AsmError::MalformedLiteral);
        }
    }
    if neg {
        Ok((-(acc as i64)) as i32)
    } else {
        if acc > 0x7FFF_FFFF {
            return Err(AsmError::MalformedLiteral);
        }
        Ok(acc as i32)
    }
}

/// The label table as pass one computes it: each label token paired
/// with the byte offset at which it was defined, in definition order.
pub open spec fn table_view(t: Seq<(Vec<char>, u32)>) -> Seq<(Seq<char>, u32)> {
    Seq::new(t.len(), |i: int| (t[i].0@, t[i].1))
}

/// The offset a label name resolves to: that of its latest definition.
pub open spec fn lookup_spec(table: Seq<(Seq<char>, u32)>, name: Seq<char>) -> Option<u32>
    decreases table.len(),
{
    if table.len() == 0 {
        None
    } else if table.last().0 == name {
        Some(table.last().1)
    } else {
        lookup_spec(table.drop_last(), name)
    }
}

/// Whether two tokens hold the same characters.
fn token_eq(a: &Vec<char>, b: &Vec<char>) -> (r: bool)
    ensures
        r == (a@ == b@),
{
    if a.len() != b.len() {
        return false;
    }
    let n = a.len();
    let mut i: usize = 0;
    while i < n
        invariant
            i <= n,
            n == a@.len(),
            n == b@.len(),
            forall|j: int| 0 <= j < i ==> a@[j] == b@[j],
        decreases n - i,
    {
        if a[i] != b[i] {
            return false;
        }
        i = i + 1;
    }
    proof {
        assert(a@ =~= b@);
    }
    true
}

/// Resolves a label name against the table, the latest definition
/// winning.
fn lookup_label(table: &Vec<(Vec<char>, u32)>, name: &Vec<char>) -> (r: Option<u32>)
    ensures
        r == lookup_spec(table_view(table@), name@),
{
    let mut j = table.len();
    proof {
        assert(table_view(table@).take(table@.len() as int) =~= table_view(table@));
    }
    while j > 0
        invariant
            j <= table@.len(),
            lookup_spec(table_view(table@), name@) == lookup_spec(
                table_view(table@).take(j as int),
                name@,
            ),
        decreases j,
    {
        j = j - 1;
        proof {
            assert(table_view(table@).take(j as int + 1).drop_last() =~= table_view(
                table@,
            ).take(j as int));
            assert(table_view(table@).take(j as int + 1).last() == (table@[j as int].0@,
            table@[j as int].1));
        }
        let entry_matches = token_eq(&table[j].0, name);
        if entry_matches {
            return Some(table[j].1);
        }
    }
    None
}

/// The largest byte offset a label may resolve to: offsets are emitted
/// as signed 32-bit constants.
pub const MAX_OFFSET: u32 = 0x7FFF_FFFF;

/// Pass one, from position `i` with `cur` bytes accounted so far: the
/// finished label table, or the error that stops assembly. Non-jump
/// mnemonics are one byte wide; a jump and the target it consumes are
/// six; a register name is two; a numeric token is five; a label
/// definition is zero and records the current offset.
pub open spec fn pass1_spec(
    chars: Seq<char>,
    i: int,
    cur: int,
    table: Seq<(Seq<char>, u32)>,
) -> Result<Seq<(Seq<char>, u32)>, AsmError>
    decreases chars.len() - i,
        when 0 <= i <= chars.len() via pass1_spec_decreases
{
    let s = skip_seps(chars, i);
    if s >= chars.len() {
        Ok(table)
    } else {
        let e = token_end(chars, s);
        let tok = chars.subrange(s, e);
        match classify(tok) {
            TokKind::Op(_) => if cur + 1 > MAX_OFFSET {
                Err(AsmError::ProgramTooLarge)
            } else {
                pass1_spec(chars, e, cur + 1, table)
            },
            TokKind::Jump(_) => if cur + 6 > MAX_OFFSET {
                Err(AsmError::ProgramTooLarge)
            } else {
                pass1_spec(chars, token_end(chars, skip_seps(chars, e)), cur + 6, table)
            },
            TokKind::RegName(_) => if cur + 2 > MAX_OFFSET {
                Err(AsmError::ProgramTooLarge)
            } else {
                pass1_spec(chars, e, cur + 2, table)
            },
            TokKind::LabelDef => pass1_spec(chars, e, cur, table.push((tok, cur as u32))),
            TokKind::Other => if cur + 5 > MAX_OFFSET {
                Err(AsmError::ProgramTooLarge)
            } else {
                pass1_spec(chars, e, cur + 5, table)
            },
        }
    }
}

#[via_fn]
proof fn pass1_spec_decreases(chars: Seq<char>, i: int, cur: int, table: Seq<(Seq<char>, u32)>) {
    lemma_skip_seps_bounds(chars, i);
    let s = skip_seps(chars, i);
    if s < chars.len() {
        lemma_token_end_bounds(chars, s);
        let e = token_end(chars, s);
        lemma_skip_seps_bounds(chars, e);
        lemma_token_end_bounds(chars, skip_seps(chars, e));
    }
}

/// Pass two, from position `i` with `out` emitted so far: the finished
/// byte program, or the error that stops assembly.
pub open spec fn pass2_spec(
    chars: Seq<char>,
    i: int,
    table: Seq<(Seq<char>, u32)>,
    out: Seq<u8>,
) -> Result<Seq<u8>, AsmError>
    decreases chars.len() - i,
        when 0 <= i <= chars.len() via pass2_spec_decreases
{
    let s = skip_seps(chars, i);
    if s >= chars.len() {
        Ok(out)
    } else {
        let e = token_end(chars, s);
        let tok = chars.subrange(s, e);
        match classify(tok) {
            TokKind::Op(op) => pass2_spec(chars, e, table, out.push(op)),
            TokKind::Jump(op) => {
                let s2 = skip_seps(chars, e);
                if s2 >= chars.len() {
                    Err(AsmError::UnresolvedLabel)
                } else {
                    let e2 = token_end(chars, s2);
                    let target = chars.subrange(s2, e2);
                    match lookup_spec(table, target) {
                        None => Err(AsmError::UnresolvedLabel),
                        Some(off) => pass2_spec(
                            chars,
                            e2,
                            table,
                            out.push(op).push(TAG_CONST) + enc_unsigned(off as int),
                        ),
                    }
                }
            },
            TokKind::RegName(rid) => pass2_spec(chars, e, table, out.push(TAG_REG).push(rid)),
            TokKind::LabelDef => pass2_spec(chars, e, table, out),
            TokKind::Other => if !starts_numeric(tok) {
                Err(AsmError::UnexpectedToken)
            } else if !lit_ok(tok) {
                Err(AsmError::MalformedLiteral)
            } else {
                pass2_spec(chars, e, table, out.push(TAG_CONST) + enc_signed(lit_val(tok)))
            },
        }
    }
}

#[via_fn]
proof fn pass2_spec_decreases(chars: Seq<char>, i: int, table: Seq<(Seq<char>, u32)>, out: Seq<u8>) {
    lemma_skip_seps_bounds(chars, i);
    let s = skip_seps(chars, i);
    if s < chars.len() {
        lemma_token_end_bounds(chars, s);
        let e = token_end(chars, s);
        lemma_skip_seps_bounds(chars, e);
        lemma_token_end_bounds(chars, skip_seps(chars, e));
    }
}

/// Both passes end to end: what assembling a source text yields.
pub open spec fn assemble_spec(chars: Seq<char>) -> Result<Seq<u8>, AsmError> {
    match pass1_spec(chars, 0, 0, Seq::empty()) {
        Err(e) => Err(e),
        Ok(table) => pass2_spec(chars, 0, table, Seq::empty()),
    }
}

/// Pass one over the whole source: the label table.
fn find_jumps(chars: &Vec<char>) -> (r: Result<Vec<(Vec<char>, u32)>, AsmError>)
    ensures
        match pass1_spec(chars@, 0, 0, Seq::empty()) {
            Ok(table) => r matches Ok(t) && table_view(t@) == table,
            Err(e) => r matches Err(e2) && e2 == e,
        },
{
    let mut table: Vec<(Vec<char>, u32)> = Vec::new();
    let mut pos: usize = 0;
    let mut cur: u32 = 0;
    proof {
        assert(table_view(table@) =~= Seq::<(Seq<char>, u32)>::empty());
    }
    loop
        invariant
            pos <= chars@.len(),
            cur <= MAX_OFFSET,
            pass1_spec(chars@, pos as int, cur as int, table_view(table@)) == pass1_spec(
                chars@,
                0,
                0,
                Seq::empty(),
            ),
        decreases chars@.len() - pos,
    {
        let tok = match next_token(chars, &mut pos) {
            None => {
                return Ok(table);
            },
            Some(t) => t,
        };
        match classify_token(&tok) {
            TokKind::Op(_) => {
                if cur > MAX_OFFSET - 1 {
                    return Err(AsmError::ProgramTooLarge);
                }
                cur = cur + 1;
            },
            TokKind::Jump(_) => {
                if cur > MAX_OFFSET - 6 {
                    return Err(AsmError::ProgramTooLarge);
                }
                cur = cur + 6;
                let _target = next_token(chars, &mut pos);
            },
            TokKind::RegName(_) => {
                if cur > MAX_OFFSET - 2 {
                    return Err(AsmError::ProgramTooLarge);
                }
                cur = cur + 2;
            },
            TokKind::LabelDef => {
                let ghost old_table = table@;
                table.push((tok, cur));
                proof {
                    assert(table_view(table@) =~= table_view(old_table).push(
                        (table@[old_table.len() as int].0@, cur),
                    ));
                }
            },
            TokKind::Other => {
                if cur > MAX_OFFSET - 5 {
                    return Err(AsmError::ProgramTooLarge);
                }
                cur = cur + 5;
            },
        }
    }
}

/// Pass two over the whole source: the byte program.
fn emit_bytes(chars: &Vec<char>, table: &Vec<(Vec<char>, u32)>) -> (r: Result<Vec<u8>, AsmError>)
    ensures
        match pass2_spec(chars@, 0, table_view(table@), Seq::empty()) {
            Ok(bytes) => r matches Ok(b) && b@ == bytes,
            Err(e) => r matches Err(e2) && e2 == e,
        },
{
    let mut out: Vec<u8> = Vec::new();
    let mut pos: usize = 0;
    loop
        invariant
            pos <= chars@.len(),
            pass2_spec(chars@, pos as int, table_view(table@), out@) == pass2_spec(
                chars@,
                0,
                table_view(table@),
                Seq::empty(),
            ),
        decreases chars@.len() - pos,
    {
        let tok = match next_token(chars, &mut pos) {
            None => {
                return Ok(out);
            },
            Some(t) => t,
        };
        match classify_token(&tok) {
            TokKind::Op(op) => {
                out.push(op);
            },
            TokKind::Jump(op) => {
                let target = match next_token(chars, &mut pos) {
                    None => {
                        return Err(AsmError::UnresolvedLabel);
                    },
                    Some(t) => t,
                };
                let off = match lookup_label(table, &target) {
                    None => {
                        return Err(AsmError::UnresolvedLabel);
                    },
                    Some(o) => o,
                };
                out.push(op);
                out.push(TAG_CONST);
                push_be_unsigned(&mut out, off);
            },
            TokKind::RegName(rid) => {
                out.push(TAG_REG);
                out.push(rid);
            },
            TokKind::LabelDef => {},
            TokKind::Other => {
                let c0 = tok[0];
                let c0v = c0 as u32;
                if !(c0 == '-' || (48 <= c0v && c0v <= 57)) {
                    return Err(AsmError::UnexpectedToken);
                }
                let v = match parse_literal(&tok) {
                    Ok(v) => v,
                    Err(e) => {
                        return Err(e);
                    },
                };
                out.push(TAG_CONST);
                push_be_signed(&mut out, v);
            },
        }
    }
}

/// The assembler. It owns the source characters and, between the two
/// passes, the label table pass one computed.
pub struct Lexer {
    chars: Vec<char>,
    jumps: Vec<(Vec<char>, u32)>,
}

impl Lexer {
    /// The source text this assembler was built over.
    pub closed spec fn src(self) -> Seq<char> {
        self.chars@
    }

    /// Builds an assembler over a source text.
    pub fn new(text_inp: &str) -> (l: Lexer)
        ensures
            l.src() == text_inp@,
    {
        let n = text_inp.unicode_len();
        let mut chars: Vec<char> = Vec::new();
        let mut i: usize = 0;
        while i < n
            invariant
                i <= n,
                n == text_inp@.len(),
                chars@ == text_inp@.subrange(0, i as int),
            decreases n - i,
        {
            chars.push(text_inp.get_char(i));
            i = i + 1;
            proof {
                assert(chars@ =~= text_inp@.subrange(0, i as int));
            }
        }
        proof {
            assert(chars@ =~= text_inp@);
        }
        Lexer { chars, jumps: Vec::new() }
    }

    /// Runs both passes and returns the assembled byte program, or the
    /// first error: an unresolved or missing jump target, a malformed
    /// numeric literal, a token that fits no category, or a label
    /// offset too large to encode.
    pub fn generate(&mut self) -> (r: Result<Vec<u8>, AsmError>)
        ensures
            final(self).src() == old(self).src(),
            match assemble_spec(old(self).src()) {
                Ok(bytes) => r matches Ok(b) && b@ == bytes,
                Err(e) => r matches Err(e2) && e2 == e,
            },
    {
        let table = match find_jumps(&self.chars) {
            Ok(t) => t,
            Err(e) => {
                return Err(e);
            },
        };
        self.jumps = table;
        emit_bytes(&self.chars, &self.jumps)
    }
}

/// Assembles source text into a byte program: tokenization, label
/// resolution and emission end to end.
pub fn assemble(text_inp: &str) -> (r: Result<Vec<u8>, AsmError>)
    ensures
        match assemble_spec(text_inp@) {
            Ok(bytes) => r matches Ok(b) && b@ == bytes,
            Err(e) => r matches Err(e2) && e2 == e,
        },
{
    let mut lexer = Lexer::new(text_inp);
    lexer.generate()
}

} // verus!
