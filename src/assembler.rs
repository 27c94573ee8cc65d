//! Translation of assembly text into program words: one word per line that
//! holds an instruction, encoded in the canonical format.

use vstd::prelude::*;
use vstd::string::StrSliceExecFns;
use regex::Regex;
use crate::image::{image_of, write_words_into};
use crate::isa::{
    encode, encode_spec, Instr, OP_ADI, OP_CMP, OP_DIV, OP_EOF, OP_JMP, OP_JZ, OP_MOP, OP_MOV,
    OP_MUL, OP_PRN, OP_STR, OP_SUI,
};

verus! {

/// The text with every comment removed: a comment runs from `;` up to, and
/// not including, the next line break.
pub open spec fn strip_comments(s: Seq<char>, in_comment: bool) -> Seq<char>
    decreases s.len(),
{
    if s.len() == 0 {
        s
    } else if in_comment && s[0] != '\n' {
        strip_comments(s.drop_first(), true)
    } else if s[0] == ';' {
        strip_comments(s.drop_first(), true)
    } else {
        seq![s[0]] + strip_comments(s.drop_first(), false)
    }
}

/// The pattern of a comment: `;` and the rest of its line.
pub open spec fn comment_pattern() -> Seq<char> {
    seq![';', '.', '*']
}

/// Relies on regex's `Regex::new` and `Regex::replace_all` with an empty
/// replacement, for the pattern `;.*`: `.` matches every character but `\n`,
/// so each match runs from a `;` to the end of its line, and matches do not
/// overlap. The pattern is valid, so `Regex::new` does not fail.
#[verifier::external_body]
fn remove_matches(pattern: &str, text: &str) -> (r: String)
    requires
        pattern@ == comment_pattern(),
    ensures
        r@ == strip_comments(text@, false),
{
    Regex::new(pattern).unwrap().replace_all(text, "").into_owned()
}

fn strip_comment(line: &str) -> (r: String)
    ensures
        r@ == strip_comments(line@, false),
{
    let pattern = ";.*";
    proof {
        reveal_strlit(";.*");
        assert(pattern@ =~= comment_pattern());
    }
    remove_matches(pattern, line)
}

pub open spec fn is_separator(c: char) -> bool {
    c == ' ' || c == '\t'
}

/// Splitting a prefix of a line: the finished tokens and the token in progress.
pub open spec fn split_state(s: Seq<char>) -> (Seq<Seq<char>>, Seq<char>)
    decreases s.len(),
{
    if s.len() == 0 {
        (Seq::empty(), Seq::empty())
    } else {
        let (done, cur) = split_state(s.drop_last());
        if is_separator(s.last()) {
            if cur.len() == 0 {
                (done, cur)
            } else {
                (done.push(cur), Seq::empty())
            }
        } else {
            (done, cur.push(s.last()))
        }
    }
}

/// The non-empty runs of non-separator characters, in order.
pub open spec fn tokens(s: Seq<char>) -> Seq<Seq<char>> {
    let (done, cur) = split_state(s);
    if cur.len() == 0 {
        done
    } else {
        done.push(cur)
    }
}

/// The character sequences of a list of tokens.
pub open spec fn token_views(v: Seq<Vec<char>>) -> Seq<Seq<char>> {
    v.map_values(|t: Vec<char>| t@)
}

fn tokenize(s: &str) -> (r: Vec<Vec<char>>)
    ensures
        token_views(r@) == tokens(s@),
{
    let n = s.unicode_len();
    let mut done: Vec<Vec<char>> = Vec::new();
    let mut cur: Vec<char> = Vec::new();
    let mut i: usize = 0;
    while i < n
        invariant
            n == s@.len(),
            i <= n,
            (token_views(done@), cur@) == split_state(s@.take(i as int)),
        decreases n - i,
    {
        let c = s.get_char(i);
        assert(s@.take(i + 1).drop_last() =~= s@.take(i as int));
        if c == ' ' || c == '\t' {
            if cur.len() > 0 {
                let ghost before = token_views(done@);
                done.push(cur);
                assert(token_views(done@) =~= before.push(cur@));
                cur = Vec::new();
            }
        } else {
            cur.push(c);
        }
        i += 1;
    }
    assert(s@.take(n as int) =~= s@);
    if cur.len() > 0 {
        let ghost before = token_views(done@);
        done.push(cur);
        assert(token_views(done@) =~= before.push(cur@));
    }
    done
}

/// Why a line could not be assembled.
#[derive(Clone, Copy, Debug, PartialEq, Eq, Structural)]
pub enum AsmError {
    /// The first token names no operation.
    UnknownMnemonic,
    /// An operand is not a decimal number below 65536.
    BadNumber,
    /// The operation takes another number of operands, or an address
    /// operand is above 255.
    BadOperands,
}

pub open spec fn is_digit(c: char) -> bool {
    '0' <= c && c <= '9'
}

pub open spec fn all_digits(s: Seq<char>) -> bool {
    forall|i: int| 0 <= i < s.len() ==> is_digit(#[trigger] s[i])
}

pub open spec fn dec_value(s: Seq<char>) -> int
    decreases s.len(),
{
    if s.len() == 0 {
        0
    } else {
        dec_value(s.drop_last()) * 10 + (s.last() as u32 - '0' as u32)
    }
}

/// The value of a decimal operand, if it is one and fits 16 bits.
pub open spec fn number_of(s: Seq<char>) -> Option<u16> {
    if s.len() > 0 && all_digits(s) && dec_value(s) <= u16::MAX {
        Some(dec_value(s) as u16)
    } else {
        None
    }
}

fn parse_number(t: &Vec<char>) -> (r: Option<u16>)
    ensures
        r == number_of(t@),
{
    if t.len() == 0 {
        return None;
    }
    let mut v: u32 = 0;
    let mut big = false;
    let mut i: usize = 0;
    while i < t.len()
        invariant
            i <= t@.len(),
            all_digits(t@.take(i as int)),
            !big ==> v == dec_value(t@.take(i as int)) && v <= u16::MAX,
            big ==> dec_value(t@.take(i as int)) > u16::MAX,
        decreases t.len() - i,
    {
        let c = t[i];
        if !('0' <= c && c <= '9') {
            assert(!is_digit(t@[i as int]));
            return None;
        }
        assert(t@.take(i + 1).drop_last() =~= t@.take(i as int));
        assert(t@.take(i + 1).last() == c);
        if !big {
            v = v * 10 + (c as u32 - '0' as u32);
            if v > 65535 {
                big = true;
            }
        }
        i += 1;
    }
    assert(t@.take(t@.len() as int) =~= t@);
    if big {
        None
    } else {
        Some(v as u16)
    }
}

/// The mnemonic of each operation.
pub open spec fn mnemonic(op: u8) -> Seq<char> {
    if op == OP_EOF {
        seq!['e', 'o', 'f']
    } else if op == OP_MOV {
        seq!['m', 'o', 'v']
    } else if op == OP_MOP {
        seq!['m', 'o', 'p']
    } else if op == OP_STR {
        seq!['s', 't', 'r']
    } else if op == OP_ADI {
        seq!['a', 'd', 'i']
    } else if op == OP_SUI {
        seq!['s', 'u', 'i']
    } else if op == OP_JMP {
        seq!['j', 'm', 'p']
    } else if op == OP_JZ {
        seq!['j', 'z']
    } else if op == OP_CMP {
        seq!['c', 'm', 'p']
    } else if op == OP_PRN {
        seq!['p', 'r', 'n']
    } else if op == OP_MUL {
        seq!['m', 'u', 'l']
    } else if op == OP_DIV {
        seq!['d', 'i', 'v']
    } else {
        Seq::empty()
    }
}

/// The operation a mnemonic names.
pub open spec fn opcode_named(t: Seq<char>) -> Option<u8> {
    if t == mnemonic(OP_EOF) {
        Some(OP_EOF)
    } else if t == mnemonic(OP_MOV) {
        Some(OP_MOV)
    } else if t == mnemonic(OP_MOP) {
        Some(OP_MOP)
    } else if t == mnemonic(OP_STR) {
        Some(OP_STR)
    } else if t == mnemonic(OP_ADI) {
        Some(OP_ADI)
    } else if t == mnemonic(OP_SUI) {
        Some(OP_SUI)
    } else if t == mnemonic(OP_JMP) {
        Some(OP_JMP)
    } else if t == mnemonic(OP_JZ) {
        Some(OP_JZ)
    } else if t == mnemonic(OP_CMP) {
        Some(OP_CMP)
    } else if t == mnemonic(OP_PRN) {
        Some(OP_PRN)
    } else if t == mnemonic(OP_MUL) {
        Some(OP_MUL)
    } else if t == mnemonic(OP_DIV) {
        Some(OP_DIV)
    } else {
        None
    }
}

fn mnemonic_chars(op: u8) -> (r: Vec<char>)
    ensures
        r@ == mnemonic(op),
{
    let r = if op == OP_EOF {
        vec!['e', 'o', 'f']
    } else if op == OP_MOV {
        vec!['m', 'o', 'v']
    } else if op == OP_MOP {
        vec!['m', 'o', 'p']
    } else if op == OP_STR {
        vec!['s', 't', 'r']
    } else if op == OP_ADI {
        vec!['a', 'd', 'i']
    } else if op == OP_SUI {
        vec!['s', 'u', 'i']
    } else if op == OP_JMP {
        vec!['j', 'm', 'p']
    } else if op == OP_JZ {
        vec!['j', 'z']
    } else if op == OP_CMP {
        vec!['c', 'm', 'p']
    } else if op == OP_PRN {
        vec!['p', 'r', 'n']
    } else if op == OP_MUL {
        vec!['m', 'u', 'l']
    } else if op == OP_DIV {
        vec!['d', 'i', 'v']
    } else {
        Vec::new()
    };
    assert(r@ =~= mnemonic(op));
    r
}

fn same_chars(a: &Vec<char>, b: &Vec<char>) -> (r: bool)
    ensures
        r == (a@ == b@),
{
    if a.len() != b.len() {
        return false;
    }
    let mut i: usize = 0;
    while i < a.len()
        invariant
            a@.len() == b@.len(),
            i <= a@.len(),
            forall|j: int| 0 <= j < i ==> a@[j] == b@[j],
        decreases a.len() - i,
    {
        if a[i] != b[i] {
            return false;
        }
        i += 1;
    }
    assert(a@ =~= b@);
    true
}

fn is_named(t: &Vec<char>, op: u8) -> (r: bool)
    ensures
        r == (t@ == mnemonic(op)),
{
    same_chars(t, &mnemonic_chars(op))
}

fn lookup_opcode(t: &Vec<char>) -> (r: Option<u8>)
    ensures
        r == opcode_named(t@),
{
    if is_named(t, OP_EOF) {
        Some(OP_EOF)
    } else if is_named(t, OP_MOV) {
        Some(OP_MOV)
    } else if is_named(t, OP_MOP) {
        Some(OP_MOP)
    } else if is_named(t, OP_STR) {
        Some(OP_STR)
    } else if is_named(t, OP_ADI) {
        Some(OP_ADI)
    } else if is_named(t, OP_SUI) {
        Some(OP_SUI)
    } else if is_named(t, OP_JMP) {
        Some(OP_JMP)
    } else if is_named(t, OP_JZ) {
        Some(OP_JZ)
    } else if is_named(t, OP_CMP) {
        Some(OP_CMP)
    } else if is_named(t, OP_PRN) {
        Some(OP_PRN)
    } else if is_named(t, OP_MUL) {
        Some(OP_MUL)
    } else if is_named(t, OP_DIV) {
        Some(OP_DIV)
    } else {
        None
    }
}

/// The values of a list of operand tokens, if each is a number.
pub open spec fn numbers_of(ts: Seq<Seq<char>>) -> Option<Seq<u16>> {
    if forall|i: int| 0 <= i < ts.len() ==> (#[trigger] number_of(ts[i])) is Some {
        Some(ts.map_values(|t: Seq<char>| number_of(t)->Some_0))
    } else {
        None
    }
}

pub open spec fn is_address(x: u16) -> bool {
    x <= 255
}

/// The instruction an operation makes of its operands: addresses take one
/// byte, immediates (`str`, `adi`, `sui`) sixteen bits.
pub open spec fn instr_of(op: u8, a: Seq<u16>) -> Option<Instr> {
    if op == OP_EOF {
        if a.len() == 0 { Some(Instr::Eof) } else { None }
    } else if op == OP_JMP || op == OP_JZ || op == OP_PRN {
        if a.len() == 1 && is_address(a[0]) {
            let x = a[0] as u8;
            Some(
                if op == OP_JMP {
                    Instr::Jmp { target: x }
                } else if op == OP_JZ {
                    Instr::Jz { target: x }
                } else {
                    Instr::Prn { addr: x }
                },
            )
        } else {
            None
        }
    } else if op == OP_STR || op == OP_ADI || op == OP_SUI {
        if a.len() == 2 && is_address(a[0]) {
            let (d, v) = (a[0] as u8, a[1]);
            Some(
                if op == OP_STR {
                    Instr::Str { dst: d, imm: v }
                } else if op == OP_ADI {
                    Instr::Adi { dst: d, imm: v }
                } else {
                    Instr::Sui { dst: d, imm: v }
                },
            )
        } else {
            None
        }
    } else {
        if a.len() == 2 && is_address(a[0]) && is_address(a[1]) {
            let (x, y) = (a[0] as u8, a[1] as u8);
            if op == OP_MOV {
                Some(Instr::Mov { dst: x, src: y })
            } else if op == OP_MOP {
                Some(Instr::Mop { dst: x, src: y })
            } else if op == OP_CMP {
                Some(Instr::Cmp { a: x, b: y })
            } else if op == OP_MUL {
                Some(Instr::Mul { dst: x, src: y })
            } else if op == OP_DIV {
                Some(Instr::Div { dst: x, src: y })
            } else {
                None
            }
        } else {
            None
        }
    }
}

/// The word of a non-empty token list: a mnemonic and its operands.
pub open spec fn line_word(t: Seq<Seq<char>>) -> Result<u32, AsmError> {
    match opcode_named(t[0]) {
        None => Err(AsmError::UnknownMnemonic),
        Some(op) => match numbers_of(t.drop_first()) {
            None => Err(AsmError::BadNumber),
            Some(a) => match instr_of(op, a) {
                None => Err(AsmError::BadOperands),
                Some(i) => Ok(encode_spec(i)),
            },
        },
    }
}

/// A line of assembly: nothing when it holds no token once comments are
/// removed, else the word of its tokens.
pub open spec fn assemble_spec(line: Seq<char>) -> Result<Option<u32>, AsmError> {
    let t = tokens(strip_comments(line, false));
    if t.len() == 0 {
        Ok(None)
    } else {
        match line_word(t) {
            Ok(w) => Ok(Some(w)),
            Err(e) => Err(e),
        }
    }
}

/// A whole source: the words of its lines in order, or the index of the
/// first line that fails, with its error.
pub open spec fn program_spec(ls: Seq<Seq<char>>) -> Result<Seq<u32>, (usize, AsmError)>
    decreases ls.len(),
{
    if ls.len() == 0 {
        Ok(Seq::empty())
    } else {
        match program_spec(ls.drop_last()) {
            Err(e) => Err(e),
            Ok(ws) => match assemble_spec(ls.last()) {
                Err(e) => Err(((ls.len() - 1) as usize, e)),
                Ok(None) => Ok(ws),
                Ok(Some(w)) => Ok(ws.push(w)),
            },
        }
    }
}

proof fn lemma_error_persists(ls: Seq<Seq<char>>, j: int)
    requires
        0 <= j <= ls.len(),
        program_spec(ls.take(j)) is Err,
    ensures
        program_spec(ls) == program_spec(ls.take(j)),
    decreases ls.len(),
{
    if j == ls.len() {
        assert(ls.take(j) =~= ls);
    } else {
        assert(ls.drop_last().take(j) =~= ls.take(j));
        lemma_error_persists(ls.drop_last(), j);
    }
}

fn instr_from(op: u8, a: &Vec<u16>) -> (r: Option<Instr>)
    ensures
        r == instr_of(op, a@),
{
    if op == OP_EOF {
        if a.len() == 0 { Some(Instr::Eof) } else { None }
    } else if op == OP_JMP || op == OP_JZ || op == OP_PRN {
        if a.len() == 1 && a[0] <= 255 {
            let x = a[0] as u8;
            Some(
                if op == OP_JMP {
                    Instr::Jmp { target: x }
                } else if op == OP_JZ {
                    Instr::Jz { target: x }
                } else {
                    Instr::Prn { addr: x }
                },
            )
        } else {
            None
        }
    } else if op == OP_STR || op == OP_ADI || op == OP_SUI {
        if a.len() == 2 && a[0] <= 255 {
            let (d, v) = (a[0] as u8, a[1]);
            Some(
                if op == OP_STR {
                    Instr::Str { dst: d, imm: v }
                } else if op == OP_ADI {
                    Instr::Adi { dst: d, imm: v }
                } else {
                    Instr::Sui { dst: d, imm: v }
                },
            )
        } else {
            None
        }
    } else if a.len() == 2 && a[0] <= 255 && a[1] <= 255 {
        let (x, y) = (a[0] as u8, a[1] as u8);
        if op == OP_MOV {
            Some(Instr::Mov { dst: x, src: y })
        } else if op == OP_MOP {
            Some(Instr::Mop { dst: x, src: y })
        } else if op == OP_CMP {
            Some(Instr::Cmp { a: x, b: y })
        } else if op == OP_MUL {
            Some(Instr::Mul { dst: x, src: y })
        } else if op == OP_DIV {
            Some(Instr::Div { dst: x, src: y })
        } else {
            None
        }
    } else {
        None
    }
}

/// One assembled line: the operation, its operands and the word they make.
pub struct Element {
    pub op: u8,
    pub args: Vec<u16>,
    pub composed: u32,
}

impl Element {
    /// Assemble a token list: a mnemonic followed by decimal operands.
    pub fn new(ops: &Vec<Vec<char>>) -> (r: Result<Element, AsmError>)
        requires
            ops@.len() > 0,
        ensures
            r is Ok <==> line_word(token_views(ops@)) is Ok,
            r is Ok ==> {
                let e = r->Ok_0;
                &&& e.composed == line_word(token_views(ops@))->Ok_0
                &&& Some(e.op) == opcode_named(ops@[0]@)
                &&& Some(e.args@) == numbers_of(token_views(ops@).drop_first())
            },
            r is Err ==> r->Err_0 == line_word(token_views(ops@))->Err_0,
    {
        let ghost t = token_views(ops@);
        assert(t[0] == ops@[0]@);
        let op = match lookup_opcode(&ops[0]) {
            Some(op) => op,
            None => return Err(AsmError::UnknownMnemonic),
        };
        let mut args: Vec<u16> = Vec::new();
        let mut i: usize = 1;
        while i < ops.len()
            invariant
                t == token_views(ops@),
                opcode_named(t[0]) == Some(op),
                1 <= i <= ops@.len(),
                forall|j: int| 1 <= j < i ==> (#[trigger] number_of(t[j])) is Some,
                args@ == t.subrange(1, i as int).map_values(|s: Seq<char>| number_of(s)->Some_0),
            decreases ops.len() - i,
        {
            match parse_number(&ops[i]) {
                Some(v) => {
                    let ghost before = args@;
                    args.push(v);
                    assert(args@ =~= t.subrange(1, i + 1).map_values(
                        |s: Seq<char>| number_of(s)->Some_0,
                    ));
                },
                None => {
                    assert(t[i as int] == ops@[i as int]@);
                    assert(t.drop_first()[i - 1] == t[i as int]);
                    assert(number_of(t.drop_first()[i - 1]) is None);
                    return Err(AsmError::BadNumber);
                },
            }
            i += 1;
        }
        assert(t.subrange(1, ops@.len() as int) =~= t.drop_first());
        assert(numbers_of(t.drop_first()) == Some(args@)) by {
            assert forall|j: int| 0 <= j < t.drop_first().len() implies (#[trigger] number_of(
                t.drop_first()[j],
            )) is Some by {
                assert(t.drop_first()[j] == t[j + 1]);
            }
        }
        match instr_from(op, &args) {
            Some(instr) => Ok(Element { op, args, composed: encode(instr) }),
            None => Err(AsmError::BadOperands),
        }
    }
}

/// The character sequences of a list of source lines.
pub open spec fn line_views(ls: Seq<String>) -> Seq<Seq<char>> {
    ls.map_values(|l: String| l@)
}

/// An assembly source and the words assembled from it so far.
pub struct Assembler {
    stringfile: Vec<String>,
    binary: Vec<u32>,
}

impl Assembler {
    /// An assembler over the lines of a source; nothing is assembled yet.
    pub fn new(lines: Vec<String>) -> (r: Assembler)
        ensures
            r.lines() == line_views(lines@),
            r.binary() == Seq::<u32>::empty(),
    {
        Assembler { stringfile: lines, binary: Vec::new() }
    }

    pub closed spec fn lines(&self) -> Seq<Seq<char>> {
        line_views(self.stringfile@)
    }

    pub closed spec fn binary(&self) -> Seq<u32> {
        self.binary@
    }

    /// The words assembled by the last successful `gen_binary`.
    pub fn words(&self) -> (r: &Vec<u32>)
        ensures
            r@ == self.binary(),
    {
        &self.binary
    }

    /// Assemble one line: `Ok(None)` when, without its comment, it holds no
    /// token; else the word of its mnemonic and operands.
    pub fn assemble(input: &str) -> (r: Result<Option<u32>, AsmError>)
        ensures
            r == assemble_spec(input@),
    {
        let stripped = strip_comment(input);
        let t = tokenize(stripped.as_str());
        if t.len() == 0 {
            return Ok(None);
        }
        match Element::new(&t) {
            Ok(e) => Ok(Some(e.composed)),
            Err(e) => Err(e),
        }
    }

    /// Assemble every line, in order, and return the program image: one
    /// big-endian word per line that holds an instruction. On failure the
    /// error names the index of the first line that fails.
    pub fn gen_binary(&mut self) -> (r: Result<Vec<u8>, (usize, AsmError)>)
        ensures
            final(self).lines() == old(self).lines(),
            program_spec(old(self).lines()) is Ok ==> r is Ok && final(self).binary()
                == program_spec(old(self).lines())->Ok_0 && r->Ok_0@ == image_of(
                final(self).binary(),
            ),
            program_spec(old(self).lines()) is Err ==> r is Err && r->Err_0 == program_spec(
                old(self).lines(),
            )->Err_0,
    {
        let ghost ls = self.lines();
        self.binary = Vec::new();
        let n = self.stringfile.len();
        let mut i: usize = 0;
        while i < n
            invariant
                ls == self.lines(),
                ls == old(self).lines(),
                n == ls.len(),
                i <= n,
                program_spec(ls.take(i as int)) == Ok::<Seq<u32>, (usize, AsmError)>(self.binary@),
            decreases n - i,
        {
            assert(ls.take(i + 1).drop_last() =~= ls.take(i as int));
            assert(ls.take(i + 1).last() == self.stringfile@[i as int]@);
            let line = Assembler::assemble(self.stringfile[i].as_str());
            match line {
                Ok(Some(w)) => self.binary.push(w),
                Ok(None) => {},
                Err(e) => {
                    proof {
                        lemma_error_persists(ls, i + 1);
                    }
                    return Err((i, e));
                },
            }
            i += 1;
        }
        assert(ls.take(n as int) =~= ls);
        let mut image: Vec<u8> = Vec::new();
        let mut k: usize = 0;
        while k < self.binary.len()
            invariant
                ls == self.lines(),
                ls == old(self).lines(),
                program_spec(ls) == Ok::<Seq<u32>, (usize, AsmError)>(self.binary@),
                image@.len() == 4 * k,
                k <= self.binary@.len(),
            decreases self.binary@.len() - k,
        {
            image.push(0);
            image.push(0);
            image.push(0);
            image.push(0);
            k += 1;
        }
        write_words_into(self.binary.as_slice(), &mut image);
        Ok(image)
    }
}

} // verus!
