//! ILOC instructions, their textual form, and the code buffer that the
//! code generator fills: straight-line code with "promises", placeholders
//! for blocks whose contents are only known later and that are paid in
//! before the code is laid out.
use std::collections::HashMap;
use vstd::prelude::*;

use crate::decimal::{int_text, nat_text, push_int, push_nat};
use crate::error::{CompilerError, ErrorView};

verus! {

broadcast use vstd::std_specs::hash::group_hash_axioms;

/// A jump target.
#[derive(Clone, Copy, Debug, PartialEq, Eq, Structural)]
pub struct Label(pub u32);

/// A machine register: the frame pointer, the stack pointer, the base of
/// the data segment, or a numbered virtual register.
#[derive(Clone, Copy, Debug, PartialEq, Eq, Structural)]
pub enum Register {
    Rfp,
    Rsp,
    Rbss,
    R(u32),
}

/// An ILOC operation with its operands.
#[derive(Clone, Copy, Debug)]
pub enum Operation {
    Load(Register, Register),
    LoadI(i32, Register),
    LoadAI(Register, i32, Register),
    LoadAO(Register, Register, Register),
    StoreAI(Register, Register, i32),
    StoreAO(Register, Register, Register),
    Jump(Register),
    JumpI(Label),
    Cbr(Register, Label, Label),
    CmpLT(Register, Register, Register),
    CmpLE(Register, Register, Register),
    CmpEQ(Register, Register, Register),
    CmpGE(Register, Register, Register),
    CmpGT(Register, Register, Register),
    CmpNE(Register, Register, Register),
    Halt,
    Nop,
    I2i(Register, Register),
    Add(Register, Register, Register),
    AddI(Register, i32, Register),
    Sub(Register, Register, Register),
    SubI(Register, i32, Register),
    Mult(Register, Register, Register),
    MultI(Register, i32, Register),
    Div(Register, Register, Register),
    DivI(Register, i32, Register),
    And(Register, Register),
    Or(Register, Register),
    Not(Register),
}

/// The ticket of a promised block of code.
#[derive(Clone, Copy, Debug, PartialEq, Eq, Hash, Structural)]
pub struct Voucher(pub u32);

/// A line of the code buffer: either a delivered instruction or a
/// placeholder for a promised block.
#[derive(Clone, Copy, Debug)]
pub enum CodeLine {
    Promise(Voucher),
    Deliver(Instruction),
}

/// An operation, possibly carrying a label.
#[derive(Clone, Copy, Debug)]
pub enum Instruction {
    Unlabeled(Operation),
    Labeled(Label, Operation),
}

pub open spec fn label_text(l: Label) -> Seq<char> {
    "L"@ + nat_text(l.0 as nat)
}

pub open spec fn register_text(r: Register) -> Seq<char> {
    match r {
        Register::Rfp => "rfp"@,
        Register::Rsp => "rsp"@,
        Register::Rbss => "rbss"@,
        Register::R(n) => "r"@ + nat_text(n as nat),
    }
}

/// `name a, b => c`
pub open spec fn three_reg_text(name: Seq<char>, a: Register, b: Register, c: Register) -> Seq<char> {
    name + register_text(a) + ", "@ + register_text(b) + " => "@ + register_text(c)
}

/// `name a, n => c`
pub open spec fn reg_imm_reg_text(name: Seq<char>, a: Register, n: i32, c: Register) -> Seq<char> {
    name + register_text(a) + ", "@ + int_text(n as int) + " => "@ + register_text(c)
}

/// `name a, b -> c`
pub open spec fn compare_text(name: Seq<char>, a: Register, b: Register, c: Register) -> Seq<char> {
    name + register_text(a) + ", "@ + register_text(b) + " -> "@ + register_text(c)
}

/// The ILOC assembly text of an operation.
pub open spec fn operation_text(op: Operation) -> Seq<char> {
    match op {
        Operation::Load(a, b) => "load "@ + register_text(a) + " => "@ + register_text(b),
        Operation::LoadI(n, r) => "loadI "@ + int_text(n as int) + " => "@ + register_text(r),
        Operation::LoadAI(a, n, b) => reg_imm_reg_text("loadAI "@, a, n, b),
        Operation::LoadAO(a, b, c) => three_reg_text("loadAO "@, a, b, c),
        Operation::StoreAI(a, b, n) => "storeAI "@ + register_text(a) + " => "@ + register_text(b)
            + ", "@ + int_text(n as int),
        Operation::StoreAO(a, b, c) => "storeAO "@ + register_text(a) + " => "@ + register_text(b)
            + ", "@ + register_text(c),
        Operation::Jump(r) => "jump -> "@ + register_text(r),
        Operation::JumpI(l) => "jumpI -> "@ + label_text(l),
        Operation::Cbr(r, a, b) => "cbr "@ + register_text(r) + " -> "@ + label_text(a) + ", "@
            + label_text(b),
        Operation::CmpLT(a, b, c) => compare_text("cmp_LT "@, a, b, c),
        Operation::CmpLE(a, b, c) => compare_text("cmp_LE "@, a, b, c),
        Operation::CmpEQ(a, b, c) => compare_text("cmp_EQ "@, a, b, c),
        Operation::CmpGE(a, b, c) => compare_text("cmp_GE "@, a, b, c),
        Operation::CmpGT(a, b, c) => compare_text("cmp_GT "@, a, b, c),
        Operation::CmpNE(a, b, c) => compare_text("cmp_NE "@, a, b, c),
        Operation::Halt => "halt"@,
        Operation::Nop => "nop"@,
        Operation::I2i(a, b) => "i2i "@ + register_text(a) + " => "@ + register_text(b),
        Operation::Add(a, b, c) => three_reg_text("add "@, a, b, c),
        Operation::AddI(a, n, c) => reg_imm_reg_text("addI "@, a, n, c),
        Operation::Sub(a, b, c) => three_reg_text("sub "@, a, b, c),
        Operation::SubI(a, n, c) => reg_imm_reg_text("subI "@, a, n, c),
        Operation::Mult(a, b, c) => three_reg_text("mult "@, a, b, c),
        Operation::MultI(a, n, c) => reg_imm_reg_text("multI "@, a, n, c),
        Operation::Div(a, b, c) => three_reg_text("div "@, a, b, c),
        Operation::DivI(a, n, c) => reg_imm_reg_text("divI "@, a, n, c),
        Operation::And(a, b) => "and "@ + register_text(a) + " => "@ + register_text(b),
        Operation::Or(a, b) => "or "@ + register_text(a) + " => "@ + register_text(b),
        Operation::Not(r) => "not -> "@ + register_text(r),
    }
}

/// The text of an instruction: its operation, behind `label: ` when it is
/// labelled.
pub open spec fn instruction_text(i: Instruction) -> Seq<char> {
    match i {
        Instruction::Unlabeled(op) => operation_text(op),
        Instruction::Labeled(l, op) => label_text(l) + ": "@ + operation_text(op),
    }
}

fn push_label(out: &mut String, l: Label)
    ensures
        final(out)@ == old(out)@ + label_text(l),
{
    out.append("L");
    push_nat(out, l.0 as u64);
    assert(final(out)@ =~= old(out)@ + label_text(l));
}

fn push_register(out: &mut String, r: Register)
    ensures
        final(out)@ == old(out)@ + register_text(r),
{
    match r {
        Register::Rfp => out.append("rfp"),
        Register::Rsp => out.append("rsp"),
        Register::Rbss => out.append("rbss"),
        Register::R(n) => {
            out.append("r");
            push_nat(out, n as u64);
            assert(final(out)@ =~= old(out)@ + register_text(r));
        },
    }
}

fn push_three_reg(out: &mut String, name: &str, a: Register, b: Register, c: Register)
    ensures
        final(out)@ == old(out)@ + three_reg_text(name@, a, b, c),
{
    out.append(name);
    push_register(out, a);
    out.append(", ");
    push_register(out, b);
    out.append(" => ");
    push_register(out, c);
    assert(final(out)@ =~= old(out)@ + three_reg_text(name@, a, b, c));
}

fn push_reg_imm_reg(out: &mut String, name: &str, a: Register, n: i32, c: Register)
    ensures
        final(out)@ == old(out)@ + reg_imm_reg_text(name@, a, n, c),
{
    out.append(name);
    push_register(out, a);
    out.append(", ");
    push_int(out, n as i64);
    out.append(" => ");
    push_register(out, c);
    assert(final(out)@ =~= old(out)@ + reg_imm_reg_text(name@, a, n, c));
}

fn push_compare(out: &mut String, name: &str, a: Register, b: Register, c: Register)
    ensures
        final(out)@ == old(out)@ + compare_text(name@, a, b, c),
{
    out.append(name);
    push_register(out, a);
    out.append(", ");
    push_register(out, b);
    out.append(" -> ");
    push_register(out, c);
    assert(final(out)@ =~= old(out)@ + compare_text(name@, a, b, c));
}

/// `prefix a sep b`
fn push_two_reg(out: &mut String, prefix: &str, a: Register, sep: &str, b: Register)
    ensures
        final(out)@ == old(out)@ + prefix@ + register_text(a) + sep@ + register_text(b),
{
    out.append(prefix);
    push_register(out, a);
    out.append(sep);
    push_register(out, b);
    assert(final(out)@ =~= old(out)@ + prefix@ + register_text(a) + sep@ + register_text(b));
}

fn push_operation(out: &mut String, op: Operation)
    ensures
        final(out)@ == old(out)@ + operation_text(op),
{
    let ghost start = out@;
    match op {
        Operation::Load(a, b) => {
            push_two_reg(out, "load ", a, " => ", b);
            assert(out@ =~= start + operation_text(op));
        },
        Operation::LoadI(n, r) => {
            out.append("loadI ");
            push_int(out, n as i64);
            out.append(" => ");
            push_register(out, r);
            assert(out@ =~= start + operation_text(op));
        },
        Operation::LoadAI(a, n, b) => push_reg_imm_reg(out, "loadAI ", a, n, b),
        Operation::LoadAO(a, b, c) => push_three_reg(out, "loadAO ", a, b, c),
        Operation::StoreAI(a, b, n) => {
            push_two_reg(out, "storeAI ", a, " => ", b);
            out.append(", ");
            push_int(out, n as i64);
            assert(out@ =~= start + operation_text(op));
        },
        Operation::StoreAO(a, b, c) => {
            push_two_reg(out, "storeAO ", a, " => ", b);
            out.append(", ");
            push_register(out, c);
            assert(out@ =~= start + operation_text(op));
        },
        Operation::Jump(r) => {
            out.append("jump -> ");
            push_register(out, r);
        },
        Operation::JumpI(l) => {
            out.append("jumpI -> ");
            push_label(out, l);
        },
        Operation::Cbr(r, a, b) => {
            out.append("cbr ");
            push_register(out, r);
            out.append(" -> ");
            push_label(out, a);
            out.append(", ");
            push_label(out, b);
            assert(out@ =~= start + operation_text(op));
        },
        Operation::CmpLT(a, b, c) => push_compare(out, "cmp_LT ", a, b, c),
        Operation::CmpLE(a, b, c) => push_compare(out, "cmp_LE ", a, b, c),
        Operation::CmpEQ(a, b, c) => push_compare(out, "cmp_EQ ", a, b, c),
        Operation::CmpGE(a, b, c) => push_compare(out, "cmp_GE ", a, b, c),
        Operation::CmpGT(a, b, c) => push_compare(out, "cmp_GT ", a, b, c),
        Operation::CmpNE(a, b, c) => push_compare(out, "cmp_NE ", a, b, c),
        Operation::Halt => out.append("halt"),
        Operation::Nop => out.append("nop"),
        Operation::I2i(a, b) => {
            push_two_reg(out, "i2i ", a, " => ", b);
            assert(out@ =~= start + operation_text(op));
        },
        Operation::Add(a, b, c) => push_three_reg(out, "add ", a, b, c),
        Operation::AddI(a, n, c) => push_reg_imm_reg(out, "addI ", a, n, c),
        Operation::Sub(a, b, c) => push_three_reg(out, "sub ", a, b, c),
        Operation::SubI(a, n, c) => push_reg_imm_reg(out, "subI ", a, n, c),
        Operation::Mult(a, b, c) => push_three_reg(out, "mult ", a, b, c),
        Operation::MultI(a, n, c) => push_reg_imm_reg(out, "multI ", a, n, c),
        Operation::Div(a, b, c) => push_three_reg(out, "div ", a, b, c),
        Operation::DivI(a, n, c) => push_reg_imm_reg(out, "divI ", a, n, c),
        Operation::And(a, b) => {
            push_two_reg(out, "and ", a, " => ", b);
            assert(out@ =~= start + operation_text(op));
        },
        Operation::Or(a, b) => {
            push_two_reg(out, "or ", a, " => ", b);
            assert(out@ =~= start + operation_text(op));
        },
        Operation::Not(r) => {
            out.append("not -> ");
            push_register(out, r);
        },
    }
}

fn push_instruction(out: &mut String, i: Instruction)
    ensures
        final(out)@ == old(out)@ + instruction_text(i),
{
    match i {
        Instruction::Unlabeled(op) => push_operation(out, op),
        Instruction::Labeled(l, op) => {
            push_label(out, l);
            out.append(": ");
            push_operation(out, op);
            assert(final(out)@ =~= old(out)@ + instruction_text(i));
        },
    }
}

impl Label {
    /// The label's name, `L` followed by its number.
    pub fn to_string(&self) -> (s: String)
        ensures
            s@ == label_text(*self),
    {
        let mut s = String::new();
        push_label(&mut s, *self);
        assert(s@ =~= label_text(*self));
        s
    }
}

impl Register {
    /// The register's name in ILOC assembly.
    pub fn to_string(&self) -> (s: String)
        ensures
            s@ == register_text(*self),
    {
        let mut s = String::new();
        push_register(&mut s, *self);
        assert(s@ =~= register_text(*self));
        s
    }
}

impl Operation {
    /// The operation in ILOC assembly; rendering never fails.
    pub fn to_string(&self) -> (r: Result<String, CompilerError>)
        ensures
            r matches Ok(s) && s@ == operation_text(*self),
    {
        let mut s = String::new();
        push_operation(&mut s, *self);
        assert(s@ =~= operation_text(*self));
        Ok(s)
    }
}

impl Instruction {
    /// The instruction in ILOC assembly; rendering never fails.
    pub fn to_string(&self) -> (r: Result<String, CompilerError>)
        ensures
            r matches Ok(s) && s@ == instruction_text(*self),
    {
        let mut s = String::new();
        push_instruction(&mut s, *self);
        assert(s@ =~= instruction_text(*self));
        Ok(s)
    }
}

/// The promise that stands for the `loadI` of the code's size.
pub open spec fn spec_size_promise() -> Voucher {
    Voucher(0)
}

/// The promise that stands for the jump into `main`.
pub open spec fn spec_main_promise() -> Voucher {
    Voucher(1)
}

/// What a code buffer holds: its lines, the labels of the functions defined
/// so far by name, its three counters, and the blocks paid for each voucher.
pub struct IlocCodeModel {
    pub code_lines: Seq<CodeLine>,
    pub labels: Map<Seq<char>, Label>,
    pub label_counter: u32,
    pub register_counter: u32,
    pub promise_counter: u32,
    pub payments: Map<Voucher, Seq<Instruction>>,
}

/// The buffer into which the code generator writes a program.
pub struct IlocCode {
    code_lines: Vec<CodeLine>,
    label_map: Vec<(String, Label)>,
    label_counter: u32,
    register_counter: u32,
    promise_counter: u32,
    payment_map: HashMap<u32, Vec<Instruction>>,
}

/// The labels named by a list of (name, label) entries, a later entry for a
/// name standing over an earlier one.
pub open spec fn labels_of(entries: Seq<(String, Label)>) -> Map<Seq<char>, Label>
    decreases entries.len(),
{
    if entries.len() == 0 {
        Map::empty()
    } else {
        labels_of(entries.drop_last()).insert(entries.last().0@, entries.last().1)
    }
}

/// The blocks paid, by voucher.
pub open spec fn payments_of(m: Map<u32, Vec<Instruction>>) -> Map<Voucher, Seq<Instruction>> {
    Map::new(|v: Voucher| m.contains_key(v.0), |v: Voucher| m[v.0]@)
}

impl View for IlocCode {
    type V = IlocCodeModel;

    closed spec fn view(&self) -> IlocCodeModel {
        IlocCodeModel {
            code_lines: self.code_lines@,
            labels: labels_of(self.label_map@),
            label_counter: self.label_counter,
            register_counter: self.register_counter,
            promise_counter: self.promise_counter,
            payments: payments_of(self.payment_map@),
        }
    }
}

/// The prologue of every program: the frame and stack pointers start at
/// 1024, the size of the code is loaded into `rbss`, the first activation
/// record is written, control enters `main`, and the machine halts when
/// `main` returns.
pub open spec fn initial_code() -> Seq<CodeLine> {
    seq![
        CodeLine::Deliver(Instruction::Unlabeled(Operation::LoadI(1024, Register::Rfp))),
        CodeLine::Deliver(Instruction::Unlabeled(Operation::LoadI(1024, Register::Rsp))),
        CodeLine::Promise(spec_size_promise()),
        CodeLine::Deliver(Instruction::Unlabeled(Operation::LoadI(8, Register::R(0)))),
        CodeLine::Deliver(Instruction::Unlabeled(Operation::StoreAI(Register::R(0), Register::Rsp, 0))),
        CodeLine::Deliver(Instruction::Unlabeled(Operation::StoreAI(Register::Rsp, Register::Rsp, 4))),
        CodeLine::Deliver(Instruction::Unlabeled(Operation::StoreAI(Register::Rfp, Register::Rsp, 8))),
        CodeLine::Promise(spec_main_promise()),
        CodeLine::Deliver(Instruction::Unlabeled(Operation::Halt)),
    ]
}

/// The text with which a voucher is shown: `Voucher(n)`.
pub open spec fn voucher_text(v: Voucher) -> Seq<char> {
    "Voucher("@ + nat_text(v.0 as nat) + ")"@
}

/// What one line of the buffer becomes when the promises are collected: the
/// size promise stays for last; the main promise becomes a jump to the
/// label of `main`; any other promise becomes the block paid for it; a
/// delivered instruction stays.
pub open spec fn expand_line(line: CodeLine, m: IlocCodeModel) -> Result<Seq<CodeLine>, ErrorView> {
    match line {
        CodeLine::Promise(v) => if v == spec_size_promise() {
            Ok(seq![line])
        } else if v == spec_main_promise() {
            if m.labels.contains_key("main"@) {
                Ok(seq![CodeLine::Deliver(Instruction::Unlabeled(Operation::JumpI(m.labels["main"@])))])
            } else {
                Err(ErrorView::IlocErrorUndefinedBehavior("No main() function found."@))
            }
        } else if m.payments.contains_key(v) {
            Ok(m.payments[v].map_values(|i: Instruction| CodeLine::Deliver(i)))
        } else {
            Err(ErrorView::IlocErrorUndefinedBehavior("Unpaid voucher: "@ + voucher_text(v)))
        },
        CodeLine::Deliver(_) => Ok(seq![line]),
    }
}

/// The lines expanded one after the other; the first line that cannot be
/// expanded decides the error.
pub open spec fn expand_lines(lines: Seq<CodeLine>, m: IlocCodeModel) -> Result<Seq<CodeLine>, ErrorView>
    decreases lines.len(),
{
    if lines.len() == 0 {
        Ok(seq![])
    } else {
        match expand_lines(lines.drop_last(), m) {
            Err(e) => Err(e),
            Ok(prefix) => match expand_line(lines.last(), m) {
                Err(e) => Err(e),
                Ok(more) => Ok(prefix + more),
            },
        }
    }
}

pub open spec fn is_size_promise(line: CodeLine) -> bool {
    line matches CodeLine::Promise(v) && v == spec_size_promise()
}

/// The position of the first size promise at or after `from`.
pub open spec fn size_promise_from(lines: Seq<CodeLine>, from: int) -> Option<int>
    decreases lines.len() - from,
{
    if from < 0 || from >= lines.len() {
        None
    } else if is_size_promise(lines[from]) {
        Some(from)
    } else {
        size_promise_from(lines, from + 1)
    }
}

/// The laid-out code: every promise expanded, then the first size promise
/// replaced by the `loadI` of the number of lines into `rbss`.
pub open spec fn collected_code(m: IlocCodeModel) -> Result<Seq<CodeLine>, ErrorView> {
    match expand_lines(m.code_lines, m) {
        Err(e) => Err(e),
        Ok(lines) => match size_promise_from(lines, 0) {
            None => Err(ErrorView::SanityError("failed to find SIZE_PROMISE position"@)),
            Some(p) => Ok(lines.update(
                p,
                CodeLine::Deliver(Instruction::Unlabeled(Operation::LoadI(lines.len() as i32, Register::Rbss))),
            )),
        },
    }
}

/// The text of a line of the listing: an instruction, or the mark of a
/// promise left unpaid.
pub open spec fn code_line_text(line: CodeLine) -> Seq<char> {
    match line {
        CodeLine::Deliver(i) => instruction_text(i),
        CodeLine::Promise(v) => "Unpaid promise: "@ + voucher_text(v),
    }
}

proof fn lemma_labels_of_skip(entries: Seq<(String, Label)>, i: int, name: Seq<char>)
    requires
        0 <= i <= entries.len(),
        forall|j: int| i <= j < entries.len() ==> entries[j].0@ != name,
    ensures
        labels_of(entries).contains_key(name) == labels_of(entries.take(i)).contains_key(name),
        labels_of(entries).contains_key(name) ==> labels_of(entries)[name] == labels_of(entries.take(i))[name],
    decreases entries.len() - i,
{
    if i < entries.len() {
        let shorter = entries.drop_last();
        assert(shorter.take(i) =~= entries.take(i));
        lemma_labels_of_skip(shorter, i, name);
    } else {
        assert(entries.take(i) =~= entries);
    }
}

proof fn lemma_expand_error_persists(lines: Seq<CodeLine>, m: IlocCodeModel, i: int, n: int)
    requires
        0 <= i <= n <= lines.len(),
        expand_lines(lines.take(i), m) is Err,
    ensures
        expand_lines(lines.take(n), m) == expand_lines(lines.take(i), m),
    decreases n - i,
{
    if n > i {
        lemma_expand_error_persists(lines, m, i, n - 1);
        assert(lines.take(n).drop_last() =~= lines.take(n - 1));
    }
}

fn find_size_promise(lines: &Vec<CodeLine>) -> (r: Option<usize>)
    ensures
        r matches Some(p) ==> size_promise_from(lines@, 0) == Some(p as int) && p < lines@.len(),
        r is None ==> size_promise_from(lines@, 0) is None,
{
    let mut position: usize = 0;
    while position < lines.len()
        invariant
            position <= lines@.len(),
            size_promise_from(lines@, 0) == size_promise_from(lines@, position as int),
        decreases lines@.len() - position,
    {
        match lines[position] {
            CodeLine::Promise(v) => {
                if v.0 == 0 {
                    return Some(position);
                }
            },
            CodeLine::Deliver(_) => {},
        }
        position = position + 1;
    }
    None
}

fn push_voucher(out: &mut String, v: Voucher)
    ensures
        final(out)@ == old(out)@ + voucher_text(v),
{
    out.append("Voucher(");
    push_nat(out, v.0 as u64);
    out.append(")");
    assert(final(out)@ =~= old(out)@ + voucher_text(v));
}

impl IlocCode {
    /// Once line `i` fails to expand, the whole buffer fails with its error.
    proof fn lemma_error_persists(&self, m: IlocCodeModel, i: int)
        requires
            0 <= i < self.code_lines@.len(),
            expand_lines(self.code_lines@.take(i), m) is Ok,
            expand_line(self.code_lines@[i], m) is Err,
        ensures
            expand_lines(self.code_lines@, m) == Err::<Seq<CodeLine>, ErrorView>(
                expand_line(self.code_lines@[i], m)->Err_0,
            ),
    {
        let lines = self.code_lines@;
        assert(lines.take(i + 1).drop_last() =~= lines.take(i));
        assert(lines.take(i + 1).last() == lines[i]);
        lemma_expand_error_persists(lines, m, i + 1, lines.len() as int);
        assert(lines.take(lines.len() as int) =~= lines);
    }

    /// A buffer holding the program prologue, with no label or promise
    /// handed out yet except the two the prologue uses, and register `r0`
    /// taken.
    pub fn new() -> (code: IlocCode)
        ensures
            code@.code_lines == initial_code(),
            code@.labels == Map::<Seq<char>, Label>::empty(),
            code@.label_counter == 0,
            code@.register_counter == 1,
            code@.promise_counter == 2,
            code@.payments == Map::<Voucher, Seq<Instruction>>::empty(),
            code@ == fresh_buffer(),
    {
        let starting_register = Register::R(0);
        let code_lines = vec![
            CodeLine::Deliver(Instruction::Unlabeled(Operation::LoadI(1024, Register::Rfp))),
            CodeLine::Deliver(Instruction::Unlabeled(Operation::LoadI(1024, Register::Rsp))),
            CodeLine::Promise(Voucher(0)),
            CodeLine::Deliver(Instruction::Unlabeled(Operation::LoadI(8, starting_register))),
            CodeLine::Deliver(Instruction::Unlabeled(Operation::StoreAI(starting_register, Register::Rsp, 0))),
            CodeLine::Deliver(Instruction::Unlabeled(Operation::StoreAI(Register::Rsp, Register::Rsp, 4))),
            CodeLine::Deliver(Instruction::Unlabeled(Operation::StoreAI(Register::Rfp, Register::Rsp, 8))),
            CodeLine::Promise(Voucher(1)),
            CodeLine::Deliver(Instruction::Unlabeled(Operation::Halt)),
        ];
        let code = IlocCode {
            code_lines,
            label_map: Vec::new(),
            label_counter: 0,
            register_counter: 1,
            promise_counter: 2,
            payment_map: HashMap::new(),
        };
        assert(code@.code_lines =~= initial_code());
        assert(code@.payments =~= Map::<Voucher, Seq<Instruction>>::empty());
        code
    }

    /// Hands out a fresh voucher, numbered by the promise counter.
    pub fn generate_promise(&mut self) -> (v: Voucher)
        requires
            old(self)@.promise_counter < u32::MAX,
        ensures
            v == Voucher(old(self)@.promise_counter),
            final(self)@ == (IlocCodeModel { promise_counter: (old(self)@.promise_counter + 1) as u32, ..old(self)@ }),
            final(self)@ == after_call(old(self)@, BufferCall::GeneratePromise),
    {
        let promise_number = self.promise_counter;
        self.promise_counter = self.promise_counter + 1;
        Voucher(promise_number)
    }

    /// Records the block that stands for `voucher`, replacing any block paid
    /// for it before.
    pub fn pay_promise(&mut self, voucher: Voucher, payment: Vec<Instruction>)
        ensures
            final(self)@ == (IlocCodeModel {
                payments: old(self)@.payments.insert(voucher, payment@),
                ..old(self)@
            }),
            final(self)@ == after_call(old(self)@, BufferCall::PayPromise(voucher, payment@)),
    {
        let ghost p = payment@;
        self.payment_map.insert(voucher.0, payment);
        proof {
            broadcast use vstd::std_specs::hash::group_hash_axioms;
            assert(payments_of(self.payment_map@) =~= payments_of(old(self).payment_map@).insert(voucher, p));
        }
    }

    fn find_label(&self, name: &String) -> (r: Option<Label>)
        ensures
            r == (if self@.labels.contains_key(name@) { Some(self@.labels[name@]) } else { None::<Label> }),
    {
        let mut i = self.label_map.len();
        while i > 0
            invariant
                i <= self.label_map@.len(),
                forall|j: int| i <= j < self.label_map@.len() ==> self.label_map@[j].0@ != name@,
            decreases i,
        {
            let entry = &self.label_map[i - 1];
            if entry.0 == *name {
                proof {
                    let e = self.label_map@;
                    lemma_labels_of_skip(e, i as int, name@);
                    assert(e.take(i as int).drop_last() =~= e.take(i - 1));
                    assert(e.take(i as int).last() == e[i - 1]);
                }
                return Some(entry.1);
            }
            i = i - 1;
        }
        proof {
            lemma_labels_of_skip(self.label_map@, 0, name@);
            assert(self.label_map@.take(0) =~= Seq::<(String, Label)>::empty());
        }
        None
    }

    /// Lays the code out: every promise is replaced by its block (the jump
    /// into `main` for the main promise), and then the size promise by the
    /// `loadI` of the final number of lines into `rbss`. On an error the
    /// buffer is left as it was.
    pub fn collect_promises(&mut self) -> (r: Result<(), CompilerError>)
        ensures
            match collected_code(old(self)@) {
                Ok(lines) => r is Ok && final(self)@ == (IlocCodeModel { code_lines: lines, ..old(self)@ }),
                Err(e) => r matches Err(err) && err@ == e && final(self)@ == old(self)@,
            },
    {
        let ghost m = self@;
        let mut new_code: Vec<CodeLine> = Vec::new();
        let mut i: usize = 0;
        while i < self.code_lines.len()
            invariant
                m == self@,
                i <= self.code_lines@.len(),
                expand_lines(self.code_lines@.take(i as int), m) == Ok::<Seq<CodeLine>, ErrorView>(new_code@),
            decreases self.code_lines@.len() - i,
        {
            let line = self.code_lines[i];
            let ghost prefix = new_code@;
            proof {
                assert(self.code_lines@.take(i + 1).drop_last() =~= self.code_lines@.take(i as int));
                assert(self.code_lines@.take(i + 1).last() == line);
            }
            match line {
                CodeLine::Promise(voucher) => {
                    if voucher.0 == 0 {
                        new_code.push(line);
                        assert(expand_line(line, m) == Ok::<Seq<CodeLine>, ErrorView>(seq![line]));
                    } else if voucher.0 == 1 {
                        let main_name = String::from_str("main");
                        match self.find_label(&main_name) {
                            Some(label) => {
                                new_code.push(CodeLine::Deliver(Instruction::Unlabeled(Operation::JumpI(label))));
                                assert(expand_line(line, m) == Ok::<Seq<CodeLine>, ErrorView>(
                                    seq![CodeLine::Deliver(Instruction::Unlabeled(Operation::JumpI(label)))]));
                            },
                            None => {
                                proof { self.lemma_error_persists(m, i as int); }
                                return Err(CompilerError::IlocErrorUndefinedBehavior(
                                    String::from_str("No main() function found."),
                                ));
                            },
                        }
                    } else {
                        match self.payment_map.get(&voucher.0) {
                            Some(payment) => {
                                let ghost before = new_code@;
                                let mut k: usize = 0;
                                while k < payment.len()
                                    invariant
                                        k <= payment@.len(),
                                        new_code@ == before + payment@.take(k as int).map_values(|ins: Instruction| CodeLine::Deliver(ins)),
                                    decreases payment@.len() - k,
                                {
                                    new_code.push(CodeLine::Deliver(payment[k]));
                                    assert(payment@.take(k + 1) =~= payment@.take(k as int).push(payment@[k as int]));
                                    k = k + 1;
                                    assert(new_code@ =~= before + payment@.take(k as int).map_values(|ins: Instruction| CodeLine::Deliver(ins)));
                                }
                                assert(payment@.take(k as int) =~= payment@);
                                assert(m.payments.contains_key(voucher));
                                assert(m.payments[voucher] == payment@);
                                assert(expand_line(line, m) == Ok::<Seq<CodeLine>, ErrorView>(
                                    payment@.map_values(|ins: Instruction| CodeLine::Deliver(ins))));
                            },
                            None => {
                                let mut message = String::from_str("Unpaid voucher: ");
                                push_voucher(&mut message, voucher);
                                proof { self.lemma_error_persists(m, i as int); }
                                return Err(CompilerError::IlocErrorUndefinedBehavior(message));
                            },
                        }
                    }
                },
                CodeLine::Deliver(_) => {
                    new_code.push(line);
                    assert(expand_line(line, m) == Ok::<Seq<CodeLine>, ErrorView>(seq![line]));
                },
            }
            assert(new_code@ =~= prefix + expand_line(line, m)->Ok_0);
            i = i + 1;
        }
        proof {
            assert(self.code_lines@.take(i as int) =~= self.code_lines@);
        }
        assert(expand_lines(m.code_lines, m) == Ok::<Seq<CodeLine>, ErrorView>(new_code@));
        let code_len = #[verifier::truncate] (new_code.len() as i32);
        let position = match find_size_promise(&new_code) {
            Some(p) => p,
            None => {
                return Err(CompilerError::SanityError(String::from_str("failed to find SIZE_PROMISE position")));
            },
        };
        assert(size_promise_from(new_code@, 0) == Some(position as int));
        new_code.set(position, CodeLine::Deliver(Instruction::Unlabeled(Operation::LoadI(code_len, Register::Rbss))));
        self.code_lines = new_code;
        Ok(())
    }

    /// Hands out a fresh label, numbered by the label counter.
    pub fn new_label(&mut self) -> (l: Label)
        requires
            old(self)@.label_counter < u32::MAX,
        ensures
            l == Label(old(self)@.label_counter),
            final(self)@ == (IlocCodeModel { label_counter: (old(self)@.label_counter + 1) as u32, ..old(self)@ }),
            final(self)@ == after_call(old(self)@, BufferCall::NewLabel),
    {
        let new_label_value = self.label_counter;
        self.label_counter = self.label_counter + 1;
        Label(new_label_value)
    }

    /// Hands out a fresh virtual register, numbered by the register counter.
    pub fn new_register(&mut self) -> (r: Register)
        requires
            old(self)@.register_counter < u32::MAX,
        ensures
            r == Register::R(old(self)@.register_counter),
            final(self)@ == (IlocCodeModel {
                register_counter: (old(self)@.register_counter + 1) as u32,
                ..old(self)@
            }),
            final(self)@ == after_call(old(self)@, BufferCall::NewRegister),
    {
        let new_register_value = self.register_counter;
        self.register_counter = self.register_counter + 1;
        Register::R(new_register_value)
    }

    /// Hands out a fresh label and records it as the entry point of the
    /// function `fn_name`, replacing the label it had before.
    pub fn add_fn_label(&mut self, fn_name: String) -> (l: Label)
        requires
            old(self)@.label_counter < u32::MAX,
        ensures
            l == Label(old(self)@.label_counter),
            final(self)@ == (IlocCodeModel {
                label_counter: (old(self)@.label_counter + 1) as u32,
                labels: old(self)@.labels.insert(fn_name@, l),
                ..old(self)@
            }),
            final(self)@ == after_call(old(self)@, BufferCall::AddFnLabel(fn_name@)),
    {
        let new_label = Label(self.label_counter);
        self.label_counter = self.label_counter + 1;
        self.label_map.push((fn_name, new_label));
        proof {
            let e = self.label_map@;
            assert(e.drop_last() =~= old(self).label_map@);
        }
        new_label
    }

    /// How many labels have been handed out.
    pub fn label_count(&self) -> (r: u32)
        ensures
            r == self@.label_counter,
    {
        self.label_counter
    }

    /// The number of the next register to be handed out.
    pub fn register_count(&self) -> (r: u32)
        ensures
            r == self@.register_counter,
    {
        self.register_counter
    }

    /// Appends a line to the code.
    pub fn push_code(&mut self, code: CodeLine)
        ensures
            final(self)@ == (IlocCodeModel { code_lines: old(self)@.code_lines.push(code), ..old(self)@ }),
            final(self)@ == after_call(old(self)@, BufferCall::PushCode(code)),
    {
        self.code_lines.push(code);
    }

    /// The listing of the code, one text per line: each instruction in ILOC
    /// assembly, and a mark for each promise still unpaid.
    pub fn listing(&self) -> (texts: Vec<String>)
        ensures
            texts@.len() == self@.code_lines.len(),
            forall|k: int| 0 <= k < texts@.len() ==> #[trigger] texts@[k]@ == code_line_text(self@.code_lines[k]),
    {
        let mut texts: Vec<String> = Vec::new();
        let mut i: usize = 0;
        while i < self.code_lines.len()
            invariant
                i <= self.code_lines@.len(),
                texts@.len() == i,
                forall|k: int| 0 <= k < i ==> #[trigger] texts@[k]@ == code_line_text(self.code_lines@[k]),
            decreases self.code_lines@.len() - i,
        {
            let mut text = String::new();
            match self.code_lines[i] {
                CodeLine::Deliver(instruction) => push_instruction(&mut text, instruction),
                CodeLine::Promise(voucher) => {
                    text.append("Unpaid promise: ");
                    push_voucher(&mut text, voucher);
                },
            }
            assert(text@ =~= code_line_text(self.code_lines@[i as int]));
            texts.push(text);
            i = i + 1;
        }
        texts
    }
}

/// Whether a line is a promise still to be paid.
pub open spec fn is_promise(line: CodeLine) -> bool {
    line is Promise
}

/// Whether every promise of the buffer can be collected: the main promise
/// only when `main` has a label, any other promise but the size promise only
/// when it has been paid.
pub open spec fn promises_payable(m: IlocCodeModel) -> bool {
    forall|i: int| 0 <= i < m.code_lines.len() ==> match #[trigger] m.code_lines[i] {
        CodeLine::Promise(v) => v == spec_size_promise()
            || (v == spec_main_promise() && m.labels.contains_key("main"@))
            || (v != spec_main_promise() && m.payments.contains_key(v)),
        CodeLine::Deliver(_) => true,
    }
}

/// The number of size promises among some lines.
pub open spec fn size_promise_count(lines: Seq<CodeLine>) -> nat
    decreases lines.len(),
{
    if lines.len() == 0 {
        0
    } else {
        size_promise_count(lines.drop_last()) + if is_size_promise(lines.last()) { 1nat } else { 0nat }
    }
}

/// Whether no line is a promise other than the size promise.
pub open spec fn only_size_promises(lines: Seq<CodeLine>) -> bool {
    forall|i: int| 0 <= i < lines.len() && is_promise(#[trigger] lines[i]) ==> is_size_promise(lines[i])
}

proof fn lemma_size_promise_count_concat(a: Seq<CodeLine>, b: Seq<CodeLine>)
    ensures
        size_promise_count(a + b) == size_promise_count(a) + size_promise_count(b),
    decreases b.len(),
{
    if b.len() == 0 {
        assert(a + b =~= a);
    } else {
        lemma_size_promise_count_concat(a, b.drop_last());
        assert((a + b).drop_last() =~= a + b.drop_last());
    }
}

proof fn lemma_expand_payable(lines: Seq<CodeLine>, m: IlocCodeModel)
    requires
        forall|i: int| 0 <= i < lines.len() ==> match #[trigger] lines[i] {
            CodeLine::Promise(v) => v == spec_size_promise()
                || (v == spec_main_promise() && m.labels.contains_key("main"@))
                || (v != spec_main_promise() && m.payments.contains_key(v)),
            CodeLine::Deliver(_) => true,
        },
    ensures
        expand_lines(lines, m) is Ok,
        only_size_promises(expand_lines(lines, m)->Ok_0),
        size_promise_count(expand_lines(lines, m)->Ok_0) == size_promise_count(lines),
    decreases lines.len(),
{
    if lines.len() > 0 {
        let shorter = lines.drop_last();
        assert forall|i: int| 0 <= i < shorter.len() implies match #[trigger] shorter[i] {
            CodeLine::Promise(v) => v == spec_size_promise()
                || (v == spec_main_promise() && m.labels.contains_key("main"@))
                || (v != spec_main_promise() && m.payments.contains_key(v)),
            CodeLine::Deliver(_) => true,
        } by {
            assert(shorter[i] == lines[i]);
        }
        lemma_expand_payable(shorter, m);
        let prefix = expand_lines(shorter, m)->Ok_0;
        let last = lines.last();
        assert(lines[lines.len() - 1] == last);
        let more = expand_line(last, m)->Ok_0;
        assert(expand_line(last, m) is Ok);
        assert(only_size_promises(more)) by {
            assert forall|i: int| 0 <= i < more.len() && is_promise(#[trigger] more[i]) implies is_size_promise(more[i]) by {
                match last {
                    CodeLine::Promise(v) => {
                        if v == spec_size_promise() {
                        } else if v == spec_main_promise() {
                        } else {
                            assert(more[i] == CodeLine::Deliver(m.payments[v][i]));
                        }
                    },
                    CodeLine::Deliver(_) => {},
                }
            }
        }
        assert(size_promise_count(more) == if is_size_promise(last) { 1nat } else { 0nat }) by {
            match last {
                CodeLine::Promise(v) => {
                    if v == spec_size_promise() {
                        lemma_count_single(last);
                    } else if v == spec_main_promise() {
                        lemma_count_single(more[0]);
                        assert(more =~= seq![more[0]]);
                    } else {
                        lemma_no_size_promise_count(more);
                    }
                },
                CodeLine::Deliver(_) => {
                    lemma_count_single(last);
                },
            }
        }
        lemma_size_promise_count_concat(prefix, more);
        let whole = prefix + more;
        assert forall|i: int| 0 <= i < whole.len() && is_promise(#[trigger] whole[i]) implies is_size_promise(whole[i]) by {
            if i < prefix.len() {
                assert(whole[i] == prefix[i]);
            } else {
                assert(whole[i] == more[i - prefix.len()]);
            }
        }
    }
}

proof fn lemma_count_single(line: CodeLine)
    ensures
        size_promise_count(seq![line]) == if is_size_promise(line) { 1nat } else { 0nat },
{
    let one = seq![line];
    assert(one.drop_last() =~= Seq::<CodeLine>::empty());
    assert(one.last() == line);
    assert(size_promise_count(Seq::<CodeLine>::empty()) == 0);
}

proof fn lemma_no_size_promise_count(lines: Seq<CodeLine>)
    requires
        forall|i: int| 0 <= i < lines.len() ==> !is_promise(#[trigger] lines[i]),
    ensures
        size_promise_count(lines) == 0,
    decreases lines.len(),
{
    if lines.len() > 0 {
        assert(!is_promise(lines[lines.len() - 1]));
        let shorter = lines.drop_last();
        assert forall|i: int| 0 <= i < shorter.len() implies !is_promise(#[trigger] shorter[i]) by {
            assert(shorter[i] == lines[i]);
        }
        lemma_no_size_promise_count(shorter);
    }
}

proof fn lemma_first_size_promise(lines: Seq<CodeLine>, from: int)
    requires
        0 <= from <= lines.len(),
        size_promise_count(lines) >= 1,
        forall|i: int| 0 <= i < from ==> !is_size_promise(#[trigger] lines[i]),
    ensures
        size_promise_from(lines, from) is Some,
        size_promise_from(lines, from) matches Some(p) ==> from <= p < lines.len() && is_size_promise(lines[p])
            && forall|i: int| 0 <= i < p ==> !is_size_promise(#[trigger] lines[i]),
    decreases lines.len() - from,
{
    if from == lines.len() {
        lemma_count_of_no_size_promise(lines);
    } else if !is_size_promise(lines[from]) {
        lemma_first_size_promise(lines, from + 1);
    }
}

proof fn lemma_count_of_no_size_promise(lines: Seq<CodeLine>)
    requires
        forall|i: int| 0 <= i < lines.len() ==> !is_size_promise(#[trigger] lines[i]),
    ensures
        size_promise_count(lines) == 0,
    decreases lines.len(),
{
    if lines.len() > 0 {
        let shorter = lines.drop_last();
        assert(!is_size_promise(lines[lines.len() - 1]));
        assert forall|i: int| 0 <= i < shorter.len() implies !is_size_promise(#[trigger] shorter[i]) by {
            assert(shorter[i] == lines[i]);
        }
        lemma_count_of_no_size_promise(shorter);
    }
}

proof fn lemma_single_size_promise(lines: Seq<CodeLine>, p: int)
    requires
        0 <= p < lines.len(),
        size_promise_count(lines) == 1,
        is_size_promise(lines[p]),
    ensures
        forall|i: int| 0 <= i < lines.len() && i != p ==> !is_size_promise(#[trigger] lines[i]),
    decreases lines.len(),
{
    let shorter = lines.drop_last();
    if p == lines.len() - 1 {
        assert forall|i: int| 0 <= i < lines.len() && i != p implies !is_size_promise(#[trigger] lines[i]) by {
            if is_size_promise(lines[i]) {
                assert(shorter[i] == lines[i]);
                lemma_count_positive(shorter, i);
            }
        }
    } else {
        assert(shorter[p] == lines[p]);
        lemma_count_positive(shorter, p);
        assert(!is_size_promise(lines.last()));
        lemma_single_size_promise(shorter, p);
        assert forall|i: int| 0 <= i < lines.len() && i != p implies !is_size_promise(#[trigger] lines[i]) by {
            if i < lines.len() - 1 {
                assert(shorter[i] == lines[i]);
            }
        }
    }
}

proof fn lemma_count_positive(lines: Seq<CodeLine>, i: int)
    requires
        0 <= i < lines.len(),
        is_size_promise(lines[i]),
    ensures
        size_promise_count(lines) >= 1,
    decreases lines.len(),
{
    if i < lines.len() - 1 {
        let shorter = lines.drop_last();
        assert(shorter[i] == lines[i]);
        lemma_count_positive(shorter, i);
    }
}

/// When every promise of a buffer can be paid and it holds exactly one size
/// promise, collecting the promises succeeds and leaves no promise at all in
/// the code.
pub proof fn law_collect_leaves_no_promise(m: IlocCodeModel)
    requires
        promises_payable(m),
        size_promise_count(m.code_lines) == 1,
    ensures
        collected_code(m) is Ok,
        forall|i: int| 0 <= i < collected_code(m)->Ok_0.len() ==> !is_promise(#[trigger] collected_code(m)->Ok_0[i]),
{
    lemma_expand_payable(m.code_lines, m);
    let lines = expand_lines(m.code_lines, m)->Ok_0;
    lemma_first_size_promise(lines, 0);
    let p = size_promise_from(lines, 0)->Some_0;
    lemma_single_size_promise(lines, p);
    let out = collected_code(m)->Ok_0;
    assert forall|i: int| 0 <= i < out.len() implies !is_promise(#[trigger] out[i]) by {
        if i != p {
            assert(out[i] == lines[i]);
            assert(!is_size_promise(lines[i]));
        }
    }
}

/// The size that the laid-out code loads into `rbss` is its own number of
/// lines (as an `i32`), and it stands where the first size promise stood.
pub proof fn law_collected_size_is_code_length(m: IlocCodeModel)
    requires
        collected_code(m) is Ok,
    ensures
        exists|p: int| 0 <= p < collected_code(m)->Ok_0.len()
            && collected_code(m)->Ok_0[p] == CodeLine::Deliver(Instruction::Unlabeled(
                Operation::LoadI(collected_code(m)->Ok_0.len() as i32, Register::Rbss),
            )),
{
    let lines = expand_lines(m.code_lines, m)->Ok_0;
    let p = size_promise_from(lines, 0)->Some_0;
    lemma_size_promise_from_bounds(lines, 0);
    assert(collected_code(m)->Ok_0[p] == CodeLine::Deliver(Instruction::Unlabeled(
        Operation::LoadI(collected_code(m)->Ok_0.len() as i32, Register::Rbss))));
}

proof fn lemma_size_promise_from_bounds(lines: Seq<CodeLine>, from: int)
    requires
        0 <= from,
    ensures
        size_promise_from(lines, from) matches Some(p) ==> from <= p < lines.len(),
    decreases lines.len() - from,
{
    if from < lines.len() && !is_size_promise(lines[from]) {
        lemma_size_promise_from_bounds(lines, from + 1);
    }
}

/// Labels, registers and vouchers are handed out from counters that only
/// grow: one handed out after another is a different one. (A fresh
/// buffer's vouchers start above the two that its prologue reserves.)
pub proof fn law_handed_out_names_are_fresh(before: IlocCodeModel, after: IlocCodeModel)
    requires
        before.label_counter < after.label_counter,
        before.register_counter < after.register_counter,
        before.promise_counter < after.promise_counter,
    ensures
        Label(before.label_counter) != Label(after.label_counter),
        Register::R(before.register_counter) != Register::R(after.register_counter),
        Voucher(before.promise_counter) != Voucher(after.promise_counter),
        after.promise_counter > 2 ==> Voucher(after.promise_counter) != spec_size_promise()
            && Voucher(after.promise_counter) != spec_main_promise(),
{
}

/// A call that changes a code buffer (other than laying it out), with its
/// arguments.
pub enum BufferCall {
    GeneratePromise,
    PayPromise(Voucher, Seq<Instruction>),
    NewLabel,
    AddFnLabel(Seq<char>),
    NewRegister,
    PushCode(CodeLine),
}

/// What a buffer becomes after a call.
pub open spec fn after_call(m: IlocCodeModel, c: BufferCall) -> IlocCodeModel {
    match c {
        BufferCall::GeneratePromise => IlocCodeModel { promise_counter: (m.promise_counter + 1) as u32, ..m },
        BufferCall::PayPromise(v, p) => IlocCodeModel { payments: m.payments.insert(v, p), ..m },
        BufferCall::NewLabel => IlocCodeModel { label_counter: (m.label_counter + 1) as u32, ..m },
        BufferCall::AddFnLabel(name) => IlocCodeModel {
            label_counter: (m.label_counter + 1) as u32,
            labels: m.labels.insert(name, Label(m.label_counter)),
            ..m
        },
        BufferCall::NewRegister => IlocCodeModel { register_counter: (m.register_counter + 1) as u32, ..m },
        BufferCall::PushCode(line) => IlocCodeModel { code_lines: m.code_lines.push(line), ..m },
    }
}

/// What a buffer becomes after a series of calls, in order.
pub open spec fn after_calls(m: IlocCodeModel, cs: Seq<BufferCall>) -> IlocCodeModel
    decreases cs.len(),
{
    if cs.len() == 0 {
        m
    } else {
        after_call(after_calls(m, cs.drop_last()), cs.last())
    }
}

/// The buffer that `IlocCode::new` makes.
pub open spec fn fresh_buffer() -> IlocCodeModel {
    IlocCodeModel {
        code_lines: initial_code(),
        labels: Map::empty(),
        label_counter: 0,
        register_counter: 1,
        promise_counter: 2,
        payments: Map::empty(),
    }
}

/// How many calls of a series hand out a voucher.
pub open spec fn promise_calls(cs: Seq<BufferCall>) -> nat
    decreases cs.len(),
{
    if cs.len() == 0 { 0 } else { promise_calls(cs.drop_last()) + if cs.last() is GeneratePromise { 1nat } else { 0nat } }
}

/// How many calls of a series hand out a label.
pub open spec fn label_calls(cs: Seq<BufferCall>) -> nat
    decreases cs.len(),
{
    if cs.len() == 0 {
        0
    } else {
        label_calls(cs.drop_last()) + if cs.last() is NewLabel || cs.last() is AddFnLabel { 1nat } else { 0nat }
    }
}

/// How many calls of a series hand out a register.
pub open spec fn register_calls(cs: Seq<BufferCall>) -> nat
    decreases cs.len(),
{
    if cs.len() == 0 { 0 } else { register_calls(cs.drop_last()) + if cs.last() is NewRegister { 1nat } else { 0nat } }
}

/// Whether a call can be made on the buffer `m`: each call that hands out a
/// voucher, a label or a register needs its counter below `u32::MAX`.
pub open spec fn call_allowed(m: IlocCodeModel, c: BufferCall) -> bool {
    match c {
        BufferCall::GeneratePromise => m.promise_counter < u32::MAX,
        BufferCall::NewLabel | BufferCall::AddFnLabel(_) => m.label_counter < u32::MAX,
        BufferCall::NewRegister => m.register_counter < u32::MAX,
        _ => true,
    }
}

/// Whether the series of calls `cs` can be made in order on the buffer `m`.
pub open spec fn calls_allowed(m: IlocCodeModel, cs: Seq<BufferCall>) -> bool
    decreases cs.len(),
{
    cs.len() == 0 || (calls_allowed(m, cs.drop_last()) && call_allowed(after_calls(m, cs.drop_last()), cs.last()))
}

/// Vouchers, labels and registers are numbered in sequence: after any
/// series of calls that can be made on a new buffer, with `k` vouchers,
/// `l` labels and `g` registers handed out, the next ones are
/// `Voucher(2 + k)`, `Label(l)` and `R(g + 1)` (vouchers 0 and 1 and
/// register `r0` being the prologue's).
pub proof fn law_names_in_sequence(cs: Seq<BufferCall>)
    requires
        calls_allowed(fresh_buffer(), cs),
    ensures
        after_calls(fresh_buffer(), cs).promise_counter == 2 + promise_calls(cs),
        after_calls(fresh_buffer(), cs).label_counter == label_calls(cs),
        after_calls(fresh_buffer(), cs).register_counter == 1 + register_calls(cs),
    decreases cs.len(),
{
    if cs.len() > 0 {
        law_names_in_sequence(cs.drop_last());
    }
}

/// Each voucher, label or register is handed out once: of two calls of a
/// series that can be made on a new buffer, the later one hands out a
/// greater number than the earlier one (for the same kind of name).
pub proof fn law_names_are_distinct(cs: Seq<BufferCall>, i: int, j: int)
    requires
        calls_allowed(fresh_buffer(), cs),
        0 <= i < j < cs.len(),
    ensures
        cs[i] is GeneratePromise && cs[j] is GeneratePromise ==> after_calls(fresh_buffer(), cs.take(i)).promise_counter
            < after_calls(fresh_buffer(), cs.take(j)).promise_counter,
        (cs[i] is NewLabel || cs[i] is AddFnLabel) && (cs[j] is NewLabel || cs[j] is AddFnLabel)
            ==> after_calls(fresh_buffer(), cs.take(i)).label_counter < after_calls(fresh_buffer(), cs.take(j)).label_counter,
        cs[i] is NewRegister && cs[j] is NewRegister ==> after_calls(fresh_buffer(), cs.take(i)).register_counter
            < after_calls(fresh_buffer(), cs.take(j)).register_counter,
{
    lemma_allowed_prefix(cs, j);
    lemma_allowed_prefix(cs, i + 1);
    law_names_in_sequence(cs.take(j));
    law_names_in_sequence(cs.take(i + 1));
    lemma_allowed_prefix(cs, i);
    law_names_in_sequence(cs.take(i));
    assert(cs.take(i + 1).drop_last() =~= cs.take(i));
    lemma_counts_grow(cs, i + 1, j);
}

proof fn lemma_allowed_prefix(cs: Seq<BufferCall>, n: int)
    requires
        calls_allowed(fresh_buffer(), cs),
        0 <= n <= cs.len(),
    ensures
        calls_allowed(fresh_buffer(), cs.take(n)),
    decreases cs.len() - n,
{
    if n < cs.len() {
        assert(cs.take(n + 1).drop_last() =~= cs.take(n));
        if n + 1 == cs.len() {
            assert(cs.take(n + 1) =~= cs);
        } else {
            lemma_allowed_prefix(cs, n + 1);
        }
    } else {
        assert(cs.take(n) =~= cs);
    }
}

proof fn lemma_counts_grow(cs: Seq<BufferCall>, a: int, b: int)
    requires
        0 <= a <= b <= cs.len(),
    ensures
        promise_calls(cs.take(a)) <= promise_calls(cs.take(b)),
        label_calls(cs.take(a)) <= label_calls(cs.take(b)),
        register_calls(cs.take(a)) <= register_calls(cs.take(b)),
    decreases b - a,
{
    if a < b {
        assert(cs.take(b).drop_last() =~= cs.take(b - 1));
        lemma_counts_grow(cs, a, b - 1);
    }
}

/// Promises are collected once: when every promise of a buffer can be paid
/// and its code holds one size promise, a second collection after the
/// first finds no size promise and fails with the sanity error.
pub proof fn law_promises_collected_once(m: IlocCodeModel)
    requires
        promises_payable(m),
        size_promise_count(m.code_lines) == 1,
    ensures
        collected_code(m) matches Ok(lines) && collected_code(IlocCodeModel { code_lines: lines, ..m })
            == Err::<Seq<CodeLine>, ErrorView>(ErrorView::SanityError("failed to find SIZE_PROMISE position"@)),
{
    law_collect_leaves_no_promise(m);
    let lines = collected_code(m)->Ok_0;
    let m2 = IlocCodeModel { code_lines: lines, ..m };
    lemma_expand_plain(lines, m2);
    lemma_no_size_promise_from(lines, 0);
}

proof fn lemma_expand_plain(lines: Seq<CodeLine>, m: IlocCodeModel)
    requires
        forall|i: int| 0 <= i < lines.len() ==> !is_promise(#[trigger] lines[i]),
    ensures
        expand_lines(lines, m) == Ok::<Seq<CodeLine>, ErrorView>(lines),
    decreases lines.len(),
{
    if lines.len() > 0 {
        let shorter = lines.drop_last();
        assert forall|i: int| 0 <= i < shorter.len() implies !is_promise(#[trigger] shorter[i]) by {
            assert(shorter[i] == lines[i]);
        }
        lemma_expand_plain(shorter, m);
        assert(!is_promise(lines[lines.len() - 1]));
        assert(lines.last() is Deliver);
        assert(expand_line(lines.last(), m) == Ok::<Seq<CodeLine>, ErrorView>(seq![lines.last()]));
        assert(shorter + seq![lines.last()] =~= lines);
    } else {
        assert(lines =~= seq![]);
    }
}

proof fn lemma_no_size_promise_from(lines: Seq<CodeLine>, from: int)
    requires
        forall|i: int| 0 <= i < lines.len() ==> !is_promise(#[trigger] lines[i]),
        0 <= from,
    ensures
        size_promise_from(lines, from) is None,
    decreases lines.len() - from,
{
    if from < lines.len() {
        assert(!is_promise(lines[from]));
        lemma_no_size_promise_from(lines, from + 1);
    }
}

/// A paid promise is laid out as exactly its payment: once `p` is paid for
/// voucher `v` (neither the size nor the main promise), a line
/// `Promise(v)` expands to the instructions of `p`, in order.
pub proof fn law_paid_promise_is_laid_out(m: IlocCodeModel, v: Voucher, p: Seq<Instruction>)
    requires
        v != spec_size_promise(),
        v != spec_main_promise(),
    ensures
        expand_line(CodeLine::Promise(v), after_call(m, BufferCall::PayPromise(v, p))) matches Ok(lines)
            && lines.len() == p.len()
            && forall|i: int| 0 <= i < p.len() ==> lines[i] == CodeLine::Deliver(#[trigger] p[i]),
{
}

} // verus!
