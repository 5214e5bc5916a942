use vstd::prelude::*;
use crate::strutil::{
    contains_seq, contains_substring, dec_chars_i64, find_char_from, find_from, i64_to_string,
    lemma_find_from_range, match_at, parse_u64_dec, parse_u64_dec_spec, parse_u64_hex,
    parse_u64_hex_spec, starts_with_str, trim_ascii, trim_chars,
};

verus! {

/// The instruction set of the stack machine.
#[allow(non_camel_case_types)]
#[derive(Clone, Copy, Debug, PartialEq, Eq, Structural)]
pub enum NoeticOpcode {
    LOAD(i64),
    STORE(usize),
    ADD,
    SUB,
    JUMP(usize),
    JUMP_IF(usize),
    RESONATE(u64),
    NOETIC_BRIDGE,
    INFUSE_ANIMA,
    PRINT,
    HALT,
}

/// The mathematical state of the machine: stack, memory, program
/// counter, resonance flag and emitted output lines.
pub struct VmState {
    pub stack: Seq<i64>,
    pub memory: Seq<i64>,
    pub pc: int,
    pub resonance_active: bool,
    pub output: Seq<Seq<char>>,
}

/// Two's-complement wrap of a sum or difference of two 64-bit
/// values.
pub open spec fn wrap_i64(x: int) -> int {
    if x > i64::MAX {
        x - 0x1_0000_0000_0000_0000
    } else if x < i64::MIN {
        x + 0x1_0000_0000_0000_0000
    } else {
        x
    }
}

/// One machine step.
pub open spec fn vm_step(prog: Seq<NoeticOpcode>, st: VmState) -> VmState
    recommends
        0 <= st.pc < prog.len(),
{
    let next = st.pc + 1;
    match prog[st.pc] {
        NoeticOpcode::LOAD(v) => VmState { stack: st.stack.push(v), pc: next, ..st },
        NoeticOpcode::STORE(addr) => {
            if st.stack.len() > 0 {
                let v = st.stack.last();
                if (addr as int) < st.memory.len() {
                    VmState {
                        stack: st.stack.drop_last(),
                        memory: st.memory.update(addr as int, v),
                        pc: next,
                        ..st
                    }
                } else {
                    VmState { stack: st.stack.drop_last(), pc: next, ..st }
                }
            } else {
                VmState { pc: next, ..st }
            }
        },
        NoeticOpcode::ADD => {
            let b = if st.stack.len() > 0 { st.stack.last() } else { 0i64 };
            let s1 = if st.stack.len() > 0 { st.stack.drop_last() } else { st.stack };
            let a = if s1.len() > 0 { s1.last() } else { 0i64 };
            let s2 = if s1.len() > 0 { s1.drop_last() } else { s1 };
            VmState { stack: s2.push(wrap_i64(a + b) as i64), pc: next, ..st }
        },
        NoeticOpcode::SUB => {
            let b = if st.stack.len() > 0 { st.stack.last() } else { 0i64 };
            let s1 = if st.stack.len() > 0 { st.stack.drop_last() } else { st.stack };
            let a = if s1.len() > 0 { s1.last() } else { 0i64 };
            let s2 = if s1.len() > 0 { s1.drop_last() } else { s1 };
            VmState { stack: s2.push(wrap_i64(a - b) as i64), pc: next, ..st }
        },
        NoeticOpcode::JUMP(addr) => VmState { pc: addr as int, ..st },
        NoeticOpcode::JUMP_IF(addr) => {
            if st.stack.len() > 0 {
                let v = st.stack.last();
                VmState {
                    stack: st.stack.drop_last(),
                    pc: if v != 0 { addr as int } else { next },
                    ..st
                }
            } else {
                VmState { pc: next, ..st }
            }
        },
        NoeticOpcode::RESONATE(freq) => {
            if freq == 0x4121 {
                VmState {
                    resonance_active: true,
                    output: st.output.push("[RESONANCE]: frequency verified"@),
                    pc: next,
                    ..st
                }
            } else {
                VmState {
                    output: st.output.push("[DISHARMONY]: frequency mismatch"@),
                    pc: next,
                    ..st
                }
            }
        },
        NoeticOpcode::NOETIC_BRIDGE => {
            if st.resonance_active {
                VmState { output: st.output.push("[BRIDGE]: noetic bridge open"@), pc: next, ..st }
            } else {
                VmState {
                    output: st.output.push("[ERROR]: resonance not established"@),
                    pc: next,
                    ..st
                }
            }
        },
        NoeticOpcode::INFUSE_ANIMA => VmState {
            output: st.output.push("[AETERNA]: anima infused"@),
            pc: next,
            ..st
        },
        NoeticOpcode::PRINT => {
            if st.stack.len() > 0 {
                VmState {
                    output: st.output.push("VM Output: "@ + dec_chars_i64(st.stack.last() as int)),
                    pc: next,
                    ..st
                }
            } else {
                VmState { pc: next, ..st }
            }
        },
        NoeticOpcode::HALT => VmState { pc: prog.len() as int, ..st },
    }
}

/// The machine run for at most `fuel` steps, stopping early when the
/// counter leaves the program.
pub open spec fn vm_run(prog: Seq<NoeticOpcode>, st: VmState, fuel: nat) -> VmState
    decreases fuel,
{
    if fuel == 0 || st.pc < 0 || st.pc >= prog.len() {
        st
    } else {
        vm_run(prog, vm_step(prog, st), (fuel - 1) as nat)
    }
}

/// The execution budget of one `run` call; a program that is still
/// going after this many steps is abandoned where it stands.
pub const VM_STEP_BUDGET: u64 = 1_000_000;

/// The stack machine. Output lines are collected rather than
/// printed, so a host can forward them wherever it logs.
#[derive(Debug)]
pub struct NoeticVM {
    pub stack: Vec<i64>,
    pub memory: Vec<i64>,
    pub program: Vec<NoeticOpcode>,
    pub pc: usize,
    pub resonance_active: bool,
    pub output: Vec<String>,
}

impl NoeticVM {
    /// The machine's mathematical state.
    pub open spec fn view_state(self) -> VmState {
        VmState {
            stack: self.stack@,
            memory: self.memory@,
            pc: self.pc as int,
            resonance_active: self.resonance_active,
            output: Seq::new(self.output@.len(), |i: int| self.output@[i]@),
        }
    }

    /// A fresh machine over a program, with 1024 zeroed memory cells.
    pub fn new(program: Vec<NoeticOpcode>) -> (r: NoeticVM)
        ensures
            r.stack@.len() == 0,
            r.memory@.len() == 1024,
            forall|i: int| 0 <= i < 1024 ==> r.memory@[i] == 0,
            r.program@ == program@,
            r.pc == 0,
            !r.resonance_active,
            r.output@.len() == 0,
    {
        let mut memory: Vec<i64> = Vec::new();
        let mut i: usize = 0;
        while i < 1024
            invariant
                i <= 1024,
                memory@.len() == i,
                forall|k: int| 0 <= k < i ==> memory@[k] == 0,
            decreases 1024 - i,
        {
            memory.push(0);
            i = i + 1;
        }
        NoeticVM {
            stack: Vec::new(),
            memory,
            program,
            pc: 0,
            resonance_active: false,
            output: Vec::new(),
        }
    }

    /// Runs the program until it halts, leaves the code, or exhausts
    /// the step budget: exactly the mathematical run of the starting
    /// state under that budget.
    pub fn run(&mut self)
        ensures
            final(self).program@ == old(self).program@,
            final(self).view_state() == vm_run(
                old(self).program@,
                old(self).view_state(),
                VM_STEP_BUDGET as nat,
            ),
    {
        let ghost prog = self.program@;
        let mut steps: u64 = 0;
        while self.pc < self.program.len() && steps < VM_STEP_BUDGET
            invariant
                self.program@ == prog,
                steps <= VM_STEP_BUDGET,
                vm_run(prog, old(self).view_state(), VM_STEP_BUDGET as nat) == vm_run(
                    prog,
                    self.view_state(),
                    (VM_STEP_BUDGET - steps) as nat,
                ),
            decreases VM_STEP_BUDGET - steps,
        {
            let ghost pre = self.view_state();
            let op = self.program[self.pc];
            let next = self.pc + 1;
            match op {
                NoeticOpcode::LOAD(v) => {
                    self.stack.push(v);
                    self.pc = next;
                },
                NoeticOpcode::STORE(addr) => {
                    match self.stack.pop() {
                        Some(v) => {
                            if addr < self.memory.len() {
                                self.memory.set(addr, v);
                            }
                        },
                        None => {},
                    }
                    self.pc = next;
                },
                NoeticOpcode::ADD => {
                    let b = match self.stack.pop() {
                        Some(v) => v,
                        None => 0,
                    };
                    let a = match self.stack.pop() {
                        Some(v) => v,
                        None => 0,
                    };
                    self.stack.push(wrap_add(a, b));
                    self.pc = next;
                },
                NoeticOpcode::SUB => {
                    let b = match self.stack.pop() {
                        Some(v) => v,
                        None => 0,
                    };
                    let a = match self.stack.pop() {
                        Some(v) => v,
                        None => 0,
                    };
                    self.stack.push(wrap_sub(a, b));
                    self.pc = next;
                },
                NoeticOpcode::JUMP(addr) => {
                    self.pc = addr;
                },
                NoeticOpcode::JUMP_IF(addr) => {
                    match self.stack.pop() {
                        Some(v) => {
                            if v != 0 {
                                self.pc = addr;
                            } else {
                                self.pc = next;
                            }
                        },
                        None => {
                            self.pc = next;
                        },
                    }
                },
                NoeticOpcode::RESONATE(freq) => {
                    if freq == 0x4121 {
                        self.resonance_active = true;
                        self.output.push(String::from_str("[RESONANCE]: frequency verified"));
                    } else {
                        self.output.push(String::from_str("[DISHARMONY]: frequency mismatch"));
                    }
                    self.pc = next;
                },
                NoeticOpcode::NOETIC_BRIDGE => {
                    if self.resonance_active {
                        self.output.push(String::from_str("[BRIDGE]: noetic bridge open"));
                    } else {
                        self.output.push(String::from_str("[ERROR]: resonance not established"));
                    }
                    self.pc = next;
                },
                NoeticOpcode::INFUSE_ANIMA => {
                    self.output.push(String::from_str("[AETERNA]: anima infused"));
                    self.pc = next;
                },
                NoeticOpcode::PRINT => {
                    if self.stack.len() > 0 {
                        let v = self.stack[self.stack.len() - 1];
                        let mut line = String::from_str("VM Output: ");
                        line.append(i64_to_string(v).as_str());
                        self.output.push(line);
                    }
                    self.pc = next;
                },
                NoeticOpcode::HALT => {
                    self.pc = self.program.len();
                },
            }
            proof {
                assert(self.view_state().output =~= vm_step(prog, pre).output);
                assert(self.view_state().stack =~= vm_step(prog, pre).stack);
                assert(self.view_state().memory =~= vm_step(prog, pre).memory);
                assert(self.view_state() == vm_step(prog, pre));
            }
            steps = steps + 1;
        }
        proof {
            assert(vm_run(prog, self.view_state(), (VM_STEP_BUDGET - steps) as nat)
                == self.view_state());
        }
    }
}

/// Wrapping 64-bit addition.
fn wrap_add(a: i64, b: i64) -> (r: i64)
    ensures
        r == wrap_i64(a as int + b as int),
{
    let m: i128 = a as i128 + b as i128;
    if m > 0x7fff_ffff_ffff_ffffi128 {
        (m - 0x1_0000_0000_0000_0000i128) as i64
    } else if m < -0x8000_0000_0000_0000i128 {
        (m + 0x1_0000_0000_0000_0000i128) as i64
    } else {
        m as i64
    }
}

/// Wrapping 64-bit subtraction.
fn wrap_sub(a: i64, b: i64) -> (r: i64)
    ensures
        r == wrap_i64(a as int - b as int),
{
    let m: i128 = a as i128 - b as i128;
    if m > 0x7fff_ffff_ffff_ffffi128 {
        (m - 0x1_0000_0000_0000_0000i128) as i64
    } else if m < -0x8000_0000_0000_0000i128 {
        (m + 0x1_0000_0000_0000_0000i128) as i64
    } else {
        m as i64
    }
}

/// The lines of a script, split at newlines (a trailing newline
/// yields a final empty line, which the loader passes over).
pub open spec fn lines_of(s: Seq<char>) -> Seq<Seq<char>>
    decreases s.len(),
{
    let nl = find_from(s, '\n', 0);
    if 0 <= nl < s.len() {
        seq![s.take(nl)] + lines_of(s.skip(nl + 1))
    } else {
        seq![s]
    }
}

/// The resonance frequency spelled inside the first parenthesis pair
/// of a line: hexadecimal after `0x`, else decimal; 0 when the
/// parentheses are missing, inverted or hold no numeral.
pub open spec fn resonate_freq(t: Seq<char>) -> u64 {
    let i1 = find_from(t, '(', 0);
    let i2 = find_from(t, ')', 0);
    if i1 < t.len() && i2 < t.len() {
        if i1 + 1 <= i2 {
            let inner = trim_chars(t.subrange(i1 + 1, i2));
            if match_at(inner, "0x"@, 0) {
                parse_u64_hex_spec(inner.skip(2))
            } else {
                parse_u64_dec_spec(inner)
            }
        } else {
            0u64
        }
    } else {
        0u64
    }
}

/// The opcode one script line compiles to, if any: comments and
/// blank lines compile to nothing, resonance lines to `RESONATE`,
/// entropy-collapse lines to the bridge, manifestation lines to the
/// infusion.
pub open spec fn line_op(line: Seq<char>) -> Option<NoeticOpcode> {
    let t = trim_chars(line);
    if match_at(t, "///"@, 0) || t.len() == 0 {
        None
    } else if contains_seq(t, "resonate RESONANCE("@) {
        if find_from(t, '(', 0) < t.len() && find_from(t, ')', 0) < t.len() {
            Some(NoeticOpcode::RESONATE(resonate_freq(t)))
        } else {
            None
        }
    } else if contains_seq(t, "collapse ENTROPY(0.0000)"@) {
        Some(NoeticOpcode::NOETIC_BRIDGE)
    } else if contains_seq(t, "[LOGOS: MANIFESTED]"@) {
        Some(NoeticOpcode::INFUSE_ANIMA)
    } else {
        None
    }
}

/// The program a list of script lines compiles to, in order.
pub open spec fn program_of(lines: Seq<Seq<char>>) -> Seq<NoeticOpcode>
    decreases lines.len(),
{
    if lines.len() == 0 {
        Seq::empty()
    } else {
        (match line_op(lines[0]) {
            Some(op) => seq![op],
            None => Seq::empty(),
        }) + program_of(lines.drop_first())
    }
}

/// Compiles a script into a program: each line's opcode in order,
/// closed by a halt.
pub fn load_aeterna_soul(script: &str) -> (r: Vec<NoeticOpcode>)
    ensures
        r@ == program_of(lines_of(script@)) + seq![NoeticOpcode::HALT],
{
    let len = script.unicode_len();
    let mut program: Vec<NoeticOpcode> = Vec::new();
    let mut pos: usize = 0;
    let mut done = false;
    proof {
        assert(script@.skip(0) =~= script@);
    }
    while !done
        invariant
            len == script@.len(),
            pos <= len,
            !done ==> program@ + program_of(lines_of(script@.skip(pos as int))) == program_of(
                lines_of(script@),
            ),
            done ==> program@ == program_of(lines_of(script@)),
        decreases 2 * (len - pos) + (if done { 0int } else { 1int }),
    {
        proof {
            lemma_find_from_range(script@, '\n', pos as int);
        }
        let nl = find_char_from(script, '\n', pos);
        let line = script.substring_char(pos, nl);
        let ghost rest = script@.skip(pos as int);
        proof {
            assert(find_from(rest, '\n', 0) == find_from(script@, '\n', pos as int) - pos) by {
                lemma_find_from_shift(script@, pos as int, '\n');
            }
            assert(rest.take(nl - pos) =~= script@.subrange(pos as int, nl as int));
            if nl < len {
                assert(rest.skip(nl - pos + 1) =~= script@.skip(nl + 1));
                assert(lines_of(rest) == seq![line@] + lines_of(script@.skip(nl + 1)));
            } else {
                assert(rest.take(nl - pos) =~= rest);
                assert(lines_of(rest) == seq![line@]);
            }
        }
        match process_line(line) {
            Some(op) => {
                program.push(op);
            },
            None => {},
        }
        proof {
            if nl < len {
                assert(lines_of(rest).drop_first() =~= lines_of(script@.skip(nl + 1)));
                assert(program_of(lines_of(rest)) == (match line_op(line@) {
                    Some(op) => seq![op],
                    None => Seq::<NoeticOpcode>::empty(),
                }) + program_of(lines_of(script@.skip(nl + 1))));
            } else {
                assert(lines_of(rest).drop_first() =~= Seq::<Seq<char>>::empty());
                assert(program_of(lines_of(rest)) == (match line_op(line@) {
                    Some(op) => seq![op],
                    None => Seq::<NoeticOpcode>::empty(),
                }) + program_of(Seq::<Seq<char>>::empty()));
            }
        }
        if nl >= len {
            done = true;
        } else {
            pos = nl + 1;
        }
    }
    program.push(NoeticOpcode::HALT);
    program
}

/// Shifting the start of a suffix shifts find positions with it.
proof fn lemma_find_from_shift(s: Seq<char>, pos: int, c: char)
    requires
        0 <= pos <= s.len(),
    ensures
        find_from(s.skip(pos), c, 0) == find_from(s, c, pos) - pos,
    decreases s.len() - pos,
{
    let rest = s.skip(pos);
    if pos < s.len() {
        if s[pos] == c {
        } else {
            lemma_find_from_shift(s, pos + 1, c);
            assert(s.skip(pos + 1) =~= rest.skip(1));
            lemma_find_from_step(rest, c);
        }
    }
}

/// Unfolds one step of `find_from` on a nonempty sequence.
proof fn lemma_find_from_step(s: Seq<char>, c: char)
    requires
        s.len() > 0,
        s[0] != c,
    ensures
        find_from(s, c, 0) == find_from(s.skip(1), c, 0) + 1,
    decreases s.len(),
{
    lemma_find_shift_once(s, c, 1);
}

/// `find_from` over a dropped prefix of one element.
proof fn lemma_find_shift_once(s: Seq<char>, c: char, from: int)
    requires
        1 <= from <= s.len(),
    ensures
        find_from(s, c, from) == find_from(s.skip(1), c, from - 1) + 1,
    decreases s.len() - from,
{
    if from < s.len() {
        if s[from] != c {
            lemma_find_shift_once(s, c, from + 1);
        }
    }
}

/// Compiles one script line.
fn process_line(line: &str) -> (r: Option<NoeticOpcode>)
    ensures
        r == line_op(line@),
{
    let trimmed = trim_ascii(line);
    let t = trimmed.as_str();
    if starts_with_str(t, "///") || t.unicode_len() == 0 {
        return None;
    }
    if contains_substring(t, "resonate RESONANCE(") {
        let tlen = t.unicode_len();
        proof {
            lemma_find_from_range(t@, '(', 0);
            lemma_find_from_range(t@, ')', 0);
        }
        let i1 = find_char_from(t, '(', 0);
        let i2 = find_char_from(t, ')', 0);
        if i1 < tlen && i2 < tlen {
            if i1 + 1 <= i2 {
                let inner_raw = t.substring_char(i1 + 1, i2);
                let inner = trim_ascii(inner_raw);
                let freq: u64 = if starts_with_str(inner.as_str(), "0x") {
                    let ilen = inner.unicode_len();
                    proof {
                        reveal_strlit("0x");
                    }
                    let hex_part = inner.as_str().substring_char(2, ilen);
                    proof {
                        assert(hex_part@ =~= inner@.skip(2));
                    }
                    parse_u64_hex(hex_part)
                } else {
                    parse_u64_dec(inner.as_str())
                };
                Some(NoeticOpcode::RESONATE(freq))
            } else {
                Some(NoeticOpcode::RESONATE(0))
            }
        } else {
            None
        }
    } else if contains_substring(t, "collapse ENTROPY(0.0000)") {
        Some(NoeticOpcode::NOETIC_BRIDGE)
    } else if contains_substring(t, "[LOGOS: MANIFESTED]") {
        Some(NoeticOpcode::INFUSE_ANIMA)
    } else {
        None
    }
}

/// The bridge to the wider system: it opens only on the resonance
/// frequency it was seeded with.
#[derive(Debug)]
pub struct NoeticBridge {
    pub authority_resonance: u64,
    pub bridge_active: bool,
}

impl NoeticBridge {
    /// A closed bridge keyed to a seed frequency.
    pub fn new(seed: u64) -> (r: NoeticBridge)
        ensures
            r.authority_resonance == seed,
            !r.bridge_active,
    {
        NoeticBridge { authority_resonance: seed, bridge_active: false }
    }

    /// Opens the bridge on the right frequency; any other frequency
    /// is refused and leaves the bridge as it was.
    pub fn open_bridge(&mut self, resonance_freq: u64) -> (r: Result<String, String>)
        ensures
            resonance_freq == old(self).authority_resonance ==> final(self).bridge_active && (
            r matches Ok(m) && m@ == "SUCCESS: BRIDGE_STABLE"@),
            resonance_freq != old(self).authority_resonance ==> final(self).bridge_active == old(
                self,
            ).bridge_active && (r matches Err(e) && e@ == "FAILED: RESONANCE_DISHARMONY"@),
            final(self).authority_resonance == old(self).authority_resonance,
    {
        if resonance_freq == self.authority_resonance {
            self.bridge_active = true;
            Ok(String::from_str("SUCCESS: BRIDGE_STABLE"))
        } else {
            Err(String::from_str("FAILED: RESONANCE_DISHARMONY"))
        }
    }

    /// Whether the bridge stands open.
    pub fn is_active(&self) -> (r: bool)
        ensures
            r == self.bridge_active,
    {
        self.bridge_active
    }
}

} // verus!
