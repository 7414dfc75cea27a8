//! What the code before the final jump does when it runs.
use vstd::prelude::*;

#[allow(unused_imports)]
use crate::placement::{code_size, code_text, epilogue_code, epilogue_size, Instr, Placement};
#[allow(unused_imports)]
use crate::text::{hex2, hex4};

verus! {

/// What the code can see and change: the accumulator, the zero page, whether
/// interrupts are on, and the calls that were made, each with the value of
/// `$01` at that time.
pub struct Machine {
    pub a: u8,
    pub zero_page: Map<u8, u8>,
    pub interrupts: bool,
    pub calls: Seq<(u16, u8)>,
}

/// One instruction.
pub open spec fn stepped(m: Machine, i: Instr) -> Machine {
    match i {
        Instr::LoadImmediate(v) => Machine { a: v, ..m },
        Instr::StoreZeroPage(z) => Machine { zero_page: m.zero_page.insert(z, m.a), ..m },
        Instr::Call(to) => Machine { calls: m.calls.push((to, m.zero_page[0x01])), ..m },
        Instr::EnableInterrupts => Machine { interrupts: true, ..m },
    }
}

/// The machine behind the first `n` instructions.
pub open spec fn run(m: Machine, code: Seq<Instr>, n: nat) -> Machine
    decreases n,
{
    if n == 0 {
        m
    } else {
        stepped(run(m, code, (n - 1) as nat), code[n - 1])
    }
}

/// The machine at the jump.
pub open spec fn at_the_jump(m: Machine, p: Placement) -> Machine {
    run(m, epilogue_code(p), epilogue_code(p).len())
}

proof fn lemma_run_append(m: Machine, a: Seq<Instr>, b: Seq<Instr>, n: nat)
    requires
        n <= b.len(),
    ensures
        run(m, a + b, a.len() + n) == run(run(m, a, a.len()), b, n),
    decreases n,
{
    if n == 0 {
        lemma_run_prefix(m, a, b, a.len());
    } else {
        lemma_run_append(m, a, b, (n - 1) as nat);
        assert((a + b)[a.len() + n - 1] == b[n - 1]);
        assert((a.len() + n - 1) as nat == a.len() + (n - 1) as nat);
    }
}

proof fn lemma_run_prefix(m: Machine, a: Seq<Instr>, b: Seq<Instr>, n: nat)
    requires
        n <= a.len(),
    ensures
        run(m, a + b, n) == run(m, a, n),
    decreases n,
{
    if n > 0 {
        lemma_run_prefix(m, a, b, (n - 1) as nat);
        assert((a + b)[n - 1] == a[n - 1]);
    }
}

/// Runs the code in its four parts.
proof fn lemma_parts(m: Machine, p: Placement)
    ensures
        ({
            let e = at_the_jump(m, p);
            let z1 = match p.restore_basic_end {
                Some(end) => m.zero_page.insert(0x2D, (end % 256) as u8).insert(
                    0x2E,
                    (end / 256) as u8,
                ),
                None => m.zero_page,
            };
            let z2 = if p.bank_at_jmp != 0x30 {
                z1.insert(0x01, p.bank_at_jmp)
            } else {
                z1
            };
            &&& e.zero_page == z2
            &&& e.calls == if p.basic_clr {
                m.calls.push((0xA659, z2[0x01]))
            } else {
                m.calls
            }
            &&& e.interrupts == (m.interrupts || p.cli_before_jmp)
        }),
{
    reveal_with_fuel(run, 5);
    let end = p.restore_basic_end->0;
    let vartab = if p.restore_basic_end is Some {
        seq![
            Instr::LoadImmediate((end % 256) as u8),
            Instr::StoreZeroPage(0x2D),
            Instr::LoadImmediate((end / 256) as u8),
            Instr::StoreZeroPage(0x2E),
        ]
    } else {
        Seq::empty()
    };
    let bank = if p.bank_at_jmp != 0x30 {
        seq![Instr::LoadImmediate(p.bank_at_jmp), Instr::StoreZeroPage(0x01)]
    } else {
        Seq::empty()
    };
    let clr = if p.basic_clr {
        seq![Instr::Call(0xA659)]
    } else {
        Seq::empty()
    };
    let cli = if p.cli_before_jmp {
        seq![Instr::EnableInterrupts]
    } else {
        Seq::empty()
    };
    assert(epilogue_code(p) =~= vartab + bank + clr + cli);
    let m1 = run(m, vartab, vartab.len());
    let m2 = run(m1, bank, bank.len());
    let m3 = run(m2, clr, clr.len());
    lemma_run_append(m, vartab, bank, bank.len());
    lemma_run_append(m, vartab + bank, clr, clr.len());
    lemma_run_append(m, vartab + bank + clr, cli, cli.len());
    assert((vartab + bank).len() == vartab.len() + bank.len());
    assert((vartab + bank + clr).len() == (vartab + bank).len() + clr.len());
    assert((vartab + bank + clr + cli).len() == (vartab + bank + clr).len() + cli.len());
    assert(at_the_jump(m, p) == run(m3, cli, cli.len()));
}

/// At the jump `$01` holds the value that was asked for, given that the init
/// code left all RAM banked in; `$2D/$2E` holds the end that was asked for, low
/// byte first, and is untouched if none was; no other byte of the zero page
/// changes.
pub proof fn the_zero_page_at_the_jump_is_as_asked(m: Machine, p: Placement)
    requires
        m.zero_page[0x01] == 0x30,
        m.zero_page.dom().contains(0x01),
    ensures
        ({
            let z = at_the_jump(m, p).zero_page;
            &&& z[0x01] == p.bank_at_jmp
            &&& p.restore_basic_end matches Some(end) ==> z[0x2D] + 256 * z[0x2E] == end
            &&& p.restore_basic_end is None ==> z[0x2D] == m.zero_page[0x2D] && z[0x2E]
                == m.zero_page[0x2E]
            &&& forall|b: u8|
                b != 0x01 && b != 0x2D && b != 0x2E ==> #[trigger] z[b] == m.zero_page[b]
        }),
{
    lemma_parts(m, p);
    if p.restore_basic_end is Some {
        let end = p.restore_basic_end->0;
        assert((end % 256) as u8 + 256 * ((end / 256) as u8) == end);
    }
}

/// CLR is called exactly if it was asked for, once, and with the value of `$01`
/// that the program is left with, so that the ROM is there to be called;
/// interrupts are on at the jump exactly if that was asked for.
pub proof fn clr_is_called_with_the_rom_banked_in(m: Machine, p: Placement)
    requires
        m.zero_page[0x01] == 0x30,
        m.zero_page.dom().contains(0x01),
        m.calls.len() == 0,
        !m.interrupts,
    ensures
        ({
            let e = at_the_jump(m, p);
            &&& e.calls.len() == if p.basic_clr {
                1int
            } else {
                0
            }
            &&& p.basic_clr ==> e.calls[0] == (0xA659u16, p.bank_at_jmp)
            &&& e.interrupts <==> p.cli_before_jmp
        }),
{
    lemma_parts(m, p);
    the_zero_page_at_the_jump_is_as_asked(m, p);
}

/// Bytes of an instruction's machine code.
pub open spec fn encoded(i: Instr) -> Seq<u8> {
    match i {
        Instr::LoadImmediate(v) => seq![0xA9u8, v],
        Instr::StoreZeroPage(z) => seq![0x85u8, z],
        Instr::Call(to) => seq![0x20u8, (to % 256) as u8, (to / 256) as u8],
        Instr::EnableInterrupts => seq![0x58u8],
    }
}

/// Machine code of a stretch of code.
pub open spec fn machine_code(code: Seq<Instr>) -> Seq<u8>
    decreases code.len(),
{
    if code.len() == 0 {
        Seq::empty()
    } else {
        machine_code(code.drop_last()) + encoded(code.last())
    }
}

/// Code is counted with the bytes that it assembles to.
pub proof fn code_is_counted_in_bytes(code: Seq<Instr>)
    ensures
        code_size(code) == machine_code(code).len(),
    decreases code.len(),
{
    if code.len() > 0 {
        code_is_counted_in_bytes(code.drop_last());
    }
}

/// The size that layouts count with is the size of the code that runs before
/// the jump.
pub proof fn layouts_count_the_code_before_the_jump(p: Placement)
    ensures
        epilogue_size(p) == machine_code(epilogue_code(p)).len(),
        0 <= epilogue_size(p) <= 16,
{
    crate::placement::epilogue_size_matches_the_code(p);
    code_is_counted_in_bytes(epilogue_code(p));
}

/// Different instructions are written differently, so the source says what is
/// to run.
pub proof fn different_instructions_are_written_differently(i: Instr, j: Instr)
    requires
        i.line() == j.line(),
    ensures
        i == j,
{
    lemma_initial(i);
    lemma_initial(j);
    match (i, j) {
        (Instr::LoadImmediate(v), Instr::LoadImmediate(w)) => {
            lemma_same_operand("        LDA #$"@, hex2(v as nat), hex2(w as nat));
            lemma_bytes_differ(v, w);
        },
        (Instr::StoreZeroPage(v), Instr::StoreZeroPage(w)) => {
            lemma_same_operand("        STA $"@, hex2(v as nat), hex2(w as nat));
            lemma_bytes_differ(v, w);
        },
        (Instr::Call(v), Instr::Call(w)) => {
            lemma_same_operand("        JSR $"@, hex4(v as nat), hex4(w as nat));
            lemma_addresses_differ(v, w);
        },
        _ => {},
    }
}

proof fn lemma_initial(i: Instr)
    ensures
        i.line().len() > 8,
        i.line()[8] == match i {
            Instr::LoadImmediate(_) => 'L',
            Instr::StoreZeroPage(_) => 'S',
            Instr::Call(_) => 'J',
            Instr::EnableInterrupts => 'C',
        },
{
    reveal_strlit("        LDA #$");
    reveal_strlit("        STA $");
    reveal_strlit("        JSR $");
    reveal_strlit("        CLI\n");
}

proof fn lemma_same_operand(head: Seq<char>, x: Seq<char>, y: Seq<char>)
    requires
        head + x + "\n"@ == head + y + "\n"@,
    ensures
        x == y,
{
    reveal_strlit("\n");
    let s = head + x + "\n"@;
    assert(s.subrange(head.len() as int, s.len() - 1) =~= x);
    assert((head + y + "\n"@).subrange(head.len() as int, s.len() - 1) =~= y);
}

proof fn lemma_bytes_differ(v: u8, w: u8)
    requires
        hex2(v as nat) == hex2(w as nat),
    ensures
        v == w,
{
    crate::address_laws::written_bytes_read_back(v);
    crate::address_laws::written_bytes_read_back(w);
}

proof fn lemma_addresses_differ(v: u16, w: u16)
    requires
        hex4(v as nat) == hex4(w as nat),
    ensures
        v == w,
{
    crate::address_laws::written_addresses_read_back(v);
    crate::address_laws::written_addresses_read_back(w);
}

/// The source is the lines of the instructions, in the order in which they run.
pub proof fn the_source_is_written_line_by_line(code: Seq<Instr>, i: Instr)
    ensures
        code_text(code.push(i)) == code_text(code) + i.line(),
        code_text(Seq::empty()).len() == 0,
{
    assert(code.push(i).drop_last() =~= code);
}

} // verus!
