//! User-adjustable placements and the code that runs before the final jump.
use vstd::prelude::*;

use crate::text::{push_hex2, push_hex4};
#[allow(unused_imports)]
use crate::text::{hex2, hex4};

verus! {

/// Backward-layout safety margin: the packed stream starts this many bytes
/// below the span start (the final read/write gap).
pub const DEFAULT_MARGIN: u16 = 32;

/// Default clearance for the "no move" in-place layout (see
/// [`Placement::clearance`]).
pub const DEFAULT_CLEARANCE: u16 = 32;

/// Default relocated-mover address (`$02A7-$02FF` is free).
pub const DEFAULT_MOVER: u16 = 0x02A7;

/// `$01` value written at init (all RAM, needed while decrunching). Also the
/// default value to leave it at before the final `JMP`, in which case no extra
/// restore code is needed since `$01` is already at that value.
pub const INIT_BANK: u8 = 0x30;

/// BASIC interpreter main loop (NEWSTT). The RUN option jumps here after
/// `JSR $A659` (CLR) has pointed TXTPTR at the program start, which reliably
/// runs a decompressed BASIC program. (A bare `JMP $A871`, the RUN command
/// itself, is not safe from a cold machine-code entry: it branches on the
/// caller's Z flag and returns through CLR's `RTS` expecting the interpreter's
/// stack frame.)
pub const RUN_BASIC_LOOP: u16 = 0xA7AE;

/// BASIC CLR routine: sets TXTPTR to the program start and clears variables,
/// arrays and strings from VARTAB. `JSR`ed before jumping to the loop.
pub const BASIC_CLR: u16 = 0xA659;

/// Banking value the RUN option needs at the final `JMP`: BASIC, KERNAL and I/O
/// in.
pub const RUN_BASIC_BANK: u8 = 0x37;

/// Unpack-direction selection: the span rule by default, or a manual override
/// (validated for feasibility).
#[derive(Clone, Copy, PartialEq, Eq, Structural, Debug)]
pub enum DirectionChoice {
    /// Span rule: forward while the last byte is at or below `$FFF0`, else
    /// backward.
    Auto,
    Forward,
    Backward,
}

impl Default for DirectionChoice {
    fn default() -> (r: Self)
        ensures
            r == DirectionChoice::Auto,
    {
        DirectionChoice::Auto
    }
}

/// Per-crunch decoder-tailoring selection. Only Exomizer streams tailor; every
/// other format ignores this.
#[derive(Clone, Copy, PartialEq, Eq, Structural, Debug)]
pub enum TailoringChoice {
    /// Build both the standard and the tailored decoder and keep the smaller
    /// (ties keep standard). Never larger than standard.
    Auto,
    /// Always use the routine's standard decoder body.
    Standard,
    /// Always use the tailored body when the stream admits one (falls back to
    /// standard when it does not, or if the tailored body fails to assemble).
    Tailored,
}

impl Default for TailoringChoice {
    fn default() -> (r: Self)
        ensures
            r == TailoringChoice::Auto,
    {
        TailoringChoice::Auto
    }
}

/// User-adjustable placements; `None` = computed default.
#[derive(Clone, Copy, Debug)]
pub struct Placement {
    pub decruncher: Option<u16>,
    pub mover: Option<u16>,
    /// Scratch buffer base for formats that need one.
    pub scratch: Option<u16>,
    /// Backward-layout safety margin (bytes below span start).
    pub margin: u16,
    pub direction: DirectionChoice,
    /// `$01` value written just before the final `JMP` to the start address.
    /// Defaults to [`INIT_BANK`], in which case no extra code is emitted (the
    /// value is already there from init).
    pub bank_at_jmp: u8,
    /// `CLI` right before the final `JMP`. Interrupts stay disabled (the init
    /// `SEI`) when `false`, since only the caller's start routine knows what
    /// interrupt state it expects.
    pub cli_before_jmp: bool,
    /// When `Some(addr)`, restore the BASIC end-of-program pointer `$2D/$2E`
    /// (VARTAB) to `addr` just before the final `JMP`, so a decompressed BASIC
    /// program can be RUN (its CLR derives the array/string pointers from
    /// VARTAB).
    pub restore_basic_end: Option<u16>,
    /// Emit `JSR $A659` (BASIC CLR) before the final `JMP`. Used by the RUN
    /// option so the interpreter loop ([`RUN_BASIC_LOOP`]) starts from the
    /// program's first line. Requires ROM banked in (`bank_at_jmp = $37`).
    pub basic_clr: bool,
    /// Allow the embedded decruncher to use undocumented (illegal) 6502
    /// opcodes. `true` (default) picks the size/speed baseline; `false` picks a
    /// legal-only decoder (same compressed stream, slightly larger decoder).
    pub allow_illegal: bool,
    /// TSCrunch in-place layout: bytes the packed stream is placed above the
    /// end-aligned reference position. Computed per stream; not a user setting.
    pub tsc_shift: u16,
    /// Per-crunch decoder tailoring.
    pub tailoring: TailoringChoice,
    /// Clearance in bytes (default [`DEFAULT_CLEARANCE`]) for the "no move"
    /// in-place layout: when the whole program image (decoder and embedded
    /// payload) sits at least this far clear of the output span, and the
    /// scratch buffer clear of both, the payload is read where it was loaded
    /// with no move at all. The gap absorbs any decoder write overshoot so the
    /// decompressed output can never reach the payload or the decoder.
    pub clearance: u16,
    /// Pick the fastest decoder for each format instead of the balanced one.
    /// The packed stream is unchanged; only the embedded decoder body differs.
    pub priority_speed: bool,
}

/// The computed defaults.
pub open spec fn default_placement() -> Placement {
    Placement {
        decruncher: None,
        mover: None,
        scratch: None,
        margin: DEFAULT_MARGIN,
        direction: DirectionChoice::Auto,
        bank_at_jmp: INIT_BANK,
        cli_before_jmp: false,
        restore_basic_end: None,
        basic_clr: false,
        allow_illegal: true,
        tsc_shift: 0,
        tailoring: TailoringChoice::Auto,
        clearance: DEFAULT_CLEARANCE,
        priority_speed: false,
    }
}

impl Default for Placement {
    fn default() -> (r: Self)
        ensures
            r == default_placement(),
    {
        Placement {
            decruncher: None,
            mover: None,
            scratch: None,
            margin: DEFAULT_MARGIN,
            direction: DirectionChoice::Auto,
            bank_at_jmp: INIT_BANK,
            cli_before_jmp: false,
            restore_basic_end: None,
            basic_clr: false,
            allow_illegal: true,
            tsc_shift: 0,
            tailoring: TailoringChoice::Auto,
            clearance: DEFAULT_CLEARANCE,
            priority_speed: false,
        }
    }
}

/// One instruction of the code that runs between the decoder and the final
/// `JMP`.
#[derive(Clone, Copy, PartialEq, Eq, Structural, Debug)]
pub enum Instr {
    /// `LDA #imm`
    LoadImmediate(u8),
    /// `STA zp`
    StoreZeroPage(u8),
    /// `JSR abs`
    Call(u16),
    /// `CLI`
    EnableInterrupts,
}

impl Instr {
    /// Bytes the instruction assembles to: the opcode and its operand.
    pub open spec fn size(self) -> nat {
        match self {
            Instr::LoadImmediate(_) => 2,
            Instr::StoreZeroPage(_) => 2,
            Instr::Call(_) => 3,
            Instr::EnableInterrupts => 1,
        }
    }

    /// The source line of the instruction.
    pub open spec fn line(self) -> Seq<char> {
        match self {
            Instr::LoadImmediate(v) => "        LDA #$"@ + hex2(v as nat) + "\n"@,
            Instr::StoreZeroPage(a) => "        STA $"@ + hex2(a as nat) + "\n"@,
            Instr::Call(a) => "        JSR $"@ + hex4(a as nat) + "\n"@,
            Instr::EnableInterrupts => "        CLI\n"@,
        }
    }
}

/// Bytes the instructions assemble to.
pub open spec fn code_size(code: Seq<Instr>) -> nat
    decreases code.len(),
{
    if code.len() == 0 {
        0
    } else {
        code_size(code.drop_last()) + code.last().size()
    }
}

/// The source text of the instructions.
pub open spec fn code_text(code: Seq<Instr>) -> Seq<char>
    decreases code.len(),
{
    if code.len() == 0 {
        Seq::empty()
    } else {
        code_text(code.drop_last()) + code.last().line()
    }
}

/// What runs between the decoder and the final `JMP`: restore VARTAB, bank,
/// CLR, enable interrupts, each only if asked for.
pub open spec fn epilogue_code(p: Placement) -> Seq<Instr> {
    let vartab = match p.restore_basic_end {
        Some(end) => seq![
            Instr::LoadImmediate((end % 256) as u8),
            Instr::StoreZeroPage(0x2D),
            Instr::LoadImmediate((end / 256) as u8),
            Instr::StoreZeroPage(0x2E),
        ],
        None => Seq::empty(),
    };
    let bank = if p.bank_at_jmp != INIT_BANK {
        seq![Instr::LoadImmediate(p.bank_at_jmp), Instr::StoreZeroPage(0x01)]
    } else {
        Seq::empty()
    };
    let clr = if p.basic_clr {
        seq![Instr::Call(BASIC_CLR)]
    } else {
        Seq::empty()
    };
    let cli = if p.cli_before_jmp {
        seq![Instr::EnableInterrupts]
    } else {
        Seq::empty()
    };
    vartab + bank + clr + cli
}

/// Bytes that the code before the final `JMP` takes.
pub open spec fn epilogue_size(p: Placement) -> int {
    (if p.restore_basic_end is Some { 8int } else { 0 }) + (if p.bank_at_jmp != INIT_BANK {
        4int
    } else {
        0
    }) + (if p.basic_clr { 3int } else { 0 }) + (if p.cli_before_jmp { 1int } else { 0 })
}

proof fn lemma_code_size_concat(a: Seq<Instr>, b: Seq<Instr>)
    ensures
        code_size(a + b) == code_size(a) + code_size(b),
    decreases b.len(),
{
    if b.len() == 0 {
        assert(a + b =~= a);
    } else {
        assert((a + b).drop_last() =~= a + b.drop_last());
        lemma_code_size_concat(a, b.drop_last());
    }
}

/// The room that placement reserves for the code before the final `JMP` is
/// exactly what that code assembles to.
pub proof fn epilogue_size_matches_the_code(p: Placement)
    ensures
        code_size(epilogue_code(p)) == epilogue_size(p),
{
    reveal_with_fuel(code_size, 5);
    let none = Seq::<Instr>::empty();
    let vartab = match p.restore_basic_end {
        Some(end) => seq![
            Instr::LoadImmediate((end % 256) as u8),
            Instr::StoreZeroPage(0x2D),
            Instr::LoadImmediate((end / 256) as u8),
            Instr::StoreZeroPage(0x2E),
        ],
        None => none,
    };
    let bank = if p.bank_at_jmp != INIT_BANK {
        seq![Instr::LoadImmediate(p.bank_at_jmp), Instr::StoreZeroPage(0x01)]
    } else {
        none
    };
    let clr = if p.basic_clr {
        seq![Instr::Call(BASIC_CLR)]
    } else {
        none
    };
    let cli = if p.cli_before_jmp {
        seq![Instr::EnableInterrupts]
    } else {
        none
    };
    lemma_code_size_concat(vartab, bank);
    lemma_code_size_concat(vartab + bank, clr);
    lemma_code_size_concat(vartab + bank + clr, cli);
}

/// Bytes the code before the final `JMP` assembles to.
pub fn epilogue_len(p: &Placement) -> (r: u32)
    ensures
        r == code_size(epilogue_code(*p)),
        r == epilogue_size(*p),
{
    proof {
        epilogue_size_matches_the_code(*p);
    }
    let vartab: u32 = if p.restore_basic_end.is_some() {
        8
    } else {
        0
    };
    let bank: u32 = if p.bank_at_jmp != INIT_BANK {
        4
    } else {
        0
    };
    let clr: u32 = if p.basic_clr {
        3
    } else {
        0
    };
    let cli: u32 = if p.cli_before_jmp {
        1
    } else {
        0
    };
    vartab + bank + clr + cli
}

/// What runs between the decoder and the final `JMP`.
fn epilogue(p: &Placement) -> (r: Vec<Instr>)
    ensures
        r@ == epilogue_code(*p),
{
    let mut code: Vec<Instr> = Vec::new();
    if let Some(end) = p.restore_basic_end {
        code.push(Instr::LoadImmediate((end % 256) as u8));
        code.push(Instr::StoreZeroPage(0x2D));
        code.push(Instr::LoadImmediate((end / 256) as u8));
        code.push(Instr::StoreZeroPage(0x2E));
    }
    if p.bank_at_jmp != INIT_BANK {
        code.push(Instr::LoadImmediate(p.bank_at_jmp));
        code.push(Instr::StoreZeroPage(0x01));
    }
    if p.basic_clr {
        code.push(Instr::Call(BASIC_CLR));
    }
    if p.cli_before_jmp {
        code.push(Instr::EnableInterrupts);
    }
    assert(code@ =~= epilogue_code(*p));
    code
}

fn push_line(s: &mut String, i: Instr)
    ensures
        final(s)@ == old(s)@ + i.line(),
{
    match i {
        Instr::LoadImmediate(v) => {
            s.append("        LDA #$");
            push_hex2(s, v as u64);
            s.append("\n");
        },
        Instr::StoreZeroPage(a) => {
            s.append("        STA $");
            push_hex2(s, a as u64);
            s.append("\n");
        },
        Instr::Call(a) => {
            s.append("        JSR $");
            push_hex4(s, a as u64);
            s.append("\n");
        },
        Instr::EnableInterrupts => {
            s.append("        CLI\n");
        },
    }
    assert(s@ =~= old(s)@ + i.line());
}

/// The source of the code before the final `JMP`, for the assembler.
pub fn epilogue_source(p: &Placement) -> (r: String)
    ensures
        r@ == code_text(epilogue_code(*p)),
{
    let code = epilogue(p);
    let mut s = "".to_owned();
    let mut i: usize = 0;
    proof {
        reveal_strlit("");
        assert(code@.take(0) =~= Seq::empty());
        assert(s@ =~= Seq::empty());
    }
    while i < code.len()
        invariant
            i <= code.len(),
            s@ == code_text(code@.take(i as int)),
        decreases code.len() - i,
    {
        assert(code@.take(i + 1).drop_last() =~= code@.take(i as int));
        push_line(&mut s, code[i]);
        i += 1;
    }
    assert(code@.take(code@.len() as int) =~= code@);
    s
}

} // verus!
