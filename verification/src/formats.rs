//! The packed formats and what is known of their decoders.
use vstd::prelude::*;

verus! {

/// A packed format.
#[derive(Clone, Copy, PartialEq, Eq, Structural, Debug)]
pub enum Format {
    LzanFull,
    LzanMin,
    Exomizer,
    Subsizer,
    Shrinkler,
    Zx02,
    Zx0,
    Lzsa2,
    Lzsa1,
    Aplib,
    TsCrunch,
    ByteBoozer2,
    PuCrunch,
    Upkr,
    Bolt,
}

/// Unpack direction.
#[derive(Clone, Copy, PartialEq, Eq, Structural, Debug)]
pub enum Direction {
    Forward,
    Backward,
}

impl Direction {
    /// The direction in words.
    pub open spec fn name(self) -> Seq<char> {
        match self {
            Direction::Forward => "forward"@,
            Direction::Backward => "backward"@,
        }
    }

    /// The opposite direction.
    pub open spec fn opposite(self) -> Direction {
        match self {
            Direction::Forward => Direction::Backward,
            Direction::Backward => Direction::Forward,
        }
    }

    /// The direction in words.
    pub fn as_str(self) -> (r: &'static str)
        ensures
            r@ == self.name(),
    {
        match self {
            Direction::Forward => "forward",
            Direction::Backward => "backward",
        }
    }

    /// The opposite direction.
    pub fn other(self) -> (r: Direction)
        ensures
            r == self.opposite(),
    {
        match self {
            Direction::Forward => Direction::Backward,
            Direction::Backward => Direction::Forward,
        }
    }
}

/// RAM that a decoder needs beside the packed stream and the output.
#[derive(Clone, Copy, PartialEq, Eq, Structural, Debug)]
pub struct ScratchSpec {
    pub len: u16,
    pub page_aligned: bool,
}

/// What placement needs to know of one decoder routine.
#[derive(Clone, Copy, Debug)]
pub struct RoutineSpec {
    /// Size of the assembled decoder body.
    pub code_bytes: u16,
    pub scratch: Option<ScratchSpec>,
    /// The payload starts with the two bytes of the output address.
    pub dst_prefixed: bool,
    /// The extra-small body that lives in the stack page.
    pub zp_stack: bool,
}

/// The routines that a format has for one direction and one opcode set.
#[derive(Clone, Copy, Debug)]
pub struct DecoderSet {
    /// The balanced routine.
    pub balanced: Option<RoutineSpec>,
    /// The fastest routine, or the balanced one where no faster one exists.
    pub fastest: Option<RoutineSpec>,
    /// The extra-small stack-page routine.
    pub stack_page: Option<RoutineSpec>,
}

/// The routines that a format has for one direction.
#[derive(Clone, Copy, Debug)]
pub struct Decoders {
    /// With undocumented opcodes allowed.
    pub any: DecoderSet,
    /// Documented opcodes only.
    pub legal: DecoderSet,
}

/// A format together with its name and its decoders.
pub struct FormatInfo {
    pub format: Format,
    pub name: String,
    pub forward: Decoders,
    pub backward: Decoders,
}

/// What a [`FormatInfo`] holds.
pub struct FormatModel {
    pub format: Format,
    pub name: Seq<char>,
    pub forward: Decoders,
    pub backward: Decoders,
}

impl FormatModel {
    /// The routines for a direction and an opcode set.
    pub open spec fn set(self, direction: Direction, allow_illegal: bool) -> DecoderSet {
        let d = match direction {
            Direction::Forward => self.forward,
            Direction::Backward => self.backward,
        };
        if allow_illegal {
            d.any
        } else {
            d.legal
        }
    }
}

impl View for FormatInfo {
    type V = FormatModel;

    open spec fn view(&self) -> FormatModel {
        FormatModel {
            format: self.format,
            name: self.name@,
            forward: self.forward,
            backward: self.backward,
        }
    }
}

impl FormatInfo {
    /// The routines for a direction and an opcode set.
    pub fn decoders(&self, direction: Direction, allow_illegal: bool) -> (r: DecoderSet)
        ensures
            r == self@.set(direction, allow_illegal),
    {
        let d = match direction {
            Direction::Forward => self.forward,
            Direction::Backward => self.backward,
        };
        if allow_illegal {
            d.any
        } else {
            d.legal
        }
    }
}

/// Whether the format has a routine for the direction and the opcode set.
pub fn has_routine(format: &FormatInfo, direction: Direction, allow_illegal: bool) -> (r: bool)
    ensures
        r == (format@.set(direction, allow_illegal).balanced is Some),
{
    format.decoders(direction, allow_illegal).balanced.is_some()
}

/// A cruncher dropdown entry. The label is the bare format name.
pub struct Cruncher {
    pub format: Format,
    pub label: &'static str,
}

/// The dropdown entries, in the order of the list.
pub open spec fn crunchers() -> Seq<(Format, Seq<char>)> {
    seq![
        (Format::LzanFull, "LZAN full"@),
        (Format::LzanMin, "LZAN min"@),
        (Format::Exomizer, "Exomizer"@),
        (Format::Subsizer, "Subsizer"@),
        (Format::Shrinkler, "Shrinkler"@),
        (Format::Zx02, "ZX02"@),
        (Format::Zx0, "ZX0"@),
        (Format::Lzsa2, "LZSA2"@),
        (Format::Lzsa1, "LZSA1"@),
        (Format::Aplib, "aPLib"@),
        (Format::TsCrunch, "TSCrunch"@),
        (Format::ByteBoozer2, "ByteBoozer2"@),
        (Format::PuCrunch, "PuCrunch"@),
        (Format::Upkr, "upkr"@),
        (Format::Bolt, "BoltLZ"@),
    ]
}

/// What the entries hold.
pub open spec fn entries(list: Seq<Cruncher>) -> Seq<(Format, Seq<char>)> {
    Seq::new(list.len(), |i: int| (list[i].format, list[i].label@))
}

/// The dropdown entries: every format once.
pub fn cruncher_list() -> (r: Vec<Cruncher>)
    ensures
        entries(r@) == crunchers(),
{
    let mut r: Vec<Cruncher> = Vec::new();
    r.push(Cruncher { format: Format::LzanFull, label: "LZAN full" });
    r.push(Cruncher { format: Format::LzanMin, label: "LZAN min" });
    r.push(Cruncher { format: Format::Exomizer, label: "Exomizer" });
    r.push(Cruncher { format: Format::Subsizer, label: "Subsizer" });
    r.push(Cruncher { format: Format::Shrinkler, label: "Shrinkler" });
    r.push(Cruncher { format: Format::Zx02, label: "ZX02" });
    r.push(Cruncher { format: Format::Zx0, label: "ZX0" });
    r.push(Cruncher { format: Format::Lzsa2, label: "LZSA2" });
    r.push(Cruncher { format: Format::Lzsa1, label: "LZSA1" });
    r.push(Cruncher { format: Format::Aplib, label: "aPLib" });
    r.push(Cruncher { format: Format::TsCrunch, label: "TSCrunch" });
    r.push(Cruncher { format: Format::ByteBoozer2, label: "ByteBoozer2" });
    r.push(Cruncher { format: Format::PuCrunch, label: "PuCrunch" });
    r.push(Cruncher { format: Format::Upkr, label: "upkr" });
    r.push(Cruncher { format: Format::Bolt, label: "BoltLZ" });
    assert(entries(r@) =~= crunchers());
    r
}

/// The list offers every format, and each only once.
pub proof fn every_format_is_listed_once(f: Format)
    ensures
        exists|i: int| 0 <= i < crunchers().len() && (#[trigger] crunchers()[i]).0 == f,
        forall|i: int, j: int|
            0 <= i < crunchers().len() && 0 <= j < crunchers().len() && (
            #[trigger] crunchers()[i]).0 == (#[trigger] crunchers()[j]).0 ==> i == j,
{
    let i: int = match f {
        Format::LzanFull => 0,
        Format::LzanMin => 1,
        Format::Exomizer => 2,
        Format::Subsizer => 3,
        Format::Shrinkler => 4,
        Format::Zx02 => 5,
        Format::Zx0 => 6,
        Format::Lzsa2 => 7,
        Format::Lzsa1 => 8,
        Format::Aplib => 9,
        Format::TsCrunch => 10,
        Format::ByteBoozer2 => 11,
        Format::PuCrunch => 12,
        Format::Upkr => 13,
        Format::Bolt => 14,
    };
    assert(crunchers()[i].0 == f);
}

/// A direction and the other one are two, and are called by different names.
pub proof fn directions_are_two(d: Direction)
    ensures
        d.opposite() != d,
        d.opposite().opposite() == d,
        Direction::Forward.name() != Direction::Backward.name(),
{
    reveal_strlit("forward");
    reveal_strlit("backward");
    assert(Direction::Forward.name()[0] == 'f');
    assert(Direction::Backward.name()[0] == 'b');
}

/// The routines of a direction do not depend on those of the other, nor those
/// with documented opcodes only on the rest.
pub proof fn routines_are_kept_apart(f: FormatModel, other: FormatModel)
    ensures
        f.forward.any == other.forward.any ==> f.set(Direction::Forward, true) == other.set(
            Direction::Forward,
            true,
        ),
        f.forward.legal == other.forward.legal ==> f.set(Direction::Forward, false) == other.set(
            Direction::Forward,
            false,
        ),
        f.backward.any == other.backward.any ==> f.set(Direction::Backward, true) == other.set(
            Direction::Backward,
            true,
        ),
        f.backward.legal == other.backward.legal ==> f.set(Direction::Backward, false)
            == other.set(Direction::Backward, false),
        f.set(Direction::Forward, true) == f.forward.any,
        f.set(Direction::Backward, false) == f.backward.legal,
{
}

/// What a format is called.
pub open spec fn is_called(f: Format, label: Seq<char>) -> bool {
    match f {
        Format::Aplib => label == "aPLib"@,
        Format::Bolt => label == "BoltLZ"@,
        Format::ByteBoozer2 => label == "ByteBoozer2"@,
        Format::Exomizer => label == "Exomizer"@,
        Format::LzanFull => label == "LZAN full"@,
        Format::LzanMin => label == "LZAN min"@,
        Format::Lzsa1 => label == "LZSA1"@,
        Format::Lzsa2 => label == "LZSA2"@,
        Format::PuCrunch => label == "PuCrunch"@,
        Format::Shrinkler => label == "Shrinkler"@,
        Format::Subsizer => label == "Subsizer"@,
        Format::TsCrunch => label == "TSCrunch"@,
        Format::Upkr => label == "upkr"@,
        Format::Zx0 => label == "ZX0"@,
        Format::Zx02 => label == "ZX02"@,
    }
}

/// Every entry of the list is called what its format is called, and no two
/// entries are called the same.
pub proof fn formats_are_listed_under_their_own_names(i: int, j: int)
    requires
        0 <= i < j < crunchers().len(),
    ensures
        is_called(crunchers()[i].0, crunchers()[i].1),
        is_called(crunchers()[j].0, crunchers()[j].1),
        crunchers()[i].1 != crunchers()[j].1,
{
    reveal_strlit("LZAN full");
    reveal_strlit("LZAN min");
    reveal_strlit("Exomizer");
    reveal_strlit("Subsizer");
    reveal_strlit("Shrinkler");
    reveal_strlit("ZX02");
    reveal_strlit("ZX0");
    reveal_strlit("LZSA2");
    reveal_strlit("LZSA1");
    reveal_strlit("aPLib");
    reveal_strlit("TSCrunch");
    reveal_strlit("ByteBoozer2");
    reveal_strlit("PuCrunch");
    reveal_strlit("upkr");
    reveal_strlit("BoltLZ");
    let (a, b) = (crunchers()[i].1, crunchers()[j].1);
    if a == b {
        assert(a.len() == b.len() && a[0] == b[0] && a[1] == b[1] && a[3] == b[3]);
        assert(a.len() == 5 ==> a[4] == b[4]);
    }
}

} // verus!
