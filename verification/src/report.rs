//! What is told about a finished program and about a plan.
use vstd::prelude::*;

#[allow(unused_imports)]
use crate::address::{parsed_address, parsed_range};
#[allow(unused_imports)]
use crate::address_laws::written_addresses_read_back;
use crate::formats::{Direction, FormatInfo};
use crate::plan::{PlanPreview, STACK_PAGE_SLOT};
#[allow(unused_imports)]
use crate::plan::PreviewModel;
use crate::sfx::SfxResult;
#[allow(unused_imports)]
use crate::sfx::SfxModel;
use crate::settings::address_field;
#[allow(unused_imports)]
use crate::settings::address_text;
use crate::text::{push_decimal, push_hex4};
#[allow(unused_imports)]
use crate::text::{addresses_are_written_with_four_digits, decimal, hex4, texts};

verus! {

/// The facts of a finished crunch. The ratio and the unpacking score are
/// already written out.
pub struct Report {
    pub format_label: String,
    /// Sum of the input `.prg` sizes.
    pub input_len: usize,
    pub output_len: usize,
    pub stream_len: usize,
    pub decoder_bytes: u16,
    pub direction: Direction,
    pub packed_at: u16,
    pub decruncher_at: u16,
    pub scratch: Option<(u16, u16)>,
    pub mover_at: Option<u16>,
    pub mover_folded: bool,
    /// The payload was moved to its decode position (`false` = read in place).
    pub payload_moved: bool,
    pub span: (u32, u32),
    pub file: String,
    pub warnings: Vec<String>,
    pub decoder_tailored: bool,
    /// Bytes the whole program shrank against the standard decoder.
    pub decoder_saved: usize,
    /// Output size as a percentage of the input, with one decimal.
    pub ratio: String,
    /// Unpacking speed of the decoder that was built.
    pub score: String,
}

/// What a [`Report`] holds.
#[verifier::ext_equal]
pub struct ReportModel {
    pub format_label: Seq<char>,
    pub input_len: int,
    pub output_len: int,
    pub stream_len: int,
    pub decoder_bytes: int,
    pub direction: Direction,
    pub packed_at: int,
    pub decruncher_at: u16,
    pub scratch: Option<(u16, u16)>,
    pub mover_at: Option<u16>,
    pub mover_folded: bool,
    pub payload_moved: bool,
    pub span: (u32, u32),
    pub file: Seq<char>,
    pub warnings: Seq<Seq<char>>,
    pub decoder_tailored: bool,
    pub decoder_saved: int,
    pub ratio: Seq<char>,
    pub score: Seq<char>,
}

impl View for Report {
    type V = ReportModel;

    open spec fn view(&self) -> ReportModel {
        ReportModel {
            format_label: self.format_label@,
            input_len: self.input_len as int,
            output_len: self.output_len as int,
            stream_len: self.stream_len as int,
            decoder_bytes: self.decoder_bytes as int,
            direction: self.direction,
            packed_at: self.packed_at as int,
            decruncher_at: self.decruncher_at,
            scratch: self.scratch,
            mover_at: self.mover_at,
            mover_folded: self.mover_folded,
            payload_moved: self.payload_moved,
            span: self.span,
            file: self.file@,
            warnings: texts(self.warnings@),
            decoder_tailored: self.decoder_tailored,
            decoder_saved: self.decoder_saved as int,
            ratio: self.ratio@,
            score: self.score@,
        }
    }
}

/// The report of a finished program. Every size is that of the program that was
/// built.
pub open spec fn reported(
    r: SfxModel,
    input_len: int,
    file: Seq<char>,
    label: Seq<char>,
    ratio: Seq<char>,
    score: Seq<char>,
) -> ReportModel {
    ReportModel {
        format_label: label,
        input_len,
        output_len: r.prg.len() as int,
        stream_len: r.stream_len,
        decoder_bytes: r.decoder_bytes,
        direction: r.direction,
        packed_at: r.packed_at,
        decruncher_at: r.decruncher_at,
        scratch: r.scratch,
        mover_at: r.mover_at,
        mover_folded: r.mover_folded,
        payload_moved: r.payload_moved,
        span: r.span,
        file,
        warnings: r.warnings,
        decoder_tailored: r.decoder_tailored,
        decoder_saved: r.decoder_saved,
        ratio,
        score,
    }
}

/// Reports a finished program.
pub fn report_of(
    r: SfxResult,
    input_len: usize,
    file: String,
    format_label: String,
    ratio: String,
    score: String,
) -> (o: Report)
    ensures
        o@ == reported(r@, input_len as int, file@, format_label@, ratio@, score@),
{
    Report {
        format_label,
        input_len,
        output_len: r.prg.len(),
        stream_len: r.stream_len,
        decoder_bytes: r.decoder_bytes,
        direction: r.direction,
        packed_at: r.packed_at,
        decruncher_at: r.decruncher_at,
        scratch: r.scratch,
        mover_at: r.mover_at,
        mover_folded: r.mover_folded,
        payload_moved: r.payload_moved,
        span: r.span,
        file,
        warnings: r.warnings,
        decoder_tailored: r.decoder_tailored,
        decoder_saved: r.decoder_saved,
        ratio,
        score,
    }
}

/// A number with its sign.
pub open spec fn signed(v: int) -> Seq<char> {
    if v < 0 {
        "-"@ + decimal((-v) as nat)
    } else {
        decimal(v as nat)
    }
}

/// Appends the difference of two sizes.
fn push_difference(s: &mut String, a: usize, b: usize)
    ensures
        final(s)@ == old(s)@ + signed(a - b),
{
    if a < b {
        s.append("-");
        push_decimal(s, (b - a) as u64);
    } else {
        push_decimal(s, (a - b) as u64);
    }
    assert(s@ =~= old(s)@ + signed(a - b));
}

/// The size of the decoder, what tailoring saved, and how fast it is.
pub open spec fn decoder_note(r: ReportModel) -> Seq<char> {
    "decoder "@ + decimal(r.decoder_bytes as nat) + " B"@ + (if r.decoder_tailored {
        " (tailored, −"@ + decimal(r.decoder_saved as nat) + " B)"@
    } else {
        ""@
    }) + ", unpacking speed "@ + r.score
}

/// The log line of a finished crunch.
pub open spec fn crunch_line(r: ReportModel) -> Seq<char> {
    r.format_label + ": "@ + decimal(r.input_len as nat) + " → "@ + decimal(r.output_len as nat)
        + " B ("@ + r.ratio + "%, saved "@ + signed(r.input_len - r.output_len) + " B); stream "@
        + decimal(r.stream_len as nat) + " B, "@ + decoder_note(r) + ", "@ + r.direction.name()
}

/// Appends what is known of the decoder.
fn push_decoder_note(s: &mut String, r: &Report)
    ensures
        final(s)@ == old(s)@ + decoder_note(r@),
{
    s.append("decoder ");
    push_decimal(s, r.decoder_bytes as u64);
    s.append(" B");
    if r.decoder_tailored {
        s.append(" (tailored, −");
        push_decimal(s, r.decoder_saved as u64);
        s.append(" B)");
    } else {
        s.append("");
    }
    s.append(", unpacking speed ");
    s.append(r.score.as_str());
    assert(s@ =~= old(s)@ + decoder_note(r@));
}

impl Report {
    /// The log line of the finished crunch.
    pub fn line(&self) -> (r: String)
        ensures
            r@ == crunch_line(self@),
    {
        let mut s = self.format_label.clone();
        s.append(": ");
        push_decimal(&mut s, self.input_len as u64);
        s.append(" → ");
        push_decimal(&mut s, self.output_len as u64);
        s.append(" B (");
        s.append(self.ratio.as_str());
        s.append("%, saved ");
        push_difference(&mut s, self.input_len, self.output_len);
        s.append(" B); stream ");
        push_decimal(&mut s, self.stream_len as u64);
        s.append(" B, ");
        push_decoder_note(&mut s, self);
        s.append(", ");
        s.append(self.direction.as_str());
        s
    }
}

/// The size of a finished program next to that of its input.
pub open spec fn size_text(r: ReportModel) -> Seq<char> {
    decimal(r.output_len as nat) + " bytes  ("@ + r.ratio + " %, "@ + signed(
        r.input_len - r.output_len,
    ) + " saved)"@
}

/// The first and the last address of a span.
pub open spec fn span_text(span: (u32, u32)) -> Seq<char> {
    "$"@ + hex4(span.0 as nat) + "-$"@ + hex4((span.1 - 1) as nat)
}

/// How the stream is unpacked.
pub open spec fn unpacking_text(r: ReportModel) -> Seq<char> {
    r.direction.name() + ", packed data @ $"@ + hex4(r.packed_at as nat) + " ("@ + decimal(
        r.stream_len as nat,
    ) + " B)"@
}

/// Where the decoder sits, and how large and fast it is.
pub open spec fn routine_text(r: ReportModel) -> Seq<char> {
    "$"@ + hex4(r.decruncher_at as nat) + "  ("@ + decimal(r.decoder_bytes as nat) + " B code"@ + (
    if r.decoder_tailored {
        ", tailored −"@ + decimal(r.decoder_saved as nat) + " B"@
    } else {
        ""@
    }) + ", unpacking speed "@ + r.score + ")"@
}

/// Where the scratch buffer sits.
pub open spec fn buffer_text(r: ReportModel) -> Seq<char> {
    match r.scratch {
        Some((a, l)) => "$"@ + hex4(a as nat) + " ("@ + decimal(l as nat) + " B)"@,
        None => "not needed"@,
    }
}

/// What moves the payload.
pub open spec fn mover_text(r: ReportModel) -> Seq<char> {
    if !r.payload_moved {
        "not needed — payload read in place"@
    } else {
        match r.mover_at {
            Some(a) => "$"@ + hex4(a as nat),
            None => if r.mover_folded {
                "folded into the decoder blob"@
            } else {
                "inline (from the main program)"@
            },
        }
    }
}

impl Report {
    /// Size of the program and how it compares.
    pub fn size(&self) -> (r: String)
        ensures
            r@ == size_text(self@),
    {
        let mut s = String::new();
        push_decimal(&mut s, self.output_len as u64);
        s.append(" bytes  (");
        s.append(self.ratio.as_str());
        s.append(" %, ");
        push_difference(&mut s, self.input_len, self.output_len);
        s.append(" saved)");
        assert(s@ =~= size_text(self@));
        s
    }

    /// First and last address of the span.
    pub fn span_range(&self) -> (r: String)
        requires
            self.span.1 > 0,
        ensures
            r@ == span_text(self.span),
    {
        let mut s = "$".to_owned();
        push_hex4(&mut s, self.span.0 as u64);
        s.append("-$");
        push_hex4(&mut s, (self.span.1 - 1) as u64);
        s
    }

    /// How the stream is unpacked.
    pub fn unpacking(&self) -> (r: String)
        ensures
            r@ == unpacking_text(self@),
    {
        let mut s = self.direction.as_str().to_owned();
        s.append(", packed data @ $");
        push_hex4(&mut s, self.packed_at as u64);
        s.append(" (");
        push_decimal(&mut s, self.stream_len as u64);
        s.append(" B)");
        s
    }

    /// Where the decoder sits, and how large and fast it is.
    pub fn routine(&self) -> (r: String)
        ensures
            r@ == routine_text(self@),
    {
        let mut s = "$".to_owned();
        push_hex4(&mut s, self.decruncher_at as u64);
        s.append("  (");
        push_decimal(&mut s, self.decoder_bytes as u64);
        s.append(" B code");
        let ghost before = s@;
        if self.decoder_tailored {
            s.append(", tailored −");
            push_decimal(&mut s, self.decoder_saved as u64);
            s.append(" B");
            assert(s@ =~= before + (", tailored −"@ + decimal(self.decoder_saved as nat) + " B"@));
        } else {
            s.append("");
        }
        s.append(", unpacking speed ");
        s.append(self.score.as_str());
        s.append(")");
        s
    }

    /// Where the scratch buffer sits.
    pub fn buffer(&self) -> (r: String)
        ensures
            r@ == buffer_text(self@),
    {
        match self.scratch {
            Some((a, l)) => {
                let mut s = "$".to_owned();
                push_hex4(&mut s, a as u64);
                s.append(" (");
                push_decimal(&mut s, l as u64);
                s.append(" B)");
                s
            },
            None => "not needed".to_owned(),
        }
    }

    /// What moves the payload.
    pub fn mover(&self) -> (r: String)
        ensures
            r@ == mover_text(self@),
    {
        if !self.payload_moved {
            return "not needed — payload read in place".to_owned();
        }
        match self.mover_at {
            Some(a) => address_field(a as u32),
            None => {
                if self.mover_folded {
                    "folded into the decoder blob".to_owned()
                } else {
                    "inline (from the main program)".to_owned()
                }
            },
        }
    }
}

/// The direction of a plan in words.
pub open spec fn plan_direction_text(d: Direction) -> Seq<char> {
    match d {
        Direction::Forward => "forward unpacking, packed data moved to $FFFF"@,
        Direction::Backward => "backward unpacking, packed data moved below the span"@,
    }
}

/// Where a plan puts the decoder.
pub open spec fn plan_decoder_text(p: PreviewModel) -> Seq<char> {
    decimal(p.staged_size as nat) + " B staged @ "@ + (match p.decruncher_at {
        Some(a) => address_text(a as int),
        None => "set manually!"@,
    })
}

/// What a plan does about the mover.
pub open spec fn plan_mover_text(p: PreviewModel, mover_auto: bool) -> Seq<char> {
    if mover_auto {
        "folded into the decoder blob if the payload move needs to survive"@
    } else {
        "$"@ + hex4(p.mover_at as nat) + " (used only if the payload move needs relocation)"@
    }
}

/// The rows of a plan, label and value.
pub open spec fn plan_rows(p: PreviewModel, mover_auto: bool) -> Seq<(Seq<char>, Seq<char>)> {
    let head = seq![
        ("Direction"@, plan_direction_text(p.direction)),
        ("Decrunch"@, plan_decoder_text(p)),
    ];
    let buffer = match p.scratch {
        Some((a, l)) => seq![
            ("Buffer"@, decimal(l as nat) + " B @ $"@ + hex4(a as nat)),
        ],
        None => Seq::empty(),
    };
    head + buffer + seq![("Mover"@, plan_mover_text(p, mover_auto))]
}

/// What the rows hold.
pub open spec fn row_models(rows: Seq<(&'static str, String)>) -> Seq<(Seq<char>, Seq<char>)> {
    Seq::new(rows.len(), |i: int| (rows[i].0@, rows[i].1@))
}

/// The rows that show a plan, label and value.
pub fn plan_lines(plan: &PlanPreview, mover_auto: bool) -> (r: Vec<(&'static str, String)>)
    ensures
        row_models(r@) == plan_rows(plan@, mover_auto),
{
    let mut rows: Vec<(&'static str, String)> = Vec::new();
    let direction = match plan.direction {
        Direction::Forward => "forward unpacking, packed data moved to $FFFF".to_owned(),
        Direction::Backward => "backward unpacking, packed data moved below the span".to_owned(),
    };
    rows.push(("Direction", direction));
    let mut decoder = String::new();
    push_decimal(&mut decoder, plan.staged_size as u64);
    decoder.append(" B staged @ ");
    match plan.decruncher_at {
        Some(a) => {
            let at = address_field(a as u32);
            decoder.append(at.as_str());
        },
        None => {
            decoder.append("set manually!");
        },
    }
    assert(decoder@ =~= plan_decoder_text(plan@));
    rows.push(("Decrunch", decoder));
    if let Some((a, l)) = plan.scratch {
        let mut buffer = String::new();
        push_decimal(&mut buffer, l as u64);
        buffer.append(" B @ $");
        push_hex4(&mut buffer, a as u64);
        assert(buffer@ =~= decimal(l as nat) + " B @ $"@ + hex4(a as nat));
        rows.push(("Buffer", buffer));
    }
    let mover = if mover_auto {
        "folded into the decoder blob if the payload move needs to survive".to_owned()
    } else {
        let mut m = "$".to_owned();
        push_hex4(&mut m, plan.mover_at as u64);
        m.append(" (used only if the payload move needs relocation)");
        m
    };
    rows.push(("Mover", mover));
    assert(row_models(rows@) =~= plan_rows(plan@, mover_auto));
    rows
}

/// First and last address of a block, for the region list.
pub fn range_text(start: u32, end: u32) -> (r: String)
    requires
        end > 0,
    ensures
        r@ == span_text((start, end)),
{
    let mut s = "$".to_owned();
    push_hex4(&mut s, start as u64);
    s.append("-$");
    push_hex4(&mut s, (end - 1) as u64);
    s
}

/// Whether the format uses a scratch buffer: as the live plan says, or as its
/// forward routine does while there is none.
pub fn needs_buffer(plan: Option<&PlanPreview>, info: &FormatInfo, allow_illegal: bool) -> (r: bool)
    ensures
        r == match plan {
            Some(p) if p@.unavailable is None => p@.scratch is Some,
            _ => (info@.set(Direction::Forward, allow_illegal).balanced matches Some(routine)
                && routine.scratch is Some),
        },
{
    if let Some(p) = plan {
        if p.unavailable.is_none() {
            return p.scratch.is_some();
        }
    }
    match info.decoders(Direction::Forward, allow_illegal).balanced {
        Some(routine) => routine.scratch.is_some(),
        None => false,
    }
}

/// The warning about a decoder that is too large for the stack page.
pub open spec fn spill_text(p: PreviewModel) -> Option<Seq<char>> {
    if p.unavailable is None && p.decruncher_at == Some(0x0100u16) && p.staged_size
        > STACK_PAGE_SLOT {
        Some(
            "⚠ "@ + decimal(p.staged_size as nat)
                + " B spills past the $0100-$01DF slot into the stack"@,
        )
    } else {
        None
    }
}

/// Warns about a decoder that is too large for the stack page.
pub fn stack_page_warning(plan: &PlanPreview) -> (r: Option<String>)
    ensures
        match (r, spill_text(plan@)) {
            (Some(a), Some(b)) => a@ == b,
            (None, None) => true,
            _ => false,
        },
{
    if plan.unavailable.is_some() {
        return None;
    }
    match plan.decruncher_at {
        Some(d) => {
            if d == 0x0100 && plan.staged_size > STACK_PAGE_SLOT {
                let mut s = "⚠ ".to_owned();
                push_decimal(&mut s, plan.staged_size as u64);
                s.append(" B spills past the $0100-$01DF slot into the stack");
                Some(s)
            } else {
                None
            }
        },
        None => None,
    }
}

/// Automatic placement never spills past the stack-page slot: the warning only
/// comes with a decoder address that the user set.
pub proof fn automatic_placement_never_spills(
    span: (u32, u32),
    f: crate::formats::FormatModel,
    p: crate::placement::Placement,
)
    requires
        crate::plan::valid_span(span),
        p.decruncher is None,
    ensures
        spill_text(crate::plan::preview(span, f, p)) is None,
{
    let v = crate::plan::preview(span, f, p);
    if v.unavailable is None {
        let len = crate::plan::worst_case(span.1 - span.0);
        crate::plan::candidates_are_usable(span, f, p);
        crate::plan_laws::decoder_goes_where_asked_or_fits(span, len, f, v.direction, p, false);
    }
}

/// A report never claims more than the program that was built: its decoder size
/// and its output size are those of the result.
pub proof fn report_matches_the_program(
    r: SfxModel,
    input_len: int,
    file: Seq<char>,
    label: Seq<char>,
    ratio: Seq<char>,
    score: Seq<char>,
)
    ensures
        reported(r, input_len, file, label, ratio, score).output_len == r.prg.len(),
        reported(r, input_len, file, label, ratio, score).decoder_bytes == r.decoder_bytes,
{
}

/// A report says of the program what the build said of it, and adds the label,
/// the file, the input and the two figures.
pub proof fn reports_repeat_the_build(
    r: SfxModel,
    input_len: int,
    file: Seq<char>,
    label: Seq<char>,
    ratio: Seq<char>,
    score: Seq<char>,
)
    ensures
        ({
            let o = reported(r, input_len, file, label, ratio, score);
            &&& o.format_label == label && o.file == file && o.input_len == input_len
            &&& o.ratio == ratio && o.score == score
            &&& o.output_len == r.prg.len() && o.stream_len == r.stream_len
            &&& o.direction == r.direction && o.span == r.span
            &&& o.packed_at == r.packed_at && o.decruncher_at == r.decruncher_at
            &&& o.scratch == r.scratch && o.mover_at == r.mover_at
            &&& o.mover_folded == r.mover_folded && o.payload_moved == r.payload_moved
            &&& o.warnings == r.warnings
            &&& o.decoder_tailored == r.decoder_tailored && o.decoder_saved == r.decoder_saved
        }),
{
}

/// Whether a text starts with an address.
pub open spec fn starts_with_address(t: Seq<char>, a: u16) -> bool {
    t.len() >= 5 && parsed_address(t.take(5)) == Ok::<u16, Seq<char>>(a)
}

proof fn lemma_starts(a: u16, rest: Seq<char>)
    ensures
        starts_with_address("$"@ + hex4(a as nat) + rest, a),
{
    reveal_strlit("$");
    addresses_are_written_with_four_digits(a, 0);
    written_addresses_read_back(a);
    assert(("$"@ + hex4(a as nat) + rest).take(5) =~= "$"@ + hex4(a as nat));
}

/// What is shown of the decoder and of the buffer starts with its address; what
/// is shown of a relocated mover is its address, and only a program that has
/// one shows an address there.
pub proof fn reports_show_the_addresses(r: ReportModel)
    ensures
        starts_with_address(routine_text(r), r.decruncher_at),
        r.scratch matches Some((a, n)) ==> starts_with_address(buffer_text(r), a),
        r.payload_moved && r.mover_at is Some ==> parsed_address(mover_text(r)) == Ok::<
            u16,
            Seq<char>,
        >(r.mover_at->0),
        r.payload_moved && r.mover_at is None ==> (mover_text(r)[0] == 'f' <==> r.mover_folded),
        !r.payload_moved ==> mover_text(r)[0] == 'n',
        r.scratch is None ==> buffer_text(r)[0] == 'n',
{
    reveal_strlit("folded into the decoder blob");
    reveal_strlit("inline (from the main program)");
    reveal_strlit("not needed — payload read in place");
    reveal_strlit("not needed");
    let tail = "  ("@ + decimal(r.decoder_bytes as nat) + " B code"@ + (if r.decoder_tailored {
        ", tailored −"@ + decimal(r.decoder_saved as nat) + " B"@
    } else {
        ""@
    }) + ", unpacking speed "@ + r.score + ")"@;
    lemma_starts(r.decruncher_at, tail);
    assert(routine_text(r) =~= "$"@ + hex4(r.decruncher_at as nat) + tail);
    if let Some((a, n)) = r.scratch {
        let rest = " ("@ + decimal(n as nat) + " B)"@;
        lemma_starts(a, rest);
        assert(buffer_text(r) =~= "$"@ + hex4(a as nat) + rest);
    }
    if r.mover_at is Some {
        written_addresses_read_back(r.mover_at->0);
    }
}

/// The span is shown from its first address to its last, and reads back as the
/// range that it is.
pub proof fn the_span_shown_reads_back(start: u16, end: u32)
    requires
        start < end <= 0x1_0000,
    ensures
        ({
            let t = span_text((start as u32, end));
            &&& t.len() == 11
            &&& t[5] == '-'
            &&& parsed_range(t.take(5), t.skip(6)) == Ok::<(u16, u32), Seq<char>>((start, end))
        }),
{
    reveal_strlit("$");
    reveal_strlit("-$");
    let t = span_text((start as u32, end));
    addresses_are_written_with_four_digits(start, 0);
    addresses_are_written_with_four_digits((end - 1) as u16, 0);
    crate::address_laws::written_ranges_read_back(start, end);
    assert(t.take(5) =~= "$"@ + hex4(start as nat));
    assert(t.skip(6) =~= "$"@ + hex4((end - 1) as nat));
}

/// A difference is written with a sign exactly if it is negative, and its
/// digits read back as how far apart the two are.
pub proof fn differences_are_written_with_their_sign(v: int)
    requires
        -0xFFFF <= v <= 0xFFFF,
    ensures
        v >= 0 ==> parsed_address(signed(v)) == Ok::<u16, Seq<char>>(v as u16),
        v < 0 ==> signed(v)[0] == '-' && parsed_address(signed(v).skip(1)) == Ok::<
            u16,
            Seq<char>,
        >((-v) as u16),
{
    reveal_strlit("-");
    if v >= 0 {
        crate::address_laws::written_counts_read_back(v as u16);
    } else {
        crate::address_laws::written_counts_read_back((-v) as u16);
        assert(signed(v).skip(1) =~= decimal((-v) as nat));
    }
}

/// A plan is shown in its direction, its decoder and its mover, with the buffer
/// between them exactly if there is one.
pub proof fn plans_show_a_buffer_if_there_is_one(p: PreviewModel, mover_auto: bool)
    ensures
        plan_rows(p, mover_auto).len() == if p.scratch is Some {
            4int
        } else {
            3
        },
        plan_rows(p, mover_auto)[0].0 == "Direction"@,
        plan_rows(p, mover_auto)[1].0 == "Decrunch"@,
        plan_rows(p, mover_auto).last().0 == "Mover"@,
        p.scratch is Some ==> plan_rows(p, mover_auto)[2].0 == "Buffer"@,
        plan_rows(p, mover_auto)[0].1 == match p.direction {
            Direction::Forward => "forward unpacking, packed data moved to $FFFF"@,
            Direction::Backward => "backward unpacking, packed data moved below the span"@,
        },
        !mover_auto ==> starts_with_address(plan_rows(p, mover_auto).last().1, p.mover_at),
{
    lemma_starts(p.mover_at, " (used only if the payload move needs relocation)"@);
}

/// A decoder that was put at `$0100` and is longer than the 224 bytes of its
/// slot there is warned about; nothing else is.
pub proof fn long_decoders_in_the_stack_page_are_warned_about(p: PreviewModel)
    ensures
        spill_text(p) is Some <==> p.unavailable is None && p.decruncher_at == Some(0x0100u16)
            && p.staged_size > 224,
{
}

/// Where the packed data lies is shown behind the direction.
pub proof fn reports_show_where_the_data_lies(r: ReportModel)
    requires
        0 <= r.packed_at <= 0xFFFF,
    ensures
        ({
            let t = unpacking_text(r);
            let n = r.direction.name().len() as int;
            &&& t.take(n) == r.direction.name()
            &&& t.len() > n + 21
            &&& parsed_address(t.subrange(n + 16, n + 21)) == Ok::<u16, Seq<char>>(
                r.packed_at as u16,
            )
        }),
{
    reveal_strlit(", packed data @ $");
    reveal_strlit("$");
    reveal_strlit(" (");
    let a = r.packed_at as u16;
    addresses_are_written_with_four_digits(a, 0);
    written_addresses_read_back(a);
    let t = unpacking_text(r);
    let n = r.direction.name().len() as int;
    assert(t.take(n) =~= r.direction.name());
    assert(t.subrange(n + 16, n + 21) =~= "$"@ + hex4(a as nat));
}

/// What is shown of a plan's decoder and buffer ends with the address.
pub proof fn plans_show_the_addresses(p: PreviewModel, mover_auto: bool)
    ensures
        p.decruncher_at matches Some(a) ==> {
            let t = plan_rows(p, mover_auto)[1].1;
            t.len() >= 5 && parsed_address(t.skip(t.len() - 5)) == Ok::<u16, Seq<char>>(a)
        },
        p.scratch matches Some((a, n)) ==> {
            let t = plan_rows(p, mover_auto)[2].1;
            t.len() >= 5 && parsed_address(t.skip(t.len() - 5)) == Ok::<u16, Seq<char>>(a)
        },
{
    reveal_strlit("$");
    reveal_strlit(" B @ $");
    if let Some(a) = p.decruncher_at {
        addresses_are_written_with_four_digits(a, 0);
        written_addresses_read_back(a);
        let t = plan_rows(p, mover_auto)[1].1;
        assert(t.skip(t.len() - 5) =~= "$"@ + hex4(a as nat));
    }
    if let Some((a, n)) = p.scratch {
        addresses_are_written_with_four_digits(a, 0);
        written_addresses_read_back(a);
        let t = plan_rows(p, mover_auto)[2].1;
        assert(t.skip(t.len() - 5) =~= "$"@ + hex4(a as nat));
    }
}

} // verus!
