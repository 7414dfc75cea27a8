//! Import of already-crunched `.prg` files. A detector outside recognizes the
//! cruncher by signature and runs its depacker; what came back is judged here,
//! and the unpacked program can join the region list as a chunk.
use vstd::prelude::*;

verus! {

/// One unpacked program, ready to add to the memory image.
pub struct ImportedPart {
    /// Cruncher name reported by the detector (a chain like
    /// "Exomizer → TSCrunch" for double-crunched files).
    pub cruncher: String,
    /// First address of the unpacked program.
    pub start: u16,
    /// Last address (inclusive).
    pub end: u16,
    /// Where the original depacker jumped to launch the program: the real entry
    /// point, useful as a start-address default when the payload has no BASIC
    /// `SYS` stub.
    pub jump_start: u16,
    /// The unpacked program as a PRG image (load address and data).
    pub prg: Vec<u8>,
}

/// What an [`ImportedPart`] holds.
pub struct PartModel {
    pub cruncher: Seq<char>,
    pub start: u16,
    pub end: u16,
    pub jump_start: u16,
    pub prg: Seq<u8>,
}

impl View for ImportedPart {
    type V = PartModel;

    open spec fn view(&self) -> PartModel {
        PartModel {
            cruncher: self.cruncher@,
            start: self.start,
            end: self.end,
            jump_start: self.jump_start,
            prg: self.prg@,
        }
    }
}

/// What the detector made of a file: an unpacked program, nothing, or an error.
pub type Unpacked = Result<Option<ImportedPart>, String>;

/// What an [`Unpacked`] holds.
pub open spec fn unpacked(r: Unpacked) -> Result<Option<PartModel>, Seq<char>> {
    match r {
        Ok(Some(part)) => Ok(Some(part@)),
        Ok(None) => Ok(None),
        Err(e) => Err(e@),
    }
}

/// Why nothing was unpacked.
pub open spec fn not_unpacked_text(signature: Option<Seq<char>>) -> Seq<char> {
    match signature {
        Some(name) => "recognized as \""@ + name + "\" but the depacker did not finish."@,
        None =>
        "not recognized as a crunched file (or its BASIC entry line could not be parsed)."@,
    }
}

/// What an import comes to.
pub open spec fn imported(
    found: Result<Option<PartModel>, Seq<char>>,
    signature: Option<Seq<char>>,
) -> Result<PartModel, Seq<char>> {
    match found {
        Ok(Some(part)) => Ok(part),
        Ok(None) => Err(not_unpacked_text(signature)),
        Err(e) => Err(e),
    }
}

/// Whether the signature of the file is needed to judge what came back: only
/// where nothing was unpacked without an error.
pub fn needs_signature(found: &Unpacked) -> (r: bool)
    ensures
        r == (unpacked(*found) == Ok::<Option<PartModel>, Seq<char>>(None)),
{
    match found {
        Ok(None) => true,
        _ => false,
    }
}

/// Judges what the detector made of a file. Errors distinguish "recognized but
/// the depacker did not finish" from "not recognized as a crunched file".
/// `signature` is the name of the byte signature that matched, if one did; it
/// only counts where [`needs_signature`] says so.
pub fn import_crunched_with(found: Unpacked, signature: Option<String>) -> (r: Result<
    ImportedPart,
    String,
>)
    ensures
        ({
            let name = match signature {
                Some(n) => Some(n@),
                None => None,
            };
            match (r, imported(unpacked(found), name)) {
                (Ok(a), Ok(b)) => a@ == b,
                (Err(a), Err(b)) => a@ == b,
                _ => false,
            }
        }),
{
    match found {
        Ok(Some(part)) => Ok(part),
        Ok(None) => {
            match signature {
                Some(name) => {
                    let mut e = "recognized as \"".to_owned();
                    e.append(name.as_str());
                    e.append("\" but the depacker did not finish.");
                    Err(e)
                },
                None => Err(
                    "not recognized as a crunched file (or its BASIC entry line could not be parsed).".to_owned(),
                ),
            }
        },
        Err(e) => Err(e),
    }
}

/// Whether two byte strings are the same.
fn same_bytes(a: &[u8], b: &[u8]) -> (r: bool)
    ensures
        r == (a@ == b@),
{
    if a.len() != b.len() {
        return false;
    }
    let mut i: usize = 0;
    while i < a.len()
        invariant
            i <= a.len(),
            a@.len() == b@.len(),
            forall|k: int| 0 <= k < i ==> a@[k] == b@[k],
        decreases a.len() - i,
    {
        if a[i] != b[i] {
            return false;
        }
        i += 1;
    }
    assert(a@ =~= b@);
    true
}

/// The deeper layer of a program, if there is one.
pub open spec fn deeper(prg: Seq<u8>, layer: Result<Option<PartModel>, Seq<char>>) -> Option<
    PartModel,
> {
    match layer {
        Ok(Some(part)) if part.prg != prg => Some(part),
        _ => None,
    }
}

/// Judges a probe of whether an already-unpacked program `prg` is itself
/// another crunched layer: the deeper part counts only when a real inner layer
/// unpacks to a different program.
pub fn probe_deeper_layer(prg: &[u8], layer: Unpacked) -> (r: Option<ImportedPart>)
    ensures
        match (r, deeper(prg@, unpacked(layer))) {
            (Some(a), Some(b)) => a@ == b,
            (None, None) => true,
            _ => false,
        },
{
    match layer {
        Ok(Some(part)) => {
            if same_bytes(part.prg.as_slice(), prg) {
                None
            } else {
                Some(part)
            }
        },
        _ => None,
    }
}

/// A deeper layer is never the program itself, so peeling cannot go round in a
/// circle of one.
pub proof fn deeper_layers_differ(prg: Seq<u8>, layer: Result<Option<PartModel>, Seq<char>>)
    ensures
        deeper(prg, layer) matches Some(part) ==> part.prg != prg,
{
}

/// The signature only decides about an import that unpacked nothing.
pub proof fn signature_only_counts_when_needed(
    found: Result<Option<PartModel>, Seq<char>>,
    a: Option<Seq<char>>,
    b: Option<Seq<char>>,
)
    requires
        found != Ok::<Option<PartModel>, Seq<char>>(None),
    ensures
        imported(found, a) == imported(found, b),
{
}

/// What was unpacked is imported as it is; what was not is an error, the
/// detector's own or one that says how far it got.
pub proof fn unpacked_parts_are_imported_unchanged(
    part: PartModel,
    e: Seq<char>,
    signature: Option<Seq<char>>,
)
    ensures
        imported(Ok(Some(part)), signature) == Ok::<PartModel, Seq<char>>(part),
        imported(Err(e), signature) == Err::<PartModel, Seq<char>>(e),
        imported(Ok(None), signature) is Err,
        signature is Some ==> imported(Ok(None), signature) != imported(Ok(None), None),
{
    if signature is Some {
        let a = not_unpacked_text(signature);
        let b = not_unpacked_text(None);
        reveal_strlit("recognized as \"");
        reveal_strlit(
            "not recognized as a crunched file (or its BASIC entry line could not be parsed).",
        );
        assert(a[0] == 'r');
        assert(b[0] == 'n');
    }
}

/// A deeper layer is found exactly if one was unpacked and is another program;
/// it is taken as it is.
pub proof fn deeper_layers_are_other_programs(
    prg: Seq<u8>,
    layer: Result<Option<PartModel>, Seq<char>>,
)
    ensures
        deeper(prg, layer) is Some <==> (layer matches Ok(Some(part)) && part.prg != prg),
        deeper(prg, layer) matches Some(part) ==> layer == Ok::<Option<PartModel>, Seq<char>>(
            Some(part),
        ),
{
}

} // verus!
