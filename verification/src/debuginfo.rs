//! Debug-information lookups: address to source file and line, and address
//! to innermost non-inlined function name.  The DWARF parsing and lookups
//! are done by the addr2line crate behind trusted wrappers; lookups fail
//! softly, yielding nothing rather than an error.

use crate::image::ImageParseError;
use vstd::prelude::*;

verus! {

/// Whether the object parser and addr2line accept an image's debug
/// sections: a function of the bytes alone.
pub uninterp spec fn debug_parses(image: Seq<u8>) -> bool;

/// The parsed debug information of one program image.  The addr2line
/// context inside is opaque to verification; everything read out of it
/// comes through the wrappers below as plain values.
#[verifier::external_body]
pub struct DebugInfo {
    ctx: addr2line::ObjectContext,
}

/// Relies on addr2line's bundled object parser and `Context::new`: parses
/// the image's debug sections once, for the lookups below; whether the
/// parse succeeds is a function of the bytes alone.
#[verifier::external_body]
pub fn parse_debug_info(program: &[u8]) -> (r: Result<DebugInfo, ImageParseError>)
    ensures
        (r is Ok) == debug_parses(program@),
{
    let object = match addr2line::object::File::parse(program) {
        Ok(o) => o,
        Err(e) => {
            return Err(ImageParseError { message: e.to_string() });
        },
    };
    match addr2line::Context::new(&object) {
        Ok(ctx) => Ok(DebugInfo { ctx }),
        Err(e) => Err(ImageParseError { message: e.to_string() }),
    }
}

/// Relies on addr2line's `Context::find_location`: the source file — and
/// line, where the line table gives one — for an address, or nothing when
/// the debug information does not cover it.
#[verifier::external_body]
pub fn find_location(di: &DebugInfo, addr: u64) -> (r: Option<(String, Option<u32>)>)
{
    match di.ctx.find_location(addr) {
        Ok(Some(loc)) => match loc.file {
            Some(f) => Some((f.to_string(), loc.line)),
            None => None,
        },
        _ => None,
    }
}

/// Relies on addr2line's `Context::find_frames` and `demangle_auto`: the
/// demangled name of the innermost non-inlined function at an address — the
/// last frame the iterator yields — or nothing when no frame names one.
#[verifier::external_body]
pub fn find_function_name(di: &DebugInfo, addr: u64) -> (r: Option<String>)
{
    let mut it = di.ctx.find_frames(addr).skip_all_loads().ok()?;
    let mut name: Option<String> = None;
    while let Ok(Some(frame)) = it.next() {
        if let Some(function) = frame.function {
            if let Ok(raw) = function.raw_name() {
                name = Some(addr2line::demangle_auto(raw, function.language).to_string());
            }
        }
    }
    name
}

} // verus!
