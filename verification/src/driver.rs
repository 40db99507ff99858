//! What the command line driver decides without looking at the world.

use vstd::prelude::*;

verus! {

/// What the driver is asked to produce.
#[derive(Debug, Clone, Copy, PartialEq, Eq, Structural)]
pub enum Mode {
    /// An executable: compile and link.
    Exe,
    /// An object file.
    Obj,
    /// Assembly text.
    Asm,
}

/// The name of the output where none is given, for an input whose file
/// name without its extension is `stem`.
pub open spec fn default_output(stem: Seq<char>, mode: Mode) -> Seq<char> {
    match mode {
        Mode::Obj => stem + ".o"@,
        Mode::Asm => stem + ".s"@,
        Mode::Exe => "a.out"@,
    }
}

/// The name of the output where none is given, for an input whose file
/// name without its extension is `stem`.
pub fn default_output_for(stem: &str, mode: Mode) -> (r: String)
    ensures
        r@ == default_output(stem@, mode),
{
    match mode {
        Mode::Obj => {
            let mut r = stem.to_owned();
            r.append(".o");
            r
        },
        Mode::Asm => {
            let mut r = stem.to_owned();
            r.append(".s");
            r
        },
        Mode::Exe => "a.out".to_owned(),
    }
}

} // verus!
