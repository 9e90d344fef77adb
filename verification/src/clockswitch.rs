//! The clock switch (an HMC922 differential SPDT switch behind one 32-bit
//! register): word 1 selects the internal synthesizer, word 0 the external
//! input.

use vstd::prelude::*;

use crate::transport::{read_value, write_value, Error, Transport};

verus! {

/// Clock source selected by the switch.
#[derive(Debug, Copy, Clone, PartialEq, Eq, Structural)]
pub enum Source {
    /// Internal (the on-board synthesizer).
    Internal,
    /// External input.
    External,
}

/// The register word that selects a source.
pub open spec fn source_word(s: Source) -> u32 {
    match s {
        Source::Internal => 1u32,
        Source::External => 0u32,
    }
}

/// The source a register word selects, when it selects one.
pub open spec fn source_of_word(w: u32) -> Option<Source> {
    if w == 1 {
        Some(Source::Internal)
    } else if w == 0 {
        Some(Source::External)
    } else {
        None
    }
}

/// Selecting a source and reading the word back names that source: the
/// write/read round trip of the switch.
pub proof fn lemma_source_round_trip(s: Source)
    ensures
        source_of_word(source_word(s)) == Some(s),
{
}

/// The name of the switch's register.
pub open spec fn clock_switch_name() -> Seq<u8> {
    seq![0x61u8, 0x64, 0x63, 0x31, 0x36, 0x5F, 0x75, 0x73, 0x65, 0x5F, 0x73, 0x79, 0x6E, 0x74, 0x68]
}

/// Writes the switch's register name, `adc16_use_synth`.
pub fn clock_switch_name_bytes() -> (r: Vec<u8>)
    ensures
        r@ == clock_switch_name(),
{
    let v = vec![
        0x61u8, 0x64, 0x63, 0x31, 0x36, 0x5F, 0x75, 0x73, 0x65, 0x5F, 0x73, 0x79, 0x6E, 0x74,
        0x68,
    ];
    assert(v@ =~= clock_switch_name());
    v
}

/// The switch itself; its register name is fixed by the gateware.
#[derive(Debug)]
pub struct ClockSwitch {}

impl ClockSwitch {
    /// A handle on the switch.
    pub fn new() -> (r: ClockSwitch) {
        ClockSwitch {  }
    }

    /// Selects the clock source by writing its word.
    pub fn set_source<T: Transport>(&self, t: &mut T, source: Source) -> (r: Result<(), Error>)
        ensures
            final(t).mem().dom() == old(t).mem().dom(),
            r matches Ok(()) ==> {
                &&& old(t).mem().dom().contains(clock_switch_name())
                &&& final(t).mem() == old(t).mem().insert(
                    clock_switch_name(),
                    crate::transport::splice(
                        old(t).mem()[clock_switch_name()],
                        0,
                        crate::encoding::be32_bytes(source_word(source)),
                    ),
                )
                &&& final(t).writes() == old(t).writes().push(
                    crate::transport::WriteEvent {
                        device: clock_switch_name(),
                        offset: 0,
                        data: crate::encoding::be32_bytes(source_word(source)),
                    },
                )
            },
    {
        let name = clock_switch_name_bytes();
        let word: u32 = match source {
            Source::Internal => 1,
            Source::External => 0,
        };
        write_value(t, &name, 0, &word)
    }

    /// Reads the selected clock source. A word that names no source — which
    /// a working switch never holds — is a packing fault, not a panic.
    pub fn get_source<T: Transport>(&self, t: &mut T) -> (r: Result<Source, Error>)
        ensures
            final(t).mem() == old(t).mem(),
            final(t).writes() == old(t).writes(),
            r matches Ok(s) ==> {
                &&& old(t).mem().dom().contains(clock_switch_name())
                &&& old(t).mem()[clock_switch_name()].len() >= 4
                &&& source_of_word(
                    crate::encoding::be32_val(
                        old(t).mem()[clock_switch_name()][0],
                        old(t).mem()[clock_switch_name()][1],
                        old(t).mem()[clock_switch_name()][2],
                        old(t).mem()[clock_switch_name()][3],
                    ),
                ) == Some(s)
            },
    {
        let name = clock_switch_name_bytes();
        let raw: u32 = match read_value(t, &name, 0) {
            Ok(v) => v,
            Err(e) => {
                return Err(e);
            },
        };
        proof {
            let w = old(t).mem()[clock_switch_name()];
            assert(w.subrange(0, 4)[0] == w[0] && w.subrange(0, 4)[1] == w[1] && w.subrange(
                0,
                4,
            )[2] == w[2] && w.subrange(0, 4)[3] == w[3]);
        }
        if raw == 1 {
            Ok(Source::Internal)
        } else if raw == 0 {
            Ok(Source::External)
        } else {
            Err(Error::Packing)
        }
    }
}

} // verus!
