//! The ADC bank of the SNAP board: three HMCAD1511 chips behind one
//! controller, a clock switch, and the on-board synthesizer.

use vstd::prelude::*;

verus! {

/// The channel mode every chip runs in.
#[derive(Debug, Copy, Clone, PartialEq, Eq, Structural)]
pub enum AdcMode {
    /// One channel per chip, up to 1000 Msps.
    Single,
    /// Two channels per chip, up to 500 Msps.
    Dual,
    /// Four channels per chip, up to 250 Msps.
    Quad,
}

/// The three chips of the bank.
#[derive(Debug, Copy, Clone, PartialEq, Eq, Structural)]
pub enum SnapAdcChip {
    A,
    B,
    C,
}

/// The on-board LMX2581 synthesizer. Its register program is governed by
/// its own datasheet and is not modelled here; the handle only names it.
#[derive(Debug)]
pub struct LmxSynth {}

impl LmxSynth {
    /// A handle on the synthesizer.
    pub fn new() -> (r: LmxSynth) {
        LmxSynth {  }
    }
}

/// A bare handle on the controller block, for callers that only need to
/// name it.
#[derive(Debug)]
pub struct SnapAdcController {}

impl SnapAdcController {
    /// A handle on the controller.
    pub fn new() -> (r: SnapAdcController) {
        SnapAdcController {  }
    }
}

/// The synthesizer handle under its short name.
#[derive(Debug)]
pub struct Synth {}

impl Synth {
    /// A handle on the synthesizer.
    pub fn new() -> (r: Synth) {
        Synth {  }
    }
}


/// Errors of the ADC-bank operations.
#[derive(Debug)]
pub enum Error {
    /// The transport failed.
    Transport(crate::transport::Error),
    /// The controller failed.
    Controller(crate::adc16::Error),
    /// The clock switch failed.
    Clockswitch(crate::transport::Error),
    /// The input-count text in the design's metadata names no mode.
    BadSnapInputs,
    /// Only the 8-bit HMCAD1511 is supported.
    BadAdcResolution,
    /// The sample-rate text in the design's metadata is not a number.
    BadSampleRate,
}

/// The text `12` of the quad input count.
pub open spec fn inputs12_text() -> Seq<u8> {
    seq![0x31u8, 0x32]
}

/// The text `6` of the dual input count.
pub open spec fn inputs6_text() -> Seq<u8> {
    seq![0x36u8]
}

/// The text `3` of the single input count.
pub open spec fn inputs3_text() -> Seq<u8> {
    seq![0x33u8]
}

/// The text `8` of the supported resolution.
pub open spec fn resolution8_text() -> Seq<u8> {
    seq![0x38u8]
}

/// The text `sys_clk` naming the internal clock source.
pub open spec fn sys_clk_text() -> Seq<u8> {
    seq![0x73u8, 0x79, 0x73, 0x5F, 0x63, 0x6C, 0x6B]
}

/// Whether an input-count text names a channel mode.
pub open spec fn snap_inputs_text_valid(s: Seq<u8>) -> bool {
    s == inputs12_text() || s == inputs6_text() || s == inputs3_text()
}

/// Whether a sample-rate text spells a decimal rate.
pub open spec fn sample_rate_text_valid(s: Seq<u8>) -> bool {
    &&& s.len() > 0
    &&& forall|i: int| 0 <= i < s.len() ==> crate::encoding::is_dec_digit(#[trigger] s[i])
    &&& crate::encoding::dec_seq_val(s) <= u64::MAX
}

/// The name of the capture memory of one chip.
pub open spec fn ram_name(chip: SnapAdcChip) -> Seq<u8> {
    seq![0x61u8, 0x64, 0x63, 0x31, 0x36, 0x5F, 0x77, 0x62, 0x5F, 0x72, 0x61, 0x6D] + seq![
        match chip {
            SnapAdcChip::A => 0x30u8,
            SnapAdcChip::B => 0x31u8,
            SnapAdcChip::C => 0x32u8,
        },
    ]
}

fn ram_name_bytes(chip: SnapAdcChip) -> (r: Vec<u8>)
    ensures
        r@ == ram_name(chip),
{
    let digit: u8 = match chip {
        SnapAdcChip::A => 0x30,
        SnapAdcChip::B => 0x31,
        SnapAdcChip::C => 0x32,
    };
    let v = vec![0x61u8, 0x64, 0x63, 0x31, 0x36, 0x5F, 0x77, 0x62, 0x5F, 0x72, 0x61, 0x6D, digit];
    assert(v@ =~= ram_name(chip));
    v
}

/// The fabric demultiplexer setting a bank mode asks for.
pub open spec fn mode_demux(mode: AdcMode) -> crate::adc16::DemuxMode {
    match mode {
        AdcMode::Single => crate::adc16::DemuxMode::SingleChannel,
        AdcMode::Dual => crate::adc16::DemuxMode::DualChannel,
        AdcMode::Quad => crate::adc16::DemuxMode::QuadChannel,
    }
}

/// The whole write program a successful bank initialization runs: the
/// reset to the previously selected chips, the clock-switch word, the chip
/// start-up to every chip, the re-termination and drive strength of the
/// two chips that do not source the clock, and the demultiplexer sequence
/// (probe, clear, then the mode over the cleared control word).
pub open spec fn initialize_events(
    cs0_mask: u8,
    mode: AdcMode,
    freq_mhz: int,
    source: crate::clockswitch::Source,
) -> Seq<crate::transport::WriteEvent> {
    crate::adc16::three_wire_events(
        cs0_mask,
        0x00,
        (crate::hmcad1511::Reset { reset: true }).spec_word(),
    ) + seq![
        crate::transport::WriteEvent {
            device: crate::clockswitch::clock_switch_name(),
            offset: 0,
            data: crate::encoding::be32_bytes(crate::clockswitch::source_word(source)),
        },
    ] + crate::adc16::init_events(0xFF, mode, freq_mhz) + crate::adc16::three_wire_events(
        0x06,
        0x11,
        (crate::hmcad1511::LvdsTerminations {
            en_lvds_term: true,
            term_lclk: crate::hmcad1511::LvdsTermination::Term94,
            term_frame: crate::hmcad1511::LvdsTermination::Term94,
            term_dat: crate::hmcad1511::LvdsTermination::Disabled,
        }).spec_word(),
    ) + crate::adc16::three_wire_events(
        0x06,
        0x12,
        (crate::hmcad1511::LvdsDrives {
            ilvds_lclk: crate::hmcad1511::LvdsDriveStrength::Drive0p5,
            ilvds_frame: crate::hmcad1511::LvdsDriveStrength::Drive0p5,
            ilvds_dat: crate::hmcad1511::LvdsDriveStrength::Drive3p5,
        }).spec_word(),
    ) + seq![
        crate::adc16::ctrl_event(0x400_0000),
        crate::adc16::ctrl_event(0),
        crate::adc16::ctrl_event(
            (crate::adc16::AdcControl {
                demux_write_enable: false,
                demux_mode: mode_demux(mode),
                reset: false,
                snap_request: false,
                bitslip: 0,
                delay_taps: 0,
            }).spec_word(),
        ),
    ]
}

/// The ADC bank: the sample rate in megahertz, the channel mode, the clock
/// source, and handles on the switch, synthesizer and controller.
#[derive(Debug)]
pub struct SnapAdc {
    /// Sample rate in MHz.
    pub sample_rate: u64,
    /// Channel mode for each chip.
    pub mode: AdcMode,
    /// Where the sampling clock comes from.
    pub source: crate::clockswitch::Source,
    /// The clock switch.
    pub clksw: crate::clockswitch::ClockSwitch,
    /// The on-board synthesizer.
    pub synth: LmxSynth,
    /// The chip controller.
    pub controller: crate::adc16::Adc16,
    /// The name of the bank's device.
    pub name: Vec<u8>,
}

impl SnapAdc {
    /// Builds the bank from the design's metadata texts: the mode from the
    /// input count, the rate from the sample-rate text; only 8-bit chips
    /// are supported; the clock is internal exactly under `sys_clk`.
    pub fn from_fpg(
        name: Vec<u8>,
        adc_resolution: &Vec<u8>,
        sample_rate: &Vec<u8>,
        snap_inputs: &Vec<u8>,
        clock_src: &Vec<u8>,
    ) -> (r: Result<SnapAdc, Error>)
        ensures
            r is Ok <==> (snap_inputs_text_valid(snap_inputs@) && adc_resolution@
                == resolution8_text() && sample_rate_text_valid(sample_rate@)),
            r matches Ok(s) ==> {
                &&& s.name@ == name@
                &&& (snap_inputs@ == inputs12_text() ==> s.mode == AdcMode::Quad)
                &&& (snap_inputs@ == inputs6_text() ==> s.mode == AdcMode::Dual)
                &&& (snap_inputs@ == inputs3_text() ==> s.mode == AdcMode::Single)
                &&& adc_resolution@ == resolution8_text()
                &&& s.sample_rate == crate::encoding::dec_seq_val(sample_rate@)
                &&& (s.source == crate::clockswitch::Source::Internal <==> clock_src@
                    == sys_clk_text())
            },
            r matches Err(e) ==> ((e is BadSnapInputs) <==> !snap_inputs_text_valid(snap_inputs@)),
            r matches Err(e) ==> ((e is BadAdcResolution) <==> (snap_inputs_text_valid(
                snap_inputs@,
            ) && adc_resolution@ != resolution8_text())),
            r matches Err(e) ==> ((e is BadSampleRate) <==> (snap_inputs_text_valid(snap_inputs@)
                && adc_resolution@ == resolution8_text() && !sample_rate_text_valid(
                sample_rate@,
            ))),
    {
        let t12 = vec![0x31u8, 0x32];
        assert(t12@ =~= inputs12_text());
        let t6 = vec![0x36u8];
        assert(t6@ =~= inputs6_text());
        let t3 = vec![0x33u8];
        assert(t3@ =~= inputs3_text());
        let mode = if crate::encoding::bytes_eq(snap_inputs, &t12) {
            AdcMode::Quad
        } else if crate::encoding::bytes_eq(snap_inputs, &t6) {
            AdcMode::Dual
        } else if crate::encoding::bytes_eq(snap_inputs, &t3) {
            AdcMode::Single
        } else {
            return Err(Error::BadSnapInputs);
        };
        let t8 = vec![0x38u8];
        assert(t8@ =~= resolution8_text());
        if !crate::encoding::bytes_eq(adc_resolution, &t8) {
            return Err(Error::BadAdcResolution);
        }
        let rate = match crate::encoding::parse_decimal(sample_rate) {
            Some(v) => v,
            None => {
                return Err(Error::BadSampleRate);
            },
        };
        let sc = vec![0x73u8, 0x79, 0x73, 0x5F, 0x63, 0x6C, 0x6B];
        assert(sc@ =~= sys_clk_text());
        let source = if crate::encoding::bytes_eq(clock_src, &sc) {
            crate::clockswitch::Source::Internal
        } else {
            crate::clockswitch::Source::External
        };
        Ok(
            SnapAdc {
                sample_rate: rate,
                mode,
                source,
                clksw: crate::clockswitch::ClockSwitch::new(),
                synth: LmxSynth::new(),
                controller: crate::adc16::Adc16::new(),
                name,
            },
        )
    }

    /// Captures one chip's samples: requests a snapshot through the
    /// controller, then reads 1024 bytes from that chip's capture memory.
    pub fn snapshot<T: crate::transport::Transport>(&self, t: &mut T, chip: SnapAdcChip) -> (r:
        Result<Vec<u8>, Error>)
        ensures
            final(t).mem().dom() == old(t).mem().dom(),
            r matches Ok(v) ==> {
                &&& final(t).mem().dom().contains(ram_name(chip))
                &&& v@.len() == 1024
                &&& v@ == final(t).mem()[ram_name(chip)].subrange(0, 1024)
            },
    {
        match self.controller.snap_req(t) {
            Ok(()) => {},
            Err(e) => {
                return Err(Error::Controller(e));
            },
        }
        let ram = ram_name_bytes(chip);
        match t.read_n_bytes(&ram, 0, 1024) {
            Ok(v) => Ok(v),
            Err(e) => Err(Error::Transport(e)),
        }
    }

    /// Brings the bank up: resets the controller, selects every chip, sets
    /// the clock switch to the bank's source, initializes the chips in the
    /// bank's mode and rate, re-terminates the two chips that do not source
    /// the clock (94 ohms on clock and frame, 0.5 mA drive), selects every
    /// chip again, and sets the fabric demultiplexer to match the mode.
    ///
    /// With the internal source the on-board synthesizer must also be
    /// programmed; its register program is governed by its own datasheet
    /// and is out of scope here, so the handle only names it.
    pub fn initialize<T: crate::transport::Transport>(&mut self, t: &mut T) -> (r: Result<
        (),
        Error,
    >)
        ensures
            final(t).mem().dom() == old(t).mem().dom(),
            final(self).sample_rate == old(self).sample_rate,
            final(self).mode == old(self).mode,
            final(self).source == old(self).source,
            r matches Ok(()) ==> final(self).controller.cs.spec_mask() == 0xFF,
            r matches Ok(()) ==> final(t).writes() == old(t).writes() + initialize_events(
                old(self).controller.cs.spec_mask(),
                old(self).mode,
                old(self).sample_rate as int,
                old(self).source,
            ),
    {
        let ghost cs0 = self.controller.cs.spec_mask();
        match self.controller.reset(t) {
            Ok(()) => {},
            Err(e) => {
                return Err(Error::Controller(e));
            },
        }
        let all = crate::adc16::ChipSelect::select_all();
        self.controller.chip_select(&all);
        match self.clksw.set_source(t, self.source) {
            Ok(()) => {},
            Err(e) => {
                return Err(Error::Clockswitch(e));
            },
        }
        match self.controller.init(t, self.mode, self.sample_rate) {
            Ok(()) => {},
            Err(e) => {
                return Err(Error::Controller(e));
            },
        }
        let mut bc = crate::adc16::ChipSelect::none();
        bc.b = true;
        bc.c = true;
        self.controller.chip_select(&bc);
        match self.controller.set_terminations(
            t,
            crate::hmcad1511::LvdsTermination::Term94,
            crate::hmcad1511::LvdsTermination::Term94,
            crate::hmcad1511::LvdsTermination::Disabled,
        ) {
            Ok(()) => {},
            Err(e) => {
                return Err(Error::Controller(e));
            },
        }
        match self.controller.set_drive_strength(
            t,
            crate::hmcad1511::LvdsDriveStrength::Drive0p5,
            crate::hmcad1511::LvdsDriveStrength::Drive0p5,
            crate::hmcad1511::LvdsDriveStrength::Drive3p5,
        ) {
            Ok(()) => {},
            Err(e) => {
                return Err(Error::Controller(e));
            },
        }
        let all2 = crate::adc16::ChipSelect::select_all();
        self.controller.chip_select(&all2);
        let demux = match self.mode {
            AdcMode::Single => crate::adc16::DemuxMode::SingleChannel,
            AdcMode::Dual => crate::adc16::DemuxMode::DualChannel,
            AdcMode::Quad => crate::adc16::DemuxMode::QuadChannel,
        };
        let ghost w5 = t.writes();
        let ghost m5 = t.mem();
        let r = match self.controller.set_demux(t, demux) {
            Ok(()) => Ok(()),
            Err(e) => Err(Error::Controller(e)),
        };
        proof {
            if r is Ok {
                let ctrl = crate::adc16::controller_name();
                crate::transport::lemma_splice(
                    crate::transport::splice(m5[ctrl], 4, crate::encoding::be32_bytes(0x400_0000)),
                    4,
                    crate::encoding::be32_bytes(0),
                );
                crate::transport::lemma_splice(
                    m5[ctrl],
                    4,
                    crate::encoding::be32_bytes(0x400_0000),
                );
                assert(crate::adc16::cleared_ctrl_word(m5) == 0) by {
                    let pm = crate::adc16::probe_cleared_mem(m5)[ctrl];
                    assert(pm[4] == crate::encoding::be32_bytes(0u32)[0]);
                    assert(pm[5] == crate::encoding::be32_bytes(0u32)[1]);
                    assert(pm[6] == crate::encoding::be32_bytes(0u32)[2]);
                    assert(pm[7] == crate::encoding::be32_bytes(0u32)[3]);
                };
                assert(crate::adc16::AdcControl::of_word(0) == Some(
                    crate::adc16::AdcControl {
                        demux_write_enable: false,
                        demux_mode: crate::adc16::DemuxMode::SingleChannel,
                        reset: false,
                        snap_request: false,
                        bitslip: 0,
                        delay_taps: 0,
                    },
                ));
                assert(t.writes() =~= old(t).writes() + initialize_events(
                    cs0,
                    old(self).mode,
                    old(self).sample_rate as int,
                    old(self).source,
                ));
            }
        }
        r
    }

    /// Whether a crossbar choice has the shape the bank's mode asks for.
    pub open spec fn inputs_match_mode(self, inputs: crate::adc16::ChannelInput) -> bool {
        match self.mode {
            AdcMode::Single => inputs is Single,
            AdcMode::Dual => inputs is Dual,
            AdcMode::Quad => inputs is Quad,
        }
    }

    /// Sets the crossbars; the choice must have the shape of the bank's
    /// mode, as mixed shapes would misread the sampled data.
    pub fn select_inputs<T: crate::transport::Transport>(
        &self,
        t: &mut T,
        inputs: crate::adc16::ChannelInput,
    ) -> (r: Result<(), Error>)
        requires
            self.inputs_match_mode(inputs),
        ensures
            final(t).mem().dom() == old(t).mem().dom(),
            r matches Ok(()) ==> final(t).writes() == old(t).writes()
                + crate::adc16::three_wire_events(
                self.controller.cs.spec_mask(),
                0x3A,
                (crate::hmcad1511::InputSelect12 {
                    inp_sel_adc1: crate::adc16::crossbar(inputs).0,
                    inp_sel_adc2: crate::adc16::crossbar(inputs).1,
                }).spec_word(),
            ) + crate::adc16::three_wire_events(
                self.controller.cs.spec_mask(),
                0x3B,
                (crate::hmcad1511::InputSelect34 {
                    inp_sel_adc3: crate::adc16::crossbar(inputs).2,
                    inp_sel_adc4: crate::adc16::crossbar(inputs).3,
                }).spec_word(),
            ),
    {
        match self.controller.input_select(t, inputs) {
            Ok(()) => Ok(()),
            Err(e) => Err(Error::Controller(e)),
        }
    }
}

} // verus!
