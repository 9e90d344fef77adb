//! The register map of the HMCAD1511 analog-to-digital converter — the
//! registers the controller programs over the three-wire interface. Each
//! register is a 16-bit word; bit positions count from the least
//! significant bit.

use vstd::prelude::*;

verus! {

/// One for a set flag, zero otherwise, as a 16-bit word.
pub open spec fn bit16(b: bool) -> u16 {
    if b {
        1u16
    } else {
        0u16
    }
}

/// The software reset register at chip address 0x00: one self-clearing
/// flag at bit 0.
#[derive(Debug, Copy, Clone, PartialEq, Eq, Structural)]
pub struct Reset {
    pub reset: bool,
}

impl Reset {
    /// The chip address this register lives at.
    pub open spec fn spec_addr() -> u8 {
        0x00
    }

    /// The packed register word.
    pub open spec fn spec_word(self) -> u16 {
        bit16(self.reset)
    }

    /// The flag a register word carries.
    pub open spec fn of_word(w: u16) -> Reset {
        Reset { reset: w % 2 == 1 }
    }

    /// Unpacking a packed reset word yields the flag packed into it.
    pub proof fn lemma_round_trip(s: Reset)
        ensures
            Reset::of_word(s.spec_word()) == s,
    {
    }

    /// Packs the flag into the register word.
    pub fn pack(&self) -> (r: u16)
        ensures
            r == self.spec_word(),
    {
        if self.reset {
            1
        } else {
            0
        }
    }
}

/// What the power-down pin does when asserted.
#[derive(Debug, Copy, Clone, PartialEq, Eq, Structural)]
pub enum PdPinCfg {
    /// Sleep the selected channels (code 1).
    SleepChannel,
    /// Deep sleep (code 2).
    DeepSleep,
    /// Full power down (code 0).
    PowerDown,
}

/// The code a pin-configuration field carries.
pub open spec fn pd_pin_code(c: PdPinCfg) -> u16 {
    match c {
        PdPinCfg::SleepChannel => 1u16,
        PdPinCfg::DeepSleep => 2u16,
        PdPinCfg::PowerDown => 0u16,
    }
}

/// The pin configuration a code names, if it names one.
pub open spec fn pd_pin_of(c: u16) -> Option<PdPinCfg> {
    if c == 1 {
        Some(PdPinCfg::SleepChannel)
    } else if c == 2 {
        Some(PdPinCfg::DeepSleep)
    } else if c == 0 {
        Some(PdPinCfg::PowerDown)
    } else {
        None
    }
}

/// The sleep and power-down register at chip address 0x0F: per-quad sleep
/// mask in bits 0 to 3, per-pair mask in bits 4 and 5, whole-chip sleep
/// flag at bit 6, sleep at bit 8, power-down at bit 9, and the pin
/// configuration in bits 10 and 11.
#[derive(Debug, Copy, Clone, PartialEq, Eq, Structural)]
pub struct SleepPd {
    /// Sleep mask over the four-channel branches (four bits).
    pub sleep4: u8,
    /// Sleep mask over the two-channel branches (two bits).
    pub sleep2: u8,
    /// Sleep of the single-channel branch.
    pub sleep1: bool,
    /// Whole-chip sleep.
    pub sleep: bool,
    /// Whole-chip power down.
    pub pd: bool,
    /// What the power-down pin does.
    pub pd_pin_cfg: PdPinCfg,
}

impl SleepPd {
    /// The chip address this register lives at.
    pub open spec fn spec_addr() -> u8 {
        0x0F
    }

    /// The masks fit their fields.
    pub open spec fn wf(self) -> bool {
        self.sleep4 < 16 && self.sleep2 < 4
    }

    /// The packed register word.
    pub open spec fn spec_word(self) -> u16 {
        (self.sleep4 % 16 + 16 * (self.sleep2 % 4) + 64 * bit16(self.sleep1) + 256 * bit16(
            self.sleep,
        ) + 512 * bit16(self.pd) + 1024 * pd_pin_code(self.pd_pin_cfg)) as u16
    }

    /// The fields a register word carries, when the pin code is known.
    pub open spec fn of_word(w: u16) -> Option<SleepPd> {
        match pd_pin_of((w / 1024) % 4) {
            None => None,
            Some(pd_pin_cfg) => Some(
                SleepPd {
                    sleep4: (w % 16) as u8,
                    sleep2: ((w / 16) % 4) as u8,
                    sleep1: (w / 64) % 2 == 1,
                    sleep: (w / 256) % 2 == 1,
                    pd: (w / 512) % 2 == 1,
                    pd_pin_cfg,
                },
            ),
        }
    }

    /// Unpacking a packed sleep word yields the fields packed into it, for
    /// masks that fit their fields.
    pub proof fn lemma_round_trip(s: SleepPd)
        requires
            s.wf(),
        ensures
            SleepPd::of_word(s.spec_word()) == Some(s),
    {
    }

    /// Packs the fields into the register word.
    pub fn pack(&self) -> (r: u16)
        requires
            self.wf(),
        ensures
            r == self.spec_word(),
    {
        let mut w: u16 = self.sleep4 as u16 + 16 * (self.sleep2 as u16);
        if self.sleep1 {
            w = w + 64;
        }
        if self.sleep {
            w = w + 256;
        }
        if self.pd {
            w = w + 512;
        }
        let code: u16 = match self.pd_pin_cfg {
            PdPinCfg::SleepChannel => 1,
            PdPinCfg::DeepSleep => 2,
            PdPinCfg::PowerDown => 0,
        };
        w + 1024 * code
    }

    /// Everything off: no sleeps, powered up, the pin powering down.
    pub fn awake() -> (r: SleepPd)
        ensures
            r == (SleepPd {
                sleep4: 0,
                sleep2: 0,
                sleep1: false,
                sleep: false,
                pd: false,
                pd_pin_cfg: PdPinCfg::PowerDown,
            }),
            r.wf(),
    {
        SleepPd {
            sleep4: 0,
            sleep2: 0,
            sleep1: false,
            sleep: false,
            pd: false,
            pd_pin_cfg: PdPinCfg::PowerDown,
        }
    }
}

/// LVDS current drive strength, in milliamperes.
#[derive(Debug, Copy, Clone, PartialEq, Eq, Structural)]
pub enum LvdsDriveStrength {
    /// 3.5 mA (code 0, the chip's default).
    Drive3p5,
    /// 2.5 mA (code 1).
    Drive2p5,
    /// 1.5 mA (code 2).
    Drive1p5,
    /// 0.5 mA (code 3).
    Drive0p5,
    /// 7.5 mA (code 4).
    Drive7p5,
    /// 6.5 mA (code 5).
    Drive6p5,
    /// 5.5 mA (code 6).
    Drive5p5,
    /// 4.5 mA (code 7).
    Drive4p5,
}

/// The code a drive-strength field carries.
pub open spec fn drive_code(c: LvdsDriveStrength) -> u16 {
    match c {
        LvdsDriveStrength::Drive3p5 => 0u16,
        LvdsDriveStrength::Drive2p5 => 1u16,
        LvdsDriveStrength::Drive1p5 => 2u16,
        LvdsDriveStrength::Drive0p5 => 3u16,
        LvdsDriveStrength::Drive7p5 => 4u16,
        LvdsDriveStrength::Drive6p5 => 5u16,
        LvdsDriveStrength::Drive5p5 => 6u16,
        LvdsDriveStrength::Drive4p5 => 7u16,
    }
}

/// Packs a drive strength into its code.
pub fn drive_code_exec(c: LvdsDriveStrength) -> (r: u16)
    ensures
        r == drive_code(c),
{
    match c {
        LvdsDriveStrength::Drive3p5 => 0,
        LvdsDriveStrength::Drive2p5 => 1,
        LvdsDriveStrength::Drive1p5 => 2,
        LvdsDriveStrength::Drive0p5 => 3,
        LvdsDriveStrength::Drive7p5 => 4,
        LvdsDriveStrength::Drive6p5 => 5,
        LvdsDriveStrength::Drive5p5 => 6,
        LvdsDriveStrength::Drive4p5 => 7,
    }
}

/// The drive-strength register at chip address 0x12: the clock drive in
/// bits 0 to 2, the frame drive in bits 4 to 6, the data drive in bits 8
/// to 10.
#[derive(Debug, Copy, Clone, PartialEq, Eq, Structural)]
pub struct LvdsDrives {
    pub ilvds_lclk: LvdsDriveStrength,
    pub ilvds_frame: LvdsDriveStrength,
    pub ilvds_dat: LvdsDriveStrength,
}

impl LvdsDrives {
    /// The chip address this register lives at.
    pub open spec fn spec_addr() -> u8 {
        0x12
    }

    /// The packed register word.
    pub open spec fn spec_word(self) -> u16 {
        (drive_code(self.ilvds_lclk) + 16 * drive_code(self.ilvds_frame) + 256 * drive_code(
            self.ilvds_dat,
        )) as u16
    }

    /// The fields a register word carries.
    pub open spec fn of_word(w: u16) -> LvdsDrives {
        LvdsDrives {
            ilvds_lclk: drive_of(w % 8),
            ilvds_frame: drive_of((w / 16) % 8),
            ilvds_dat: drive_of((w / 256) % 8),
        }
    }

    /// Unpacking a packed drive word yields the fields packed into it.
    pub proof fn lemma_round_trip(s: LvdsDrives)
        ensures
            LvdsDrives::of_word(s.spec_word()) == s,
    {
    }

    /// Packs the fields into the register word.
    pub fn pack(&self) -> (r: u16)
        ensures
            r == self.spec_word(),
    {
        drive_code_exec(self.ilvds_lclk) + 16 * drive_code_exec(self.ilvds_frame) + 256
            * drive_code_exec(self.ilvds_dat)
    }
}

/// The drive strength every three-bit code names.
pub open spec fn drive_of(c: u16) -> LvdsDriveStrength {
    if c == 0 {
        LvdsDriveStrength::Drive3p5
    } else if c == 1 {
        LvdsDriveStrength::Drive2p5
    } else if c == 2 {
        LvdsDriveStrength::Drive1p5
    } else if c == 3 {
        LvdsDriveStrength::Drive0p5
    } else if c == 4 {
        LvdsDriveStrength::Drive7p5
    } else if c == 5 {
        LvdsDriveStrength::Drive6p5
    } else if c == 6 {
        LvdsDriveStrength::Drive5p5
    } else {
        LvdsDriveStrength::Drive4p5
    }
}

/// LVDS termination, in ohms.
#[derive(Debug, Copy, Clone, PartialEq, Eq, Structural)]
pub enum LvdsTermination {
    /// No internal termination (code 0, the chip's default).
    Disabled,
    /// 260 ohms (code 1).
    Term260,
    /// 150 ohms (code 2).
    Term150,
    /// 94 ohms (code 3).
    Term94,
    /// 125 ohms (code 4).
    Term125,
    /// 80 ohms (code 5).
    Term80,
    /// 66 ohms (code 6).
    Term66,
    /// 55 ohms (code 7).
    Term55,
}

/// The code a termination field carries.
pub open spec fn term_code(c: LvdsTermination) -> u16 {
    match c {
        LvdsTermination::Disabled => 0u16,
        LvdsTermination::Term260 => 1u16,
        LvdsTermination::Term150 => 2u16,
        LvdsTermination::Term94 => 3u16,
        LvdsTermination::Term125 => 4u16,
        LvdsTermination::Term80 => 5u16,
        LvdsTermination::Term66 => 6u16,
        LvdsTermination::Term55 => 7u16,
    }
}

/// Packs a termination into its code.
pub fn term_code_exec(c: LvdsTermination) -> (r: u16)
    ensures
        r == term_code(c),
{
    match c {
        LvdsTermination::Disabled => 0,
        LvdsTermination::Term260 => 1,
        LvdsTermination::Term150 => 2,
        LvdsTermination::Term94 => 3,
        LvdsTermination::Term125 => 4,
        LvdsTermination::Term80 => 5,
        LvdsTermination::Term66 => 6,
        LvdsTermination::Term55 => 7,
    }
}

/// The termination register at chip address 0x11: the enable flag at bit
/// 14, the clock termination in bits 0 to 2, the frame termination in bits
/// 4 to 6, the data termination in bits 8 to 10.
#[derive(Debug, Copy, Clone, PartialEq, Eq, Structural)]
pub struct LvdsTerminations {
    pub en_lvds_term: bool,
    pub term_lclk: LvdsTermination,
    pub term_frame: LvdsTermination,
    pub term_dat: LvdsTermination,
}

impl LvdsTerminations {
    /// The chip address this register lives at.
    pub open spec fn spec_addr() -> u8 {
        0x11
    }

    /// The packed register word.
    pub open spec fn spec_word(self) -> u16 {
        (term_code(self.term_lclk) + 16 * term_code(self.term_frame) + 256 * term_code(
            self.term_dat,
        ) + 16384 * bit16(self.en_lvds_term)) as u16
    }

    /// The fields a register word carries.
    pub open spec fn of_word(w: u16) -> LvdsTerminations {
        LvdsTerminations {
            en_lvds_term: (w / 16384) % 2 == 1,
            term_lclk: term_of(w % 8),
            term_frame: term_of((w / 16) % 8),
            term_dat: term_of((w / 256) % 8),
        }
    }

    /// Unpacking a packed termination word yields the fields packed into
    /// it.
    pub proof fn lemma_round_trip(s: LvdsTerminations)
        ensures
            LvdsTerminations::of_word(s.spec_word()) == s,
    {
    }

    /// Packs the fields into the register word.
    pub fn pack(&self) -> (r: u16)
        ensures
            r == self.spec_word(),
    {
        let base = term_code_exec(self.term_lclk) + 16 * term_code_exec(self.term_frame) + 256
            * term_code_exec(self.term_dat);
        if self.en_lvds_term {
            base + 16384
        } else {
            base
        }
    }
}

/// The termination every three-bit code names.
pub open spec fn term_of(c: u16) -> LvdsTermination {
    if c == 0 {
        LvdsTermination::Disabled
    } else if c == 1 {
        LvdsTermination::Term260
    } else if c == 2 {
        LvdsTermination::Term150
    } else if c == 3 {
        LvdsTermination::Term94
    } else if c == 4 {
        LvdsTermination::Term125
    } else if c == 5 {
        LvdsTermination::Term80
    } else if c == 6 {
        LvdsTermination::Term66
    } else {
        LvdsTermination::Term55
    }
}

/// The test-pattern codes of the pattern register.
#[derive(Debug, Copy, Clone, PartialEq, Eq, Structural)]
pub enum Pattern {
    /// Sampled data (code 0).
    Disabled,
    /// A ramp from 0 to 255 (code 4).
    Ramp,
    /// Both custom words alternating (code 2).
    DualCustom,
    /// One custom word (code 1).
    SingleCustom,
}

/// The code a pattern field carries.
pub open spec fn pattern_code(p: Pattern) -> u16 {
    match p {
        Pattern::Disabled => 0u16,
        Pattern::Ramp => 4u16,
        Pattern::DualCustom => 2u16,
        Pattern::SingleCustom => 1u16,
    }
}

/// The pattern register at chip address 0x25: the code in bits 4 to 6.
#[derive(Debug, Copy, Clone, PartialEq, Eq, Structural)]
pub struct PatternCtl {
    pub pattern: Pattern,
}

impl PatternCtl {
    /// The chip address this register lives at.
    pub open spec fn spec_addr() -> u8 {
        0x25
    }

    /// The packed register word.
    pub open spec fn spec_word(self) -> u16 {
        (16 * pattern_code(self.pattern)) as u16
    }

    /// The field a register word carries, when the code is known.
    pub open spec fn of_word(w: u16) -> Option<PatternCtl> {
        let c = (w / 16) % 8;
        if c == 0 {
            Some(PatternCtl { pattern: Pattern::Disabled })
        } else if c == 4 {
            Some(PatternCtl { pattern: Pattern::Ramp })
        } else if c == 2 {
            Some(PatternCtl { pattern: Pattern::DualCustom })
        } else if c == 1 {
            Some(PatternCtl { pattern: Pattern::SingleCustom })
        } else {
            None
        }
    }

    /// Unpacking a packed pattern word yields the field packed into it.
    pub proof fn lemma_round_trip(s: PatternCtl)
        ensures
            PatternCtl::of_word(s.spec_word()) == Some(s),
    {
    }

    /// Packs the field into the register word.
    pub fn pack(&self) -> (r: u16)
        ensures
            r == self.spec_word(),
    {
        let code: u16 = match self.pattern {
            Pattern::Disabled => 0,
            Pattern::Ramp => 4,
            Pattern::DualCustom => 2,
            Pattern::SingleCustom => 1,
        };
        16 * code
    }
}

/// The first custom test pattern at chip address 0x26: its eight bits in
/// bits 8 to 15.
#[derive(Debug, Copy, Clone, PartialEq, Eq, Structural)]
pub struct CustomPattern1 {
    /// The pattern bits, lowest mask bit at register bit 8.
    pub bits_custom1: u8,
}

impl CustomPattern1 {
    /// The chip address this register lives at.
    pub open spec fn spec_addr() -> u8 {
        0x26
    }

    /// The packed register word.
    pub open spec fn spec_word(self) -> u16 {
        (256 * self.bits_custom1) as u16
    }

    /// The field a register word carries.
    pub open spec fn of_word(w: u16) -> CustomPattern1 {
        CustomPattern1 { bits_custom1: ((w / 256) % 256) as u8 }
    }

    /// Unpacking a packed pattern word yields the bits packed into it.
    pub proof fn lemma_round_trip(s: CustomPattern1)
        ensures
            CustomPattern1::of_word(s.spec_word()) == s,
    {
    }

    /// Packs the field into the register word.
    pub fn pack(&self) -> (r: u16)
        ensures
            r == self.spec_word(),
    {
        256 * (self.bits_custom1 as u16)
    }
}

/// The second custom test pattern at chip address 0x27, shaped like the
/// first.
#[derive(Debug, Copy, Clone, PartialEq, Eq, Structural)]
pub struct CustomPattern2 {
    /// The pattern bits, lowest mask bit at register bit 8.
    pub bits_custom2: u8,
}

impl CustomPattern2 {
    /// The chip address this register lives at.
    pub open spec fn spec_addr() -> u8 {
        0x27
    }

    /// The packed register word.
    pub open spec fn spec_word(self) -> u16 {
        (256 * self.bits_custom2) as u16
    }

    /// The field a register word carries.
    pub open spec fn of_word(w: u16) -> CustomPattern2 {
        CustomPattern2 { bits_custom2: ((w / 256) % 256) as u8 }
    }

    /// Unpacking a packed pattern word yields the bits packed into it.
    pub proof fn lemma_round_trip(s: CustomPattern2)
        ensures
            CustomPattern2::of_word(s.spec_word()) == s,
    {
    }

    /// Packs the field into the register word.
    pub fn pack(&self) -> (r: u16)
        ensures
            r == self.spec_word(),
    {
        256 * (self.bits_custom2 as u16)
    }
}

/// How many channels the chip runs.
#[derive(Debug, Copy, Clone, PartialEq, Eq, Structural)]
pub enum ChannelNum {
    /// One channel interleaving all four converters (code 1).
    Single,
    /// Two channels of two converters each (code 2).
    Dual,
    /// Four independent channels (code 4).
    Quad,
}

/// The code a channel-count field carries.
pub open spec fn channel_num_code(c: ChannelNum) -> u16 {
    match c {
        ChannelNum::Single => 1u16,
        ChannelNum::Dual => 2u16,
        ChannelNum::Quad => 4u16,
    }
}

/// The clock division factor.
#[derive(Debug, Copy, Clone, PartialEq, Eq, Structural)]
pub enum ClockDivide {
    /// Input clock over 1 (code 0).
    Div1,
    /// Input clock over 2 (code 1).
    Div2,
    /// Input clock over 4 (code 2).
    Div4,
    /// Input clock over 8 (code 3).
    Div8,
}

/// The code a clock-divide field carries.
pub open spec fn clock_divide_code(c: ClockDivide) -> u16 {
    match c {
        ClockDivide::Div1 => 0u16,
        ClockDivide::Div2 => 1u16,
        ClockDivide::Div4 => 2u16,
        ClockDivide::Div8 => 3u16,
    }
}

/// The channel-count and clock-divide register at chip address 0x31: the
/// channel code in bits 0 to 2, the divide code in bits 8 and 9.
#[derive(Debug, Copy, Clone, PartialEq, Eq, Structural)]
pub struct ChanNumClkDiv {
    pub channel_num: ChannelNum,
    pub clk_divide: ClockDivide,
}

impl ChanNumClkDiv {
    /// The chip address this register lives at.
    pub open spec fn spec_addr() -> u8 {
        0x31
    }

    /// The packed register word.
    pub open spec fn spec_word(self) -> u16 {
        (channel_num_code(self.channel_num) + 256 * clock_divide_code(self.clk_divide)) as u16
    }

    /// The fields a register word carries, when the codes are known.
    pub open spec fn of_word(w: u16) -> Option<ChanNumClkDiv> {
        let ch = w % 8;
        let dv = (w / 256) % 4;
        let channel_num = if ch == 1 {
            Some(ChannelNum::Single)
        } else if ch == 2 {
            Some(ChannelNum::Dual)
        } else if ch == 4 {
            Some(ChannelNum::Quad)
        } else {
            None
        };
        let clk_divide = if dv == 0 {
            ClockDivide::Div1
        } else if dv == 1 {
            ClockDivide::Div2
        } else if dv == 2 {
            ClockDivide::Div4
        } else {
            ClockDivide::Div8
        };
        match channel_num {
            None => None,
            Some(c) => Some(ChanNumClkDiv { channel_num: c, clk_divide }),
        }
    }

    /// Unpacking a packed channel word yields the fields packed into it.
    pub proof fn lemma_round_trip(s: ChanNumClkDiv)
        ensures
            ChanNumClkDiv::of_word(s.spec_word()) == Some(s),
    {
    }

    /// Packs the fields into the register word.
    pub fn pack(&self) -> (r: u16)
        ensures
            r == self.spec_word(),
    {
        let ch: u16 = match self.channel_num {
            ChannelNum::Single => 1,
            ChannelNum::Dual => 2,
            ChannelNum::Quad => 4,
        };
        let dv: u16 = match self.clk_divide {
            ClockDivide::Div1 => 0,
            ClockDivide::Div2 => 1,
            ClockDivide::Div4 => 2,
            ClockDivide::Div8 => 3,
        };
        ch + 256 * dv
    }
}

/// The deskew and sync pattern modes.
#[derive(Debug, Copy, Clone, PartialEq, Eq, Structural)]
pub enum DeskewSyncMode {
    /// Neither pattern (code 0).
    Disabled,
    /// The deskew pattern, alternating bits (code 1).
    Deskew,
    /// The sync pattern, half-and-half (code 2).
    Sync,
}

/// The code a deskew-sync field carries.
pub open spec fn deskew_sync_code(m: DeskewSyncMode) -> u16 {
    match m {
        DeskewSyncMode::Disabled => 0u16,
        DeskewSyncMode::Deskew => 1u16,
        DeskewSyncMode::Sync => 2u16,
    }
}

/// The deskew and sync pattern register at chip address 0x45: the mode in
/// bits 0 and 1.
#[derive(Debug, Copy, Clone, PartialEq, Eq, Structural)]
pub struct DeskewSyncPattern {
    pub pat_deskew_sync: DeskewSyncMode,
}

impl DeskewSyncPattern {
    /// The chip address this register lives at.
    pub open spec fn spec_addr() -> u8 {
        0x45
    }

    /// The packed register word.
    pub open spec fn spec_word(self) -> u16 {
        deskew_sync_code(self.pat_deskew_sync)
    }

    /// The field a register word carries, when the code is known.
    pub open spec fn of_word(w: u16) -> Option<DeskewSyncPattern> {
        let c = w % 4;
        if c == 0 {
            Some(DeskewSyncPattern { pat_deskew_sync: DeskewSyncMode::Disabled })
        } else if c == 1 {
            Some(DeskewSyncPattern { pat_deskew_sync: DeskewSyncMode::Deskew })
        } else if c == 2 {
            Some(DeskewSyncPattern { pat_deskew_sync: DeskewSyncMode::Sync })
        } else {
            None
        }
    }

    /// Unpacking a packed deskew word yields the field packed into it.
    pub proof fn lemma_round_trip(s: DeskewSyncPattern)
        ensures
            DeskewSyncPattern::of_word(s.spec_word()) == Some(s),
    {
    }

    /// Packs the field into the register word.
    pub fn pack(&self) -> (r: u16)
        ensures
            r == self.spec_word(),
    {
        match self.pat_deskew_sync {
            DeskewSyncMode::Disabled => 0,
            DeskewSyncMode::Deskew => 1,
            DeskewSyncMode::Sync => 2,
        }
    }
}

/// Which analog input a converter samples, through the crossbar.
#[derive(Debug, Copy, Clone, PartialEq, Eq, Structural)]
pub enum InputSelect {
    /// Input 1 (code 2).
    Input1,
    /// Input 2 (code 4).
    Input2,
    /// Input 3 (code 8).
    Input3,
    /// Input 4 (code 16).
    Input4,
}

/// The code an input-select field carries.
pub open spec fn input_select_code(s: InputSelect) -> u16 {
    match s {
        InputSelect::Input1 => 2u16,
        InputSelect::Input2 => 4u16,
        InputSelect::Input3 => 8u16,
        InputSelect::Input4 => 16u16,
    }
}

/// Packs an input selection into its code.
pub fn input_select_code_exec(s: InputSelect) -> (r: u16)
    ensures
        r == input_select_code(s),
{
    match s {
        InputSelect::Input1 => 2,
        InputSelect::Input2 => 4,
        InputSelect::Input3 => 8,
        InputSelect::Input4 => 16,
    }
}

/// The crossbar register for converters 1 and 2 at chip address 0x3A: the
/// first selection in bits 0 to 4, the second in bits 8 to 12.
#[derive(Debug, Copy, Clone, PartialEq, Eq, Structural)]
pub struct InputSelect12 {
    pub inp_sel_adc1: InputSelect,
    pub inp_sel_adc2: InputSelect,
}

impl InputSelect12 {
    /// The chip address this register lives at.
    pub open spec fn spec_addr() -> u8 {
        0x3A
    }

    /// The packed register word.
    pub open spec fn spec_word(self) -> u16 {
        (input_select_code(self.inp_sel_adc1) + 256 * input_select_code(self.inp_sel_adc2)) as u16
    }

    /// The fields a register word carries, when both codes are known.
    pub open spec fn of_word(w: u16) -> Option<InputSelect12> {
        match (input_select_of(w % 32), input_select_of((w / 256) % 32)) {
            (Some(a), Some(b)) => Some(InputSelect12 { inp_sel_adc1: a, inp_sel_adc2: b }),
            _ => None,
        }
    }

    /// Unpacking a packed crossbar word yields the fields packed into it.
    pub proof fn lemma_round_trip(s: InputSelect12)
        ensures
            InputSelect12::of_word(s.spec_word()) == Some(s),
    {
    }

    /// Packs the fields into the register word.
    pub fn pack(&self) -> (r: u16)
        ensures
            r == self.spec_word(),
    {
        input_select_code_exec(self.inp_sel_adc1) + 256 * input_select_code_exec(self.inp_sel_adc2)
    }
}

/// The input selection every five-bit code names, if it names one.
pub open spec fn input_select_of(c: u16) -> Option<InputSelect> {
    if c == 2 {
        Some(InputSelect::Input1)
    } else if c == 4 {
        Some(InputSelect::Input2)
    } else if c == 8 {
        Some(InputSelect::Input3)
    } else if c == 16 {
        Some(InputSelect::Input4)
    } else {
        None
    }
}

/// The crossbar register for converters 3 and 4 at chip address 0x3B,
/// shaped like the first.
#[derive(Debug, Copy, Clone, PartialEq, Eq, Structural)]
pub struct InputSelect34 {
    pub inp_sel_adc3: InputSelect,
    pub inp_sel_adc4: InputSelect,
}

impl InputSelect34 {
    /// The chip address this register lives at.
    pub open spec fn spec_addr() -> u8 {
        0x3B
    }

    /// The packed register word.
    pub open spec fn spec_word(self) -> u16 {
        (input_select_code(self.inp_sel_adc3) + 256 * input_select_code(self.inp_sel_adc4)) as u16
    }

    /// The fields a register word carries, when both codes are known.
    pub open spec fn of_word(w: u16) -> Option<InputSelect34> {
        match (input_select_of(w % 32), input_select_of((w / 256) % 32)) {
            (Some(a), Some(b)) => Some(InputSelect34 { inp_sel_adc3: a, inp_sel_adc4: b }),
            _ => None,
        }
    }

    /// Unpacking a packed crossbar word yields the fields packed into it.
    pub proof fn lemma_round_trip(s: InputSelect34)
        ensures
            InputSelect34::of_word(s.spec_word()) == Some(s),
    {
    }

    /// Packs the fields into the register word.
    pub fn pack(&self) -> (r: u16)
        ensures
            r == self.spec_word(),
    {
        input_select_code_exec(self.inp_sel_adc3) + 256 * input_select_code_exec(self.inp_sel_adc4)
    }
}

/// How the LVDS data's propagation delay is shifted.
#[derive(Debug, Copy, Clone, PartialEq, Eq, Structural)]
pub enum LvdsShift {
    /// No shift (code 0).
    Disabled,
    /// Delayed (code 2).
    Delay,
    /// Advanced (code 1).
    Advance,
}

/// The code an LVDS-shift field carries.
pub open spec fn lvds_shift_code(s: LvdsShift) -> u16 {
    match s {
        LvdsShift::Disabled => 0u16,
        LvdsShift::Delay => 2u16,
        LvdsShift::Advance => 1u16,
    }
}

/// The LVDS output control register at chip address 0x53: the low-clock
/// flag at bit 3, the shift code in bits 4 and 5.
#[derive(Debug, Copy, Clone, PartialEq, Eq, Structural)]
pub struct LvdsOutputControl {
    pub low_clk_freq: bool,
    pub lvds_shift: LvdsShift,
}

impl LvdsOutputControl {
    /// The chip address this register lives at.
    pub open spec fn spec_addr() -> u8 {
        0x53
    }

    /// The packed register word.
    pub open spec fn spec_word(self) -> u16 {
        (8 * bit16(self.low_clk_freq) + 16 * lvds_shift_code(self.lvds_shift)) as u16
    }

    /// The fields a register word carries, when the code is known.
    pub open spec fn of_word(w: u16) -> Option<LvdsOutputControl> {
        let c = (w / 16) % 4;
        let shift = if c == 0 {
            Some(LvdsShift::Disabled)
        } else if c == 2 {
            Some(LvdsShift::Delay)
        } else if c == 1 {
            Some(LvdsShift::Advance)
        } else {
            None
        };
        match shift {
            Some(s) => Some(LvdsOutputControl { low_clk_freq: (w / 8) % 2 == 1, lvds_shift: s }),
            None => None,
        }
    }

    /// Unpacking a packed output-control word yields the fields packed
    /// into it.
    pub proof fn lemma_round_trip(s: LvdsOutputControl)
        ensures
            LvdsOutputControl::of_word(s.spec_word()) == Some(s),
    {
    }

    /// Packs the fields into the register word.
    pub fn pack(&self) -> (r: u16)
        ensures
            r == self.spec_word(),
    {
        let base: u16 = if self.low_clk_freq {
            8
        } else {
            0
        };
        let code: u16 = match self.lvds_shift {
            LvdsShift::Disabled => 0,
            LvdsShift::Delay => 2,
            LvdsShift::Advance => 1,
        };
        base + 16 * code
    }
}


/// The input-inversion register at chip address 0x24: per-quad inversion
/// mask in bits 0 to 3, per-pair mask in bits 4 and 5, the single-channel
/// inversion at bit 6. Defaults to nothing swapped.
#[derive(Debug, Copy, Clone, PartialEq, Eq, Structural)]
pub struct InvertCtl {
    /// Inversion mask over the four-channel branches (four bits).
    pub invert4: u8,
    /// Inversion mask over the two-channel branches (two bits).
    pub invert2: u8,
    /// Inversion of the single-channel branch.
    pub invert1: bool,
}

impl InvertCtl {
    /// The chip address this register lives at.
    pub open spec fn spec_addr() -> u8 {
        0x24
    }

    /// The masks fit their fields.
    pub open spec fn wf(self) -> bool {
        self.invert4 < 16 && self.invert2 < 4
    }

    /// The packed register word.
    pub open spec fn spec_word(self) -> u16 {
        (self.invert4 % 16 + 16 * (self.invert2 % 4) + 64 * bit16(self.invert1)) as u16
    }

    /// The fields a register word carries.
    pub open spec fn of_word(w: u16) -> InvertCtl {
        InvertCtl {
            invert4: (w % 16) as u8,
            invert2: ((w / 16) % 4) as u8,
            invert1: (w / 64) % 2 == 1,
        }
    }

    /// Unpacking a packed inversion word yields the fields packed into it,
    /// for masks that fit their fields.
    pub proof fn lemma_round_trip(s: InvertCtl)
        requires
            s.wf(),
        ensures
            InvertCtl::of_word(s.spec_word()) == s,
    {
    }

    /// Packs the fields into the register word.
    pub fn pack(&self) -> (r: u16)
        requires
            self.wf(),
        ensures
            r == self.spec_word(),
    {
        let mut w: u16 = self.invert4 as u16 + 16 * (self.invert2 as u16);
        if self.invert1 {
            w = w + 64;
        }
        w
    }
}

/// Coarse gain steps, named by their decibel value (code equals the step).
#[derive(Debug, Copy, Clone, PartialEq, Eq, Structural)]
pub enum CoarseGain {
    /// 0 dB, a gain of 1 (code 0, the chip's default).
    Db0,
    /// 1 dB (code 1).
    Db1,
    /// 2 dB (code 2).
    Db2,
    /// 3 dB (code 3).
    Db3,
    /// 4 dB (code 4).
    Db4,
    /// 5 dB (code 5).
    Db5,
    /// 6 dB (code 6).
    Db6,
    /// 7 dB (code 7).
    Db7,
    /// 8 dB (code 8).
    Db8,
    /// 9 dB (code 9).
    Db9,
    /// 10 dB (code 10).
    Db10,
    /// 11 dB (code 11).
    Db11,
    /// 12 dB (code 12).
    Db12,
    /// A gain of 50 (code 13).
    X50,
}

/// The code a coarse-gain field carries.
pub open spec fn coarse_gain_code(g: CoarseGain) -> u16 {
    match g {
        CoarseGain::Db0 => 0u16,
        CoarseGain::Db1 => 1u16,
        CoarseGain::Db2 => 2u16,
        CoarseGain::Db3 => 3u16,
        CoarseGain::Db4 => 4u16,
        CoarseGain::Db5 => 5u16,
        CoarseGain::Db6 => 6u16,
        CoarseGain::Db7 => 7u16,
        CoarseGain::Db8 => 8u16,
        CoarseGain::Db9 => 9u16,
        CoarseGain::Db10 => 10u16,
        CoarseGain::Db11 => 11u16,
        CoarseGain::Db12 => 12u16,
        CoarseGain::X50 => 13u16,
    }
}

/// The coarse gain a four-bit code names, if it names one.
pub open spec fn coarse_gain_of(c: u16) -> Option<CoarseGain> {
    if c == 0 {
        Some(CoarseGain::Db0)
    } else if c == 1 {
        Some(CoarseGain::Db1)
    } else if c == 2 {
        Some(CoarseGain::Db2)
    } else if c == 3 {
        Some(CoarseGain::Db3)
    } else if c == 4 {
        Some(CoarseGain::Db4)
    } else if c == 5 {
        Some(CoarseGain::Db5)
    } else if c == 6 {
        Some(CoarseGain::Db6)
    } else if c == 7 {
        Some(CoarseGain::Db7)
    } else if c == 8 {
        Some(CoarseGain::Db8)
    } else if c == 9 {
        Some(CoarseGain::Db9)
    } else if c == 10 {
        Some(CoarseGain::Db10)
    } else if c == 11 {
        Some(CoarseGain::Db11)
    } else if c == 12 {
        Some(CoarseGain::Db12)
    } else if c == 13 {
        Some(CoarseGain::X50)
    } else {
        None
    }
}

/// A coarse gain's code names that gain back.
pub proof fn lemma_coarse_gain_code(g: CoarseGain)
    ensures
        coarse_gain_of(coarse_gain_code(g)) == Some(g),
        coarse_gain_code(g) < 16,
{
}

/// Packs a coarse gain into its code.
pub fn coarse_gain_code_exec(g: CoarseGain) -> (r: u16)
    ensures
        r == coarse_gain_code(g),
{
    match g {
        CoarseGain::Db0 => 0,
        CoarseGain::Db1 => 1,
        CoarseGain::Db2 => 2,
        CoarseGain::Db3 => 3,
        CoarseGain::Db4 => 4,
        CoarseGain::Db5 => 5,
        CoarseGain::Db6 => 6,
        CoarseGain::Db7 => 7,
        CoarseGain::Db8 => 8,
        CoarseGain::Db9 => 9,
        CoarseGain::Db10 => 10,
        CoarseGain::Db11 => 11,
        CoarseGain::Db12 => 12,
        CoarseGain::X50 => 13,
    }
}

/// The coarse-gain register for the quad-channel setup at chip address
/// 0x2A: one four-bit gain per channel.
#[derive(Debug, Copy, Clone, PartialEq, Eq, Structural)]
pub struct QuadCoarseGains {
    pub cgain4_ch1: CoarseGain,
    pub cgain4_ch2: CoarseGain,
    pub cgain4_ch3: CoarseGain,
    pub cgain4_ch4: CoarseGain,
}

impl QuadCoarseGains {
    /// The chip address this register lives at.
    pub open spec fn spec_addr() -> u8 {
        0x2A
    }

    /// The packed register word.
    pub open spec fn spec_word(self) -> u16 {
        (coarse_gain_code(self.cgain4_ch1) + 16 * coarse_gain_code(self.cgain4_ch2) + 256
            * coarse_gain_code(self.cgain4_ch3) + 4096 * coarse_gain_code(self.cgain4_ch4)) as u16
    }

    /// The fields a register word carries, when every code is known.
    pub open spec fn of_word(w: u16) -> Option<QuadCoarseGains> {
        match (
            coarse_gain_of(w % 16),
            coarse_gain_of((w / 16) % 16),
            coarse_gain_of((w / 256) % 16),
            coarse_gain_of((w / 4096) % 16),
        ) {
            (Some(c1), Some(c2), Some(c3), Some(c4)) => Some(
                QuadCoarseGains {
                    cgain4_ch1: c1,
                    cgain4_ch2: c2,
                    cgain4_ch3: c3,
                    cgain4_ch4: c4,
                },
            ),
            _ => None,
        }
    }

    /// Unpacking a packed gain word yields the gains packed into it.
    pub proof fn lemma_round_trip(s: QuadCoarseGains)
        ensures
            QuadCoarseGains::of_word(s.spec_word()) == Some(s),
    {
        lemma_coarse_gain_code(s.cgain4_ch1);
        lemma_coarse_gain_code(s.cgain4_ch2);
        lemma_coarse_gain_code(s.cgain4_ch3);
        lemma_coarse_gain_code(s.cgain4_ch4);
        let c1 = coarse_gain_code(s.cgain4_ch1) as int;
        let c2 = coarse_gain_code(s.cgain4_ch2) as int;
        let c3 = coarse_gain_code(s.cgain4_ch3) as int;
        let c4 = coarse_gain_code(s.cgain4_ch4) as int;
        let w = s.spec_word() as int;
        assert(w == c1 + 16 * c2 + 256 * c3 + 4096 * c4);
        assert(w % 16 == c1 && (w / 16) % 16 == c2 && (w / 256) % 16 == c3 && (w / 4096) % 16
            == c4) by (nonlinear_arith)
            requires
                0 <= c1 < 16,
                0 <= c2 < 16,
                0 <= c3 < 16,
                0 <= c4 < 16,
                w == c1 + 16 * c2 + 256 * c3 + 4096 * c4,
        ;
    }

    /// Packs the fields into the register word.
    pub fn pack(&self) -> (r: u16)
        ensures
            r == self.spec_word(),
    {
        coarse_gain_code_exec(self.cgain4_ch1) + 16 * coarse_gain_code_exec(self.cgain4_ch2) + 256
            * coarse_gain_code_exec(self.cgain4_ch3) + 4096 * coarse_gain_code_exec(
            self.cgain4_ch4,
        )
    }
}

/// The coarse-gain register for the dual- and single-channel setups at
/// chip address 0x2B.
#[derive(Debug, Copy, Clone, PartialEq, Eq, Structural)]
pub struct DualCoarseGains {
    pub cgain2_ch1: CoarseGain,
    pub cgain2_ch2: CoarseGain,
    pub cgain1_ch1: CoarseGain,
}

impl DualCoarseGains {
    /// The chip address this register lives at.
    pub open spec fn spec_addr() -> u8 {
        0x2B
    }

    /// The packed register word.
    pub open spec fn spec_word(self) -> u16 {
        (coarse_gain_code(self.cgain2_ch1) + 16 * coarse_gain_code(self.cgain2_ch2) + 256
            * coarse_gain_code(self.cgain1_ch1)) as u16
    }

    /// The fields a register word carries, when every code is known.
    pub open spec fn of_word(w: u16) -> Option<DualCoarseGains> {
        match (
            coarse_gain_of(w % 16),
            coarse_gain_of((w / 16) % 16),
            coarse_gain_of((w / 256) % 16),
        ) {
            (Some(c1), Some(c2), Some(c3)) => Some(
                DualCoarseGains { cgain2_ch1: c1, cgain2_ch2: c2, cgain1_ch1: c3 },
            ),
            _ => None,
        }
    }

    /// Unpacking a packed gain word yields the gains packed into it.
    pub proof fn lemma_round_trip(s: DualCoarseGains)
        ensures
            DualCoarseGains::of_word(s.spec_word()) == Some(s),
    {
        lemma_coarse_gain_code(s.cgain2_ch1);
        lemma_coarse_gain_code(s.cgain2_ch2);
        lemma_coarse_gain_code(s.cgain1_ch1);
        let w = s.spec_word();
        assert(w % 16 == coarse_gain_code(s.cgain2_ch1));
        assert((w / 16) % 16 == coarse_gain_code(s.cgain2_ch2));
        assert((w / 256) % 16 == coarse_gain_code(s.cgain1_ch1));
    }

    /// Packs the fields into the register word.
    pub fn pack(&self) -> (r: u16)
        ensures
            r == self.spec_word(),
    {
        coarse_gain_code_exec(self.cgain2_ch1) + 16 * coarse_gain_code_exec(self.cgain2_ch2) + 256
            * coarse_gain_code_exec(self.cgain1_ch1)
    }
}

/// The jitter-versus-current trade of the clock input: each step adds one
/// milliampere and trims the clock jitter.
#[derive(Debug, Copy, Clone, PartialEq, Eq, Structural)]
pub enum Jitter {
    /// The clock stopped (code 0).
    Stopped,
    /// 160 fs at 1 mA (code 1, the chip's default).
    Ma1,
    /// 150 fs at 2 mA (code 3).
    Ma2,
    /// 136 fs at 3 mA (code 7).
    Ma3,
    /// 130 fs at 4 mA (code 15).
    Ma4,
    /// 126 fs at 5 mA (code 31).
    Ma5,
    /// 124 fs at 6 mA (code 63).
    Ma6,
    /// 122 fs at 7 mA (code 127).
    Ma7,
    /// 120 fs at 8 mA (code 255).
    Ma8,
}

/// The code a jitter field carries: a thermometer code, one bit per
/// milliampere.
pub open spec fn jitter_code(j: Jitter) -> u16 {
    match j {
        Jitter::Stopped => 0u16,
        Jitter::Ma1 => 1u16,
        Jitter::Ma2 => 3u16,
        Jitter::Ma3 => 7u16,
        Jitter::Ma4 => 15u16,
        Jitter::Ma5 => 31u16,
        Jitter::Ma6 => 63u16,
        Jitter::Ma7 => 127u16,
        Jitter::Ma8 => 255u16,
    }
}

/// The jitter setting a code names, if it names one.
pub open spec fn jitter_of(c: u16) -> Option<Jitter> {
    if c == 0 {
        Some(Jitter::Stopped)
    } else if c == 1 {
        Some(Jitter::Ma1)
    } else if c == 3 {
        Some(Jitter::Ma2)
    } else if c == 7 {
        Some(Jitter::Ma3)
    } else if c == 15 {
        Some(Jitter::Ma4)
    } else if c == 31 {
        Some(Jitter::Ma5)
    } else if c == 63 {
        Some(Jitter::Ma6)
    } else if c == 127 {
        Some(Jitter::Ma7)
    } else if c == 255 {
        Some(Jitter::Ma8)
    } else {
        None
    }
}

/// The jitter register at chip address 0x30: the thermometer code in bits
/// 0 to 7.
#[derive(Debug, Copy, Clone, PartialEq, Eq, Structural)]
pub struct JitterCtl {
    pub jitter_ctrl: Jitter,
}

impl JitterCtl {
    /// The chip address this register lives at.
    pub open spec fn spec_addr() -> u8 {
        0x30
    }

    /// The packed register word.
    pub open spec fn spec_word(self) -> u16 {
        jitter_code(self.jitter_ctrl)
    }

    /// The field a register word carries, when the code is known.
    pub open spec fn of_word(w: u16) -> Option<JitterCtl> {
        match jitter_of(w % 256) {
            Some(j) => Some(JitterCtl { jitter_ctrl: j }),
            None => None,
        }
    }

    /// Unpacking a packed jitter word yields the field packed into it.
    pub proof fn lemma_round_trip(s: JitterCtl)
        ensures
            JitterCtl::of_word(s.spec_word()) == Some(s),
    {
    }

    /// Packs the field into the register word.
    pub fn pack(&self) -> (r: u16)
        ensures
            r == self.spec_word(),
    {
        match self.jitter_ctrl {
            Jitter::Stopped => 0,
            Jitter::Ma1 => 1,
            Jitter::Ma2 => 3,
            Jitter::Ma3 => 7,
            Jitter::Ma4 => 15,
            Jitter::Ma5 => 31,
            Jitter::Ma6 => 63,
            Jitter::Ma7 => 127,
            Jitter::Ma8 => 255,
        }
    }
}

/// The gain-configuration register at chip address 0x33: coarse-gain
/// selection at bit 0, fine-gain enable at bit 1.
#[derive(Debug, Copy, Clone, PartialEq, Eq, Structural)]
pub struct GainCtl {
    pub coarse_gain_cfg: bool,
    pub fine_gain_en: bool,
}

impl GainCtl {
    /// The chip address this register lives at.
    pub open spec fn spec_addr() -> u8 {
        0x33
    }

    /// The packed register word.
    pub open spec fn spec_word(self) -> u16 {
        (bit16(self.coarse_gain_cfg) + 2 * bit16(self.fine_gain_en)) as u16
    }

    /// The fields a register word carries.
    pub open spec fn of_word(w: u16) -> GainCtl {
        GainCtl { coarse_gain_cfg: w % 2 == 1, fine_gain_en: (w / 2) % 2 == 1 }
    }

    /// Unpacking a packed gain-configuration word yields the flags packed
    /// into it.
    pub proof fn lemma_round_trip(s: GainCtl)
        ensures
            GainCtl::of_word(s.spec_word()) == s,
    {
    }

    /// Packs the fields into the register word.
    pub fn pack(&self) -> (r: u16)
        ensures
            r == self.spec_word(),
    {
        let mut w: u16 = 0;
        if self.coarse_gain_cfg {
            w = w + 1;
        }
        if self.fine_gain_en {
            w = w + 2;
        }
        w
    }
}


/// A fine-gain register at chip address 0x34: two branches' seven-bit
/// two's-complement gain codes, in bits 0 to 6 and 8 to 14.
#[derive(Debug, Copy, Clone, PartialEq, Eq, Structural)]
pub struct FineGain12 {
    /// The lower branch's seven-bit two's-complement code.
    pub fgain_branch1: u8,
    /// The higher branch's seven-bit two's-complement code.
    pub fgain_branch2: u8,
}

impl FineGain12 {
    /// The chip address this register lives at.
    pub open spec fn spec_addr() -> u8 {
        0x34
    }

    /// The codes fit their seven-bit fields.
    pub open spec fn wf(self) -> bool {
        self.fgain_branch1 < 128 && self.fgain_branch2 < 128
    }

    /// The packed register word.
    pub open spec fn spec_word(self) -> u16 {
        (self.fgain_branch1 % 128 + 256 * (self.fgain_branch2 % 128)) as u16
    }

    /// The fields a register word carries.
    pub open spec fn of_word(w: u16) -> FineGain12 {
        FineGain12 { fgain_branch1: (w % 128) as u8, fgain_branch2: ((w / 256) % 128) as u8 }
    }

    /// Unpacking a packed fine-gain word yields the codes packed into it,
    /// for codes that fit their fields.
    pub proof fn lemma_round_trip(s: FineGain12)
        requires
            s.wf(),
        ensures
            FineGain12::of_word(s.spec_word()) == s,
    {
    }

    /// Packs the fields into the register word.
    pub fn pack(&self) -> (r: u16)
        requires
            self.wf(),
        ensures
            r == self.spec_word(),
    {
        self.fgain_branch1 as u16 + 256 * (self.fgain_branch2 as u16)
    }
}


/// A fine-gain register at chip address 0x35: two branches' seven-bit
/// two's-complement gain codes, in bits 0 to 6 and 8 to 14.
#[derive(Debug, Copy, Clone, PartialEq, Eq, Structural)]
pub struct FineGain34 {
    /// The lower branch's seven-bit two's-complement code.
    pub fgain_branch3: u8,
    /// The higher branch's seven-bit two's-complement code.
    pub fgain_branch4: u8,
}

impl FineGain34 {
    /// The chip address this register lives at.
    pub open spec fn spec_addr() -> u8 {
        0x35
    }

    /// The codes fit their seven-bit fields.
    pub open spec fn wf(self) -> bool {
        self.fgain_branch3 < 128 && self.fgain_branch4 < 128
    }

    /// The packed register word.
    pub open spec fn spec_word(self) -> u16 {
        (self.fgain_branch3 % 128 + 256 * (self.fgain_branch4 % 128)) as u16
    }

    /// The fields a register word carries.
    pub open spec fn of_word(w: u16) -> FineGain34 {
        FineGain34 { fgain_branch3: (w % 128) as u8, fgain_branch4: ((w / 256) % 128) as u8 }
    }

    /// Unpacking a packed fine-gain word yields the codes packed into it,
    /// for codes that fit their fields.
    pub proof fn lemma_round_trip(s: FineGain34)
        requires
            s.wf(),
        ensures
            FineGain34::of_word(s.spec_word()) == s,
    {
    }

    /// Packs the fields into the register word.
    pub fn pack(&self) -> (r: u16)
        requires
            self.wf(),
        ensures
            r == self.spec_word(),
    {
        self.fgain_branch3 as u16 + 256 * (self.fgain_branch4 as u16)
    }
}


/// A fine-gain register at chip address 0x36: two branches' seven-bit
/// two's-complement gain codes, in bits 0 to 6 and 8 to 14.
#[derive(Debug, Copy, Clone, PartialEq, Eq, Structural)]
pub struct FineGain56 {
    /// The lower branch's seven-bit two's-complement code.
    pub fgain_branch5: u8,
    /// The higher branch's seven-bit two's-complement code.
    pub fgain_branch6: u8,
}

impl FineGain56 {
    /// The chip address this register lives at.
    pub open spec fn spec_addr() -> u8 {
        0x36
    }

    /// The codes fit their seven-bit fields.
    pub open spec fn wf(self) -> bool {
        self.fgain_branch5 < 128 && self.fgain_branch6 < 128
    }

    /// The packed register word.
    pub open spec fn spec_word(self) -> u16 {
        (self.fgain_branch5 % 128 + 256 * (self.fgain_branch6 % 128)) as u16
    }

    /// The fields a register word carries.
    pub open spec fn of_word(w: u16) -> FineGain56 {
        FineGain56 { fgain_branch5: (w % 128) as u8, fgain_branch6: ((w / 256) % 128) as u8 }
    }

    /// Unpacking a packed fine-gain word yields the codes packed into it,
    /// for codes that fit their fields.
    pub proof fn lemma_round_trip(s: FineGain56)
        requires
            s.wf(),
        ensures
            FineGain56::of_word(s.spec_word()) == s,
    {
    }

    /// Packs the fields into the register word.
    pub fn pack(&self) -> (r: u16)
        requires
            self.wf(),
        ensures
            r == self.spec_word(),
    {
        self.fgain_branch5 as u16 + 256 * (self.fgain_branch6 as u16)
    }
}


/// A fine-gain register at chip address 0x37: two branches' seven-bit
/// two's-complement gain codes, in bits 0 to 6 and 8 to 14.
#[derive(Debug, Copy, Clone, PartialEq, Eq, Structural)]
pub struct FineGain78 {
    /// The lower branch's seven-bit two's-complement code.
    pub fgain_branch7: u8,
    /// The higher branch's seven-bit two's-complement code.
    pub fgain_branch8: u8,
}

impl FineGain78 {
    /// The chip address this register lives at.
    pub open spec fn spec_addr() -> u8 {
        0x37
    }

    /// The codes fit their seven-bit fields.
    pub open spec fn wf(self) -> bool {
        self.fgain_branch7 < 128 && self.fgain_branch8 < 128
    }

    /// The packed register word.
    pub open spec fn spec_word(self) -> u16 {
        (self.fgain_branch7 % 128 + 256 * (self.fgain_branch8 % 128)) as u16
    }

    /// The fields a register word carries.
    pub open spec fn of_word(w: u16) -> FineGain78 {
        FineGain78 { fgain_branch7: (w % 128) as u8, fgain_branch8: ((w / 256) % 128) as u8 }
    }

    /// Unpacking a packed fine-gain word yields the codes packed into it,
    /// for codes that fit their fields.
    pub proof fn lemma_round_trip(s: FineGain78)
        requires
            s.wf(),
        ensures
            FineGain78::of_word(s.spec_word()) == s,
    {
    }

    /// Packs the fields into the register word.
    pub fn pack(&self) -> (r: u16)
        requires
            self.wf(),
        ensures
            r == self.spec_word(),
    {
        self.fgain_branch7 as u16 + 256 * (self.fgain_branch8 as u16)
    }
}


/// The phase of the bit clock against the output data.
#[derive(Debug, Copy, Clone, PartialEq, Eq, Structural)]
pub enum PhaseDdr {
    /// 90 degrees (code 2, the chip's default).
    Deg90,
    /// 270 degrees (code 0).
    Deg270,
    /// 180 degrees (code 1).
    Deg180,
    /// 0 degrees (code 3).
    Deg0,
}

/// The code a clock-phase field carries.
pub open spec fn phase_ddr_code(p: PhaseDdr) -> u16 {
    match p {
        PhaseDdr::Deg90 => 2u16,
        PhaseDdr::Deg270 => 0u16,
        PhaseDdr::Deg180 => 1u16,
        PhaseDdr::Deg0 => 3u16,
    }
}

/// The clock-phase register at chip address 0x42: the code in bits 5 and
/// 6.
#[derive(Debug, Copy, Clone, PartialEq, Eq, Structural)]
pub struct LclkPhase {
    pub phase_ddr: PhaseDdr,
}

impl LclkPhase {
    /// The chip address this register lives at.
    pub open spec fn spec_addr() -> u8 {
        0x42
    }

    /// The packed register word.
    pub open spec fn spec_word(self) -> u16 {
        (32 * phase_ddr_code(self.phase_ddr)) as u16
    }

    /// The field a register word carries.
    pub open spec fn of_word(w: u16) -> LclkPhase {
        let c = (w / 32) % 4;
        LclkPhase {
            phase_ddr: if c == 2 {
                PhaseDdr::Deg90
            } else if c == 0 {
                PhaseDdr::Deg270
            } else if c == 1 {
                PhaseDdr::Deg180
            } else {
                PhaseDdr::Deg0
            },
        }
    }

    /// Unpacking a packed phase word yields the field packed into it.
    pub proof fn lemma_round_trip(s: LclkPhase)
        ensures
            LclkPhase::of_word(s.spec_word()) == s,
    {
    }

    /// Packs the field into the register word.
    pub fn pack(&self) -> (r: u16)
        ensures
            r == self.spec_word(),
    {
        let c: u16 = match self.phase_ddr {
            PhaseDdr::Deg90 => 2,
            PhaseDdr::Deg270 => 0,
            PhaseDdr::Deg180 => 1,
            PhaseDdr::Deg0 => 3,
        };
        32 * c
    }
}

/// The output-format register at chip address 0x46: two's-complement mode
/// at bit 2, bit order at bit 3.
#[derive(Debug, Copy, Clone, PartialEq, Eq, Structural)]
pub struct OutputMode {
    pub btc_mode: bool,
    pub msb_first: bool,
}

impl OutputMode {
    /// The chip address this register lives at.
    pub open spec fn spec_addr() -> u8 {
        0x46
    }

    /// The packed register word.
    pub open spec fn spec_word(self) -> u16 {
        (4 * bit16(self.btc_mode) + 8 * bit16(self.msb_first)) as u16
    }

    /// The fields a register word carries.
    pub open spec fn of_word(w: u16) -> OutputMode {
        OutputMode { btc_mode: (w / 4) % 2 == 1, msb_first: (w / 8) % 2 == 1 }
    }

    /// Unpacking a packed output-format word yields the flags packed into
    /// it.
    pub proof fn lemma_round_trip(s: OutputMode)
        ensures
            OutputMode::of_word(s.spec_word()) == s,
    {
    }

    /// Packs the fields into the register word.
    pub fn pack(&self) -> (r: u16)
        ensures
            r == self.spec_word(),
    {
        let mut w: u16 = 0;
        if self.btc_mode {
            w = w + 4;
        }
        if self.msb_first {
            w = w + 8;
        }
        w
    }
}

/// How far the converter current is scaled down, in percent.
#[derive(Debug, Copy, Clone, PartialEq, Eq, Structural)]
pub enum AdcCurrentControl {
    /// Down 40 percent (code 4).
    Down40,
    /// Down 30 percent (code 5).
    Down30,
    /// Down 20 percent (code 6).
    Down20,
    /// Down 10 percent (code 7).
    Down10,
    /// Full current (code 0, the chip's default).
    Full,
}

/// The code a current-control field carries.
pub open spec fn adc_current_code(c: AdcCurrentControl) -> u16 {
    match c {
        AdcCurrentControl::Down40 => 4u16,
        AdcCurrentControl::Down30 => 5u16,
        AdcCurrentControl::Down20 => 6u16,
        AdcCurrentControl::Down10 => 7u16,
        AdcCurrentControl::Full => 0u16,
    }
}

/// The current control a code names, if it names one.
pub open spec fn adc_current_of(c: u16) -> Option<AdcCurrentControl> {
    if c == 4 {
        Some(AdcCurrentControl::Down40)
    } else if c == 5 {
        Some(AdcCurrentControl::Down30)
    } else if c == 6 {
        Some(AdcCurrentControl::Down20)
    } else if c == 7 {
        Some(AdcCurrentControl::Down10)
    } else if c == 0 {
        Some(AdcCurrentControl::Full)
    } else {
        None
    }
}

/// How hard the common-mode voltage pin is driven.
#[derive(Debug, Copy, Clone, PartialEq, Eq, Structural)]
pub enum VcmBufferDrive {
    /// The pin floats (code 0).
    Off,
    /// Plus or minus 20 microamperes (code 1, the chip's default).
    Pm20,
    /// Plus or minus 400 microamperes (code 2).
    Pm400,
    /// Plus or minus 700 microamperes (code 3).
    Pm700,
}

/// The code a buffer-drive field carries.
pub open spec fn vcm_drive_code(c: VcmBufferDrive) -> u16 {
    match c {
        VcmBufferDrive::Off => 0u16,
        VcmBufferDrive::Pm20 => 1u16,
        VcmBufferDrive::Pm400 => 2u16,
        VcmBufferDrive::Pm700 => 3u16,
    }
}

/// The current and common-mode drive register at chip address 0x50: the
/// current scale in bits 0 to 2, the buffer drive in bits 5 and 6.
#[derive(Debug, Copy, Clone, PartialEq, Eq, Structural)]
pub struct AdcCurrentVcmDrive {
    pub adc_curr: AdcCurrentControl,
    pub ext_vcm_bc: VcmBufferDrive,
}

impl AdcCurrentVcmDrive {
    /// The chip address this register lives at.
    pub open spec fn spec_addr() -> u8 {
        0x50
    }

    /// The packed register word.
    pub open spec fn spec_word(self) -> u16 {
        (adc_current_code(self.adc_curr) + 32 * vcm_drive_code(self.ext_vcm_bc)) as u16
    }

    /// The fields a register word carries, when the current code is known.
    pub open spec fn of_word(w: u16) -> Option<AdcCurrentVcmDrive> {
        let d = (w / 32) % 4;
        let drive = if d == 0 {
            VcmBufferDrive::Off
        } else if d == 1 {
            VcmBufferDrive::Pm20
        } else if d == 2 {
            VcmBufferDrive::Pm400
        } else {
            VcmBufferDrive::Pm700
        };
        match adc_current_of(w % 8) {
            Some(c) => Some(AdcCurrentVcmDrive { adc_curr: c, ext_vcm_bc: drive }),
            None => None,
        }
    }

    /// Unpacking a packed drive word yields the fields packed into it.
    pub proof fn lemma_round_trip(s: AdcCurrentVcmDrive)
        ensures
            AdcCurrentVcmDrive::of_word(s.spec_word()) == Some(s),
    {
    }

    /// Packs the fields into the register word.
    pub fn pack(&self) -> (r: u16)
        ensures
            r == self.spec_word(),
    {
        let c: u16 = match self.adc_curr {
            AdcCurrentControl::Down40 => 4,
            AdcCurrentControl::Down30 => 5,
            AdcCurrentControl::Down20 => 6,
            AdcCurrentControl::Down10 => 7,
            AdcCurrentControl::Full => 0,
        };
        let d: u16 = match self.ext_vcm_bc {
            VcmBufferDrive::Off => 0,
            VcmBufferDrive::Pm20 => 1,
            VcmBufferDrive::Pm400 => 2,
            VcmBufferDrive::Pm700 => 3,
        };
        c + 32 * d
    }
}

/// The LVDS power-down register at chip address 0x52: one flag at bit 0.
#[derive(Debug, Copy, Clone, PartialEq, Eq, Structural)]
pub struct LvdsPowerDown {
    pub lvds_pd_mode: bool,
}

impl LvdsPowerDown {
    /// The chip address this register lives at.
    pub open spec fn spec_addr() -> u8 {
        0x52
    }

    /// The packed register word.
    pub open spec fn spec_word(self) -> u16 {
        bit16(self.lvds_pd_mode)
    }

    /// The flag a register word carries.
    pub open spec fn of_word(w: u16) -> LvdsPowerDown {
        LvdsPowerDown { lvds_pd_mode: w % 2 == 1 }
    }

    /// Unpacking a packed power-down word yields the flag packed into it.
    pub proof fn lemma_round_trip(s: LvdsPowerDown)
        ensures
            LvdsPowerDown::of_word(s.spec_word()) == s,
    {
    }

    /// Packs the flag into the register word.
    pub fn pack(&self) -> (r: u16)
        ensures
            r == self.spec_word(),
    {
        if self.lvds_pd_mode {
            1
        } else {
            0
        }
    }
}

/// The full-scale range register at chip address 0x55: a six-bit
/// two's-complement code in bits 0 to 5, each step 0.3 percent.
#[derive(Debug, Copy, Clone, PartialEq, Eq, Structural)]
pub struct FullScaleRangeControl {
    /// The six-bit two's-complement range code.
    pub fs_cntrl: u8,
}

impl FullScaleRangeControl {
    /// The chip address this register lives at.
    pub open spec fn spec_addr() -> u8 {
        0x55
    }

    /// The code fits its six-bit field.
    pub open spec fn wf(self) -> bool {
        self.fs_cntrl < 64
    }

    /// The packed register word.
    pub open spec fn spec_word(self) -> u16 {
        (self.fs_cntrl % 64) as u16
    }

    /// The field a register word carries.
    pub open spec fn of_word(w: u16) -> FullScaleRangeControl {
        FullScaleRangeControl { fs_cntrl: (w % 64) as u8 }
    }

    /// Unpacking a packed range word yields the code packed into it, for
    /// codes that fit the field.
    pub proof fn lemma_round_trip(s: FullScaleRangeControl)
        requires
            s.wf(),
        ensures
            FullScaleRangeControl::of_word(s.spec_word()) == s,
    {
    }

    /// Packs the field into the register word.
    pub fn pack(&self) -> (r: u16)
        requires
            self.wf(),
        ensures
            r == self.spec_word(),
    {
        self.fs_cntrl as u16
    }
}

/// Start-up timing choices; the right one depends on the channel count, as
/// the chip's data sheet lays out.
#[derive(Debug, Copy, Clone, PartialEq, Eq, Structural)]
pub enum StartupTiming {
    /// The default timing (code 0).
    Standard,
    /// Code 4.
    T100,
    /// Code 1.
    T001,
    /// Code 5.
    T101,
    /// Code 3.
    T011,
}

/// The code a start-up field carries.
pub open spec fn startup_code(s: StartupTiming) -> u16 {
    match s {
        StartupTiming::Standard => 0u16,
        StartupTiming::T100 => 4u16,
        StartupTiming::T001 => 1u16,
        StartupTiming::T101 => 5u16,
        StartupTiming::T011 => 3u16,
    }
}

/// The start-up timing a code names, if it names one.
pub open spec fn startup_of(c: u16) -> Option<StartupTiming> {
    if c == 0 {
        Some(StartupTiming::Standard)
    } else if c == 4 {
        Some(StartupTiming::T100)
    } else if c == 1 {
        Some(StartupTiming::T001)
    } else if c == 5 {
        Some(StartupTiming::T101)
    } else if c == 3 {
        Some(StartupTiming::T011)
    } else {
        None
    }
}

/// The start-up control register at chip address 0x56: the timing code in
/// bits 0 to 2.
#[derive(Debug, Copy, Clone, PartialEq, Eq, Structural)]
pub struct StartupControl {
    pub startup_ctrl: StartupTiming,
}

impl StartupControl {
    /// The chip address this register lives at.
    pub open spec fn spec_addr() -> u8 {
        0x56
    }

    /// The packed register word.
    pub open spec fn spec_word(self) -> u16 {
        startup_code(self.startup_ctrl)
    }

    /// The field a register word carries, when the code is known.
    pub open spec fn of_word(w: u16) -> Option<StartupControl> {
        match startup_of(w % 8) {
            Some(s) => Some(StartupControl { startup_ctrl: s }),
            None => None,
        }
    }

    /// Unpacking a packed start-up word yields the field packed into it.
    pub proof fn lemma_round_trip(s: StartupControl)
        ensures
            StartupControl::of_word(s.spec_word()) == Some(s),
    {
    }

    /// Packs the field into the register word.
    pub fn pack(&self) -> (r: u16)
        ensures
            r == self.spec_word(),
    {
        match self.startup_ctrl {
            StartupTiming::Standard => 0,
            StartupTiming::T100 => 4,
            StartupTiming::T001 => 1,
            StartupTiming::T101 => 5,
            StartupTiming::T011 => 3,
        }
    }
}

} // verus!
