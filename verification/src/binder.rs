//! The design binder: given a parsed descriptor, it materializes one typed
//! peripheral object per device of a recognized kind, reading each
//! object's parameters out of the device's metadata. Devices of
//! unrecognized kinds are ignored.

use vstd::prelude::*;

use crate::fpg::{Device, File};
use crate::tapcp::meta_lookup_exec;

verus! {

/// Errors of the binding step.
#[derive(Debug)]
pub enum BindError {
    /// A device of a known kind misses a metadata entry its constructor
    /// needs.
    MissingMeta,
    /// A metadata entry did not parse as its constructor needs.
    BadMeta,
    /// A bank of converters without the sibling `SNAP` device carrying the
    /// clock source.
    MissingSnap,
}

/// The kind of a software register, read from its metadata: fixed-point
/// with a signedness and a binary point, or boolean.
#[derive(Debug, Copy, Clone, PartialEq, Eq, Structural)]
pub enum Kind {
    /// This register carries boolean data.
    Bool,
    /// This register carries fixed-point data.
    Fixed { bin_pts: u32, signed: bool },
}

/// The arithmetic-type code `0`: unsigned fixed point.
pub open spec fn arith_unsigned_text() -> Seq<u8> {
    seq![0x30u8]
}

/// The arithmetic-type code `1`: signed fixed point.
pub open spec fn arith_signed_text() -> Seq<u8> {
    seq![0x31u8]
}

/// The arithmetic-type code `2`: boolean.
pub open spec fn arith_bool_text() -> Seq<u8> {
    seq![0x32u8]
}

/// Whether a binary-point text spells a decimal count of at most 32.
pub open spec fn bin_pts_text_valid(s: Seq<u8>) -> bool {
    &&& s.len() > 0
    &&& forall|i: int| 0 <= i < s.len() ==> crate::encoding::is_dec_digit(#[trigger] s[i])
    &&& crate::encoding::dec_seq_val(s) <= 32
}

/// A software register as the descriptor describes it: its direction and
/// its kind.
#[derive(Debug, Copy, Clone, PartialEq, Eq, Structural)]
pub struct SoftwareRegister {
    /// IO direction of this register.
    pub direction: crate::swreg::Direction,
    /// The kind of software register.
    pub kind: Kind,
}

/// What reading a register description out of metadata yields: the exact
/// outcome, absent entries before malformed ones, in the order the reads
/// happen.
pub open spec fn swreg_from_meta(md: Seq<(Seq<u8>, Seq<u8>)>) -> Result<
    SoftwareRegister,
    BindError,
> {
    match crate::tapcp::meta_lookup(md, io_dir_key()) {
        None => Err(BindError::MissingMeta),
        Some(io) => {
            if !crate::swreg::direction_text_valid(io) {
                Err(BindError::BadMeta)
            } else {
                let direction = if io == crate::swreg::to_processor_text() {
                    crate::swreg::Direction::ToProcessor
                } else {
                    crate::swreg::Direction::FromProcessor
                };
                match crate::tapcp::meta_lookup(md, arith_types_key()) {
                    None => Err(BindError::MissingMeta),
                    Some(at) => {
                        if at == arith_bool_text() {
                            Ok(SoftwareRegister { direction, kind: Kind::Bool })
                        } else if at != arith_unsigned_text() && at != arith_signed_text() {
                            Err(BindError::BadMeta)
                        } else {
                            match crate::tapcp::meta_lookup(md, bin_pts_key()) {
                                None => Err(BindError::MissingMeta),
                                Some(bp) => {
                                    if !bin_pts_text_valid(bp) {
                                        Err(BindError::BadMeta)
                                    } else {
                                        Ok(
                                            SoftwareRegister {
                                                direction,
                                                kind: Kind::Fixed {
                                                    bin_pts: crate::encoding::dec_seq_val(
                                                        bp,
                                                    ) as u32,
                                                    signed: at == arith_signed_text(),
                                                },
                                            },
                                        )
                                    }
                                },
                            }
                        }
                    },
                }
            }
        },
    }
}

impl SoftwareRegister {
    /// Reads a register description out of a device's metadata: the
    /// direction from `io_dir`, the kind from `arith_types`, and for fixed
    /// kinds the binary point from `bin_pts` — with exactly the outcome
    /// [`swreg_from_meta`] fixes for the metadata.
    pub fn from_fpg(device: &Device) -> (r: Result<SoftwareRegister, BindError>)
        ensures
            r == swreg_from_meta(crate::csl::pairs_view(device.metadata@)),
    {
        let io_dir_k = io_dir_key_bytes();
        let io_dir = match meta_lookup_exec(&device.metadata, &io_dir_k) {
            Some(v) => v,
            None => {
                return Err(BindError::MissingMeta);
            },
        };
        let direction = match crate::swreg::parse_direction(&io_dir) {
            Ok(d) => d,
            Err(_) => {
                return Err(BindError::BadMeta);
            },
        };
        let arith_k = arith_types_key_bytes();
        let arith = match meta_lookup_exec(&device.metadata, &arith_k) {
            Some(v) => v,
            None => {
                return Err(BindError::MissingMeta);
            },
        };
        let t0 = vec![0x30u8];
        assert(t0@ =~= arith_unsigned_text());
        let t1 = vec![0x31u8];
        assert(t1@ =~= arith_signed_text());
        let t2 = vec![0x32u8];
        assert(t2@ =~= arith_bool_text());
        if crate::encoding::bytes_eq(&arith, &t2) {
            return Ok(SoftwareRegister { direction, kind: Kind::Bool });
        }
        let signed = if crate::encoding::bytes_eq(&arith, &t0) {
            false
        } else if crate::encoding::bytes_eq(&arith, &t1) {
            true
        } else {
            return Err(BindError::BadMeta);
        };
        let bin_k = bin_pts_key_bytes();
        let bin = match meta_lookup_exec(&device.metadata, &bin_k) {
            Some(v) => v,
            None => {
                return Err(BindError::MissingMeta);
            },
        };
        let bin_pts = match crate::encoding::parse_decimal(&bin) {
            Some(v) => v,
            None => {
                return Err(BindError::BadMeta);
            },
        };
        if bin_pts > 32 {
            return Err(BindError::BadMeta);
        }
        Ok(SoftwareRegister { direction, kind: Kind::Fixed { bin_pts: bin_pts as u32, signed } })
    }
}

/// The metadata key `io_dir`.
pub open spec fn io_dir_key() -> Seq<u8> {
    seq![0x69u8, 0x6F, 0x5F, 0x64, 0x69, 0x72]
}

fn io_dir_key_bytes() -> (r: Vec<u8>)
    ensures
        r@ == io_dir_key(),
{
    let v = vec![0x69u8, 0x6F, 0x5F, 0x64, 0x69, 0x72];
    assert(v@ =~= io_dir_key());
    v
}

/// The metadata key `arith_types`.
pub open spec fn arith_types_key() -> Seq<u8> {
    seq![0x61u8, 0x72, 0x69, 0x74, 0x68, 0x5F, 0x74, 0x79, 0x70, 0x65, 0x73]
}

fn arith_types_key_bytes() -> (r: Vec<u8>)
    ensures
        r@ == arith_types_key(),
{
    let v = vec![0x61u8, 0x72, 0x69, 0x74, 0x68, 0x5F, 0x74, 0x79, 0x70, 0x65, 0x73];
    assert(v@ =~= arith_types_key());
    v
}

/// The metadata key `bin_pts`.
pub open spec fn bin_pts_key() -> Seq<u8> {
    seq![0x62u8, 0x69, 0x6E, 0x5F, 0x70, 0x74, 0x73]
}

fn bin_pts_key_bytes() -> (r: Vec<u8>)
    ensures
        r@ == bin_pts_key(),
{
    let v = vec![0x62u8, 0x69, 0x6E, 0x5F, 0x70, 0x74, 0x73];
    assert(v@ =~= bin_pts_key());
    v
}

/// The metadata key `bitwidths`.
pub open spec fn bitwidths_key() -> Seq<u8> {
    seq![0x62u8, 0x69, 0x74, 0x77, 0x69, 0x64, 0x74, 0x68, 0x73]
}

fn bitwidths_key_bytes() -> (r: Vec<u8>)
    ensures
        r@ == bitwidths_key(),
{
    let v = vec![0x62u8, 0x69, 0x74, 0x77, 0x69, 0x64, 0x74, 0x68, 0x73];
    assert(v@ =~= bitwidths_key());
    v
}

/// The device kind `xps:sw_reg`.
pub open spec fn sw_reg_kind() -> Seq<u8> {
    seq![0x78u8, 0x70, 0x73, 0x3A, 0x73, 0x77, 0x5F, 0x72, 0x65, 0x67]
}

/// The device kind `xps:ten_gbe`.
pub open spec fn ten_gbe_kind() -> Seq<u8> {
    seq![0x78u8, 0x70, 0x73, 0x3A, 0x74, 0x65, 0x6E, 0x5F, 0x67, 0x62, 0x65]
}

/// The device kind `casper:snapshot`.
pub open spec fn snapshot_kind() -> Seq<u8> {
    seq![
        0x63u8, 0x61, 0x73, 0x70, 0x65, 0x72, 0x3A, 0x73, 0x6E, 0x61, 0x70, 0x73, 0x68, 0x6F,
        0x74,
    ]
}

/// The device kind `xps:snap_adc`.
pub open spec fn snap_adc_kind() -> Seq<u8> {
    seq![0x78u8, 0x70, 0x73, 0x3A, 0x73, 0x6E, 0x61, 0x70, 0x5F, 0x61, 0x64, 0x63]
}

/// The metadata key `nsamples`.
pub open spec fn nsamples_key() -> Seq<u8> {
    seq![0x6Eu8, 0x73, 0x61, 0x6D, 0x70, 0x6C, 0x65, 0x73]
}

/// The metadata key `offset`.
pub open spec fn offset_key() -> Seq<u8> {
    seq![0x6Fu8, 0x66, 0x66, 0x73, 0x65, 0x74]
}

/// The metadata key `clk_src`.
pub open spec fn clk_src_key() -> Seq<u8> {
    seq![0x63u8, 0x6C, 0x6B, 0x5F, 0x73, 0x72, 0x63]
}

/// The metadata key `adc_resolution`.
pub open spec fn adc_resolution_key() -> Seq<u8> {
    seq![0x61u8, 0x64, 0x63, 0x5F, 0x72, 0x65, 0x73, 0x6F, 0x6C, 0x75, 0x74, 0x69, 0x6F, 0x6E]
}

/// The metadata key `sample_rate`.
pub open spec fn sample_rate_key() -> Seq<u8> {
    seq![0x73u8, 0x61, 0x6D, 0x70, 0x6C, 0x65, 0x5F, 0x72, 0x61, 0x74, 0x65]
}

/// The metadata key `snap_inputs`.
pub open spec fn snap_inputs_key() -> Seq<u8> {
    seq![0x73u8, 0x6E, 0x61, 0x70, 0x5F, 0x69, 0x6E, 0x70, 0x75, 0x74, 0x73]
}

/// The name of the sibling device carrying the bank's clock source, `SNAP`.
pub open spec fn snap_device_name() -> Seq<u8> {
    seq![0x53u8, 0x4E, 0x41, 0x50]
}

/// The last device carrying this name, as the bank's sibling search finds
/// it.
pub open spec fn last_device(
    devs: Seq<(Seq<u8>, crate::fpg::DeviceModel)>,
    name: Seq<u8>,
) -> Option<crate::fpg::DeviceModel>
    decreases devs.len(),
{
    if devs.len() == 0 {
        None
    } else if devs.last().0 == name {
        Some(devs.last().1)
    } else {
        last_device(devs.drop_last(), name)
    }
}

/// Whether a device kind is one the binder recognizes.
pub open spec fn recognized_kind(kind: Seq<u8>) -> bool {
    kind == sw_reg_kind() || kind == ten_gbe_kind() || kind == snapshot_kind() || kind
        == snap_adc_kind()
}

/// Spec-level mirror of a bound peripheral: the fields each constructor
/// fixes.
#[verifier::ext_equal]
pub enum BlockModel {
    Fixed {
        name: Seq<u8>,
        direction: crate::swreg::Direction,
        width: u32,
        signed: bool,
        frac_bits: u32,
    },
    Bool { name: Seq<u8>, direction: crate::swreg::Direction },
    Gbe { name: Seq<u8> },
    Snapshot { name: Seq<u8>, has_offset: bool, samples_n: u32 },
    Adc {
        name: Seq<u8>,
        sample_rate: u64,
        mode: crate::snapadc::AdcMode,
        source: crate::clockswitch::Source,
    },
}

/// One bound peripheral object.
#[derive(Debug)]
pub enum YellowBlock {
    /// A fixed-point software register.
    Fixed(crate::swreg::FixedSoftwareRegister),
    /// A boolean software register.
    Bool(crate::swreg::BooleanSoftwareRegister),
    /// A 10-gigabit Ethernet core.
    Gbe(crate::ten_gbe::TenGbE),
    /// A snapshot block.
    Snapshot(crate::snapshot::Snapshot),
    /// The ADC bank.
    Adc(crate::snapadc::SnapAdc),
}

impl View for YellowBlock {
    type V = BlockModel;

    open spec fn view(&self) -> BlockModel {
        match self {
            YellowBlock::Fixed(f) => BlockModel::Fixed {
                name: f.name@,
                direction: f.direction,
                width: f.width,
                signed: f.signed,
                frac_bits: f.frac_bits,
            },
            YellowBlock::Bool(b) => BlockModel::Bool { name: b.name@, direction: b.direction },
            YellowBlock::Gbe(g) => BlockModel::Gbe { name: g.name@ },
            YellowBlock::Snapshot(s) => BlockModel::Snapshot {
                name: s.name@,
                has_offset: s.has_offset,
                samples_n: s.samples_n,
            },
            YellowBlock::Adc(a) => BlockModel::Adc {
                name: a.name@,
                sample_rate: a.sample_rate,
                mode: a.mode,
                source: a.source,
            },
        }
    }
}

/// What binding one device yields: nothing for an unrecognized kind, the
/// block the constructors fix for a recognized one, or the exact error —
/// absent metadata before malformed, the sibling `SNAP` device and its
/// clock source required for a bank.
pub open spec fn bind_outcome(
    name: Seq<u8>,
    dev: crate::fpg::DeviceModel,
    devs: Seq<(Seq<u8>, crate::fpg::DeviceModel)>,
) -> Result<Option<BlockModel>, BindError> {
    if dev.kind == sw_reg_kind() {
        match swreg_from_meta(dev.metadata) {
            Err(e) => Err(e),
            Ok(sw) => match sw.kind {
                Kind::Bool => Ok(Some(BlockModel::Bool { name, direction: sw.direction })),
                Kind::Fixed { bin_pts, signed } => match crate::tapcp::meta_lookup(
                    dev.metadata,
                    bitwidths_key(),
                ) {
                    None => Err(BindError::MissingMeta),
                    Some(bw) => {
                        if !crate::swreg::width_text_valid(bw) {
                            Err(BindError::BadMeta)
                        } else {
                            Ok(
                                Some(
                                    BlockModel::Fixed {
                                        name,
                                        direction: sw.direction,
                                        width: crate::encoding::dec_seq_val(bw) as u32,
                                        signed,
                                        frac_bits: bin_pts,
                                    },
                                ),
                            )
                        }
                    },
                },
            },
        }
    } else if dev.kind == ten_gbe_kind() {
        Ok(Some(BlockModel::Gbe { name }))
    } else if dev.kind == snapshot_kind() {
        match crate::tapcp::meta_lookup(dev.metadata, nsamples_key()) {
            None => Err(BindError::MissingMeta),
            Some(ns) => match crate::tapcp::meta_lookup(dev.metadata, offset_key()) {
                None => Err(BindError::MissingMeta),
                Some(off) => {
                    if !(crate::snapshot::nsamples_text_valid(ns) && (off
                        == crate::snapshot::on_text() || off == crate::snapshot::off_text())) {
                        Err(BindError::BadMeta)
                    } else {
                        Ok(
                            Some(
                                BlockModel::Snapshot {
                                    name,
                                    has_offset: off == crate::snapshot::on_text(),
                                    samples_n: crate::encoding::dec_seq_val(ns) as u32,
                                },
                            ),
                        )
                    }
                },
            },
        }
    } else if dev.kind == snap_adc_kind() {
        match last_device(devs, snap_device_name()) {
            None => Err(BindError::MissingSnap),
            Some(snap) => match crate::tapcp::meta_lookup(snap.metadata, clk_src_key()) {
                None => Err(BindError::MissingSnap),
                Some(clk) => match crate::tapcp::meta_lookup(dev.metadata, adc_resolution_key()) {
                    None => Err(BindError::MissingMeta),
                    Some(res) => match crate::tapcp::meta_lookup(dev.metadata, sample_rate_key()) {
                        None => Err(BindError::MissingMeta),
                        Some(rate) => match crate::tapcp::meta_lookup(
                            dev.metadata,
                            snap_inputs_key(),
                        ) {
                            None => Err(BindError::MissingMeta),
                            Some(inputs) => {
                                if !(crate::snapadc::snap_inputs_text_valid(inputs) && res
                                    == crate::snapadc::resolution8_text()
                                    && crate::snapadc::sample_rate_text_valid(rate)) {
                                    Err(BindError::BadMeta)
                                } else {
                                    Ok(
                                        Some(
                                            BlockModel::Adc {
                                                name,
                                                sample_rate: crate::encoding::dec_seq_val(
                                                    rate,
                                                ) as u64,
                                                mode: if inputs
                                                    == crate::snapadc::inputs12_text() {
                                                    crate::snapadc::AdcMode::Quad
                                                } else if inputs
                                                    == crate::snapadc::inputs6_text() {
                                                    crate::snapadc::AdcMode::Dual
                                                } else {
                                                    crate::snapadc::AdcMode::Single
                                                },
                                                source: if clk == crate::snapadc::sys_clk_text() {
                                                    crate::clockswitch::Source::Internal
                                                } else {
                                                    crate::clockswitch::Source::External
                                                },
                                            },
                                        ),
                                    )
                                }
                            },
                        },
                    },
                },
            },
        }
    } else {
        Ok(None)
    }
}

/// The typed aggregate the binder builds: one entry per recognized device,
/// in the order the descriptor's metadata first names them.
#[derive(Debug)]
pub struct CasperFpga {
    /// The bound peripherals under their device names.
    pub blocks: Vec<(Vec<u8>, YellowBlock)>,
}

/// Binds one device, if its kind is recognized. `devices` carries the
/// whole list so that an ADC bank can read the clock source off its
/// sibling `SNAP` device.
pub fn bind_device(
    name: &Vec<u8>,
    device: &Device,
    devices: &Vec<(Vec<u8>, Device)>,
) -> (r: Result<Option<YellowBlock>, BindError>)
    ensures
        r matches Ok(Some(b)) ==> bind_outcome(name@, device@, crate::fpg::devices_view(devices@))
            == Ok::<_, BindError>(Some(b@)),
        r matches Ok(ob) && ob is None ==> bind_outcome(
            name@,
            device@,
            crate::fpg::devices_view(devices@),
        ) == Ok::<Option<BlockModel>, BindError>(None),
        r matches Err(e) ==> bind_outcome(name@, device@, crate::fpg::devices_view(devices@))
            == Err::<Option<BlockModel>, _>(e),
        r matches Ok(Some(b)) ==> recognized_kind(device.kind@),
        r matches Ok(ob) && ob is None ==> !recognized_kind(device.kind@),
{
    let k_sw = vec![0x78u8, 0x70, 0x73, 0x3A, 0x73, 0x77, 0x5F, 0x72, 0x65, 0x67];
    assert(k_sw@ =~= sw_reg_kind());
    let k_gbe = vec![0x78u8, 0x70, 0x73, 0x3A, 0x74, 0x65, 0x6E, 0x5F, 0x67, 0x62, 0x65];
    assert(k_gbe@ =~= ten_gbe_kind());
    let k_snap = vec![
        0x63u8, 0x61, 0x73, 0x70, 0x65, 0x72, 0x3A, 0x73, 0x6E, 0x61, 0x70, 0x73, 0x68, 0x6F,
        0x74,
    ];
    assert(k_snap@ =~= snapshot_kind());
    let k_adc = vec![0x78u8, 0x70, 0x73, 0x3A, 0x73, 0x6E, 0x61, 0x70, 0x5F, 0x61, 0x64, 0x63];
    assert(k_adc@ =~= snap_adc_kind());
    if crate::encoding::bytes_eq(&device.kind, &k_sw) {
        let sw = match SoftwareRegister::from_fpg(device) {
            Ok(s) => s,
            Err(e) => {
                return Err(e);
            },
        };
        let io_dir_k = io_dir_key_bytes();
        let io_dir = match meta_lookup_exec(&device.metadata, &io_dir_k) {
            Some(v) => v,
            None => {
                return Err(BindError::MissingMeta);
            },
        };
        match sw.kind {
            Kind::Bool => {
                let reg = match crate::swreg::BooleanSoftwareRegister::from_fpg(
                    crate::encoding::clone_bytes(name),
                    &io_dir,
                ) {
                    Ok(b) => b,
                    Err(_) => {
                        return Err(BindError::BadMeta);
                    },
                };
                Ok(Some(YellowBlock::Bool(reg)))
            },
            Kind::Fixed { bin_pts, signed } => {
                let bw_k = bitwidths_key_bytes();
                let bitwidths = match meta_lookup_exec(&device.metadata, &bw_k) {
                    Some(v) => v,
                    None => {
                        return Err(BindError::MissingMeta);
                    },
                };
                let reg = match crate::swreg::FixedSoftwareRegister::from_fpg(
                    crate::encoding::clone_bytes(name),
                    &io_dir,
                    &bitwidths,
                    signed,
                    bin_pts,
                ) {
                    Ok(f) => f,
                    Err(_) => {
                        return Err(BindError::BadMeta);
                    },
                };
                Ok(Some(YellowBlock::Fixed(reg)))
            },
        }
    } else if crate::encoding::bytes_eq(&device.kind, &k_gbe) {
        Ok(
            Some(
                YellowBlock::Gbe(
                    crate::ten_gbe::TenGbE::from_fpg(crate::encoding::clone_bytes(name)),
                ),
            ),
        )
    } else if crate::encoding::bytes_eq(&device.kind, &k_snap) {
        let nsamples_k = vec![0x6Eu8, 0x73, 0x61, 0x6D, 0x70, 0x6C, 0x65, 0x73];
        let nsamples = match meta_lookup_exec(&device.metadata, &nsamples_k) {
            Some(v) => v,
            None => {
                return Err(BindError::MissingMeta);
            },
        };
        let offset_k = vec![0x6Fu8, 0x66, 0x66, 0x73, 0x65, 0x74];
        let offset = match meta_lookup_exec(&device.metadata, &offset_k) {
            Some(v) => v,
            None => {
                return Err(BindError::MissingMeta);
            },
        };
        let snap = match crate::snapshot::Snapshot::from_fpg(
            crate::encoding::clone_bytes(name),
            &nsamples,
            &offset,
        ) {
            Ok(s) => s,
            Err(_) => {
                return Err(BindError::BadMeta);
            },
        };
        Ok(Some(YellowBlock::Snapshot(snap)))
    } else if crate::encoding::bytes_eq(&device.kind, &k_adc) {
        let snap_name = vec![0x53u8, 0x4E, 0x41, 0x50];
        assert(snap_name@ =~= snap_device_name());
        let ghost dv = crate::fpg::devices_view(devices@);
        let mut snap_dev: Option<usize> = None;
        let mut i: usize = 0;
        assert(dv.take(0) =~= Seq::<(Seq<u8>, crate::fpg::DeviceModel)>::empty());
        while i < devices.len()
            invariant
                0 <= i <= devices@.len(),
                dv == crate::fpg::devices_view(devices@),
                snap_name@ == snap_device_name(),
                (match snap_dev {
                    None => last_device(dv.take(i as int), snap_device_name()) is None,
                    Some(j) => j < devices@.len() && dv[j as int].0 == snap_device_name()
                        && last_device(dv.take(i as int), snap_device_name()) == Some(
                        dv[j as int].1,
                    ),
                }),
            decreases devices@.len() - i,
        {
            proof {
                assert(dv[i as int] == (devices@[i as int].0@, devices@[i as int].1@));
                assert(dv.take(i + 1).drop_last() =~= dv.take(i as int));
                assert(dv.take(i + 1).last() == dv[i as int]);
            }
            if crate::encoding::bytes_eq(&devices[i].0, &snap_name) {
                snap_dev = Some(i);
            }
            i += 1;
        }
        proof {
            assert(dv.take(devices@.len() as int) =~= dv);
        }
        let si = match snap_dev {
            Some(v) => v,
            None => {
                return Err(BindError::MissingSnap);
            },
        };
        let clk_src_k = vec![0x63u8, 0x6C, 0x6B, 0x5F, 0x73, 0x72, 0x63];
        let clk_src = match meta_lookup_exec(&devices[si].1.metadata, &clk_src_k) {
            Some(v) => v,
            None => {
                return Err(BindError::MissingSnap);
            },
        };
        let res_k = vec![
            0x61u8, 0x64, 0x63, 0x5F, 0x72, 0x65, 0x73, 0x6F, 0x6C, 0x75, 0x74, 0x69, 0x6F,
            0x6E,
        ];
        let resolution = match meta_lookup_exec(&device.metadata, &res_k) {
            Some(v) => v,
            None => {
                return Err(BindError::MissingMeta);
            },
        };
        let rate_k = vec![
            0x73u8, 0x61, 0x6D, 0x70, 0x6C, 0x65, 0x5F, 0x72, 0x61, 0x74,
            0x65,
        ];
        let sample_rate = match meta_lookup_exec(&device.metadata, &rate_k) {
            Some(v) => v,
            None => {
                return Err(BindError::MissingMeta);
            },
        };
        let inputs_k = vec![
            0x73u8, 0x6E, 0x61, 0x70, 0x5F, 0x69, 0x6E, 0x70, 0x75, 0x74,
            0x73,
        ];
        let snap_inputs = match meta_lookup_exec(&device.metadata, &inputs_k) {
            Some(v) => v,
            None => {
                return Err(BindError::MissingMeta);
            },
        };
        let adc = match crate::snapadc::SnapAdc::from_fpg(
            crate::encoding::clone_bytes(name),
            &resolution,
            &sample_rate,
            &snap_inputs,
            &clk_src,
        ) {
            Ok(a) => a,
            Err(_) => {
                return Err(BindError::BadMeta);
            },
        };
        Ok(Some(YellowBlock::Adc(adc)))
    } else {
        Ok(None)
    }
}

/// The model view of a bound-block list.
pub open spec fn blocks_view(s: Seq<(Vec<u8>, YellowBlock)>) -> Seq<(Seq<u8>, BlockModel)> {
    s.map_values(|e: (Vec<u8>, YellowBlock)| (e.0@, e.1@))
}

/// What binding a whole device list yields: each recognized device in
/// order adds its bound block under its name; the first failing bind fails
/// the whole list.
pub open spec fn bind_all(
    devs: Seq<(Seq<u8>, crate::fpg::DeviceModel)>,
    i: int,
    acc: Seq<(Seq<u8>, BlockModel)>,
) -> Result<Seq<(Seq<u8>, BlockModel)>, BindError>
    decreases devs.len() - i,
{
    if i < 0 || i >= devs.len() {
        Ok(acc)
    } else {
        match bind_outcome(devs[i].0, devs[i].1, devs) {
            Err(e) => Err(e),
            Ok(None) => bind_all(devs, i + 1, acc),
            Ok(Some(b)) => bind_all(devs, i + 1, acc.push((devs[i].0, b))),
        }
    }
}

impl CasperFpga {
    /// Builds the typed aggregate for a parsed descriptor: the blocks are
    /// exactly, in order, the devices of recognized kinds, each bound as
    /// [`bind_outcome`] fixes; the first failing constructor fails the
    /// whole bind with its error.
    pub fn new(file: &File) -> (r: Result<CasperFpga, BindError>)
        ensures
            r matches Ok(f) ==> bind_all(
                crate::fpg::devices_view(file.devices@),
                0,
                Seq::empty(),
            ) == Ok::<_, BindError>(blocks_view(f.blocks@)),
            r matches Err(e) ==> bind_all(crate::fpg::devices_view(file.devices@), 0, Seq::empty())
                == Err::<Seq<(Seq<u8>, BlockModel)>, _>(e),
    {
        let ghost dv = crate::fpg::devices_view(file.devices@);
        let mut blocks: Vec<(Vec<u8>, YellowBlock)> = Vec::new();
        let mut i: usize = 0;
        assert(blocks_view(blocks@) =~= Seq::<(Seq<u8>, BlockModel)>::empty());
        while i < file.devices.len()
            invariant
                0 <= i <= file.devices@.len(),
                dv == crate::fpg::devices_view(file.devices@),
                bind_all(dv, 0, Seq::empty()) == bind_all(dv, i as int, blocks_view(blocks@)),
            decreases file.devices@.len() - i,
        {
            let name = &file.devices[i].0;
            let device = &file.devices[i].1;
            proof {
                assert(dv[i as int] == (file.devices@[i as int].0@, file.devices@[i as int].1@));
            }
            match bind_device(name, device, &file.devices) {
                Ok(Some(b)) => {
                    let ghost before = blocks_view(blocks@);
                    let ghost bm = b@;
                    blocks.push((crate::encoding::clone_bytes(name), b));
                    proof {
                        assert(blocks_view(blocks@) =~= before.push((dv[i as int].0, bm)));
                        assert(bind_all(dv, i as int, before) == bind_all(
                            dv,
                            i + 1,
                            before.push((dv[i as int].0, bm)),
                        ));
                    }
                },
                Ok(None) => {
                    proof {
                        assert(bind_all(dv, i as int, blocks_view(blocks@)) == bind_all(
                            dv,
                            i + 1,
                            blocks_view(blocks@),
                        ));
                    }
                },
                Err(e) => {
                    proof {
                        assert(bind_all(dv, i as int, blocks_view(blocks@)) == Err::<
                            Seq<(Seq<u8>, BlockModel)>,
                            _,
                        >(e));
                    }
                    return Err(e);
                },
            }
            i += 1;
        }
        proof {
            assert(bind_all(dv, i as int, blocks_view(blocks@)) == Ok::<_, BindError>(
                blocks_view(blocks@),
            ));
        }
        Ok(CasperFpga { blocks })
    }
}

} // verus!
