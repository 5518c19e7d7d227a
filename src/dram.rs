//! DDR1/SDR memory controller bring-up: PLL, timing, type detection, read
//! pipeline calibration, geometry detection and a final functional check.
use vstd::arithmetic::power2::pow2;
use vstd::prelude::*;

use crate::bus::{Bus, extends, extends_reading, extends_sparing, lemma_sparing_trans, BusOp, RegisterBus};

verus! {

broadcast use lemma_sparing_trans;

/// Geometry and mode register.
pub const DRAM_SCONR: u32 = 0x01c0_1000;
pub const DRAM_STMG0R: u32 = 0x01c0_1004;
pub const DRAM_STMG1R: u32 = 0x01c0_1008;
/// Start/control register: bit 0 starts the initial sequence, bits 6..9 hold the read pipe.
pub const DRAM_SCTLR: u32 = 0x01c0_100c;
/// Auto-refresh counter.
pub const DRAM_SREFR: u32 = 0x01c0_1010;
/// Delay-scan register: bit 0 starts a scan, bits 4..5 report its status.
pub const DRAM_DDLYR: u32 = 0x01c0_1024;
pub const DRAM_DRPTR0: u32 = 0x01c0_1030;
pub const DRAM_DRPTR1: u32 = 0x01c0_1034;
pub const DRAM_DRPTR2: u32 = 0x01c0_1038;
pub const DRAM_DRPTR3: u32 = 0x01c0_103c;

/// Clock control unit registers used by the memory bring-up.
pub const CCU_PLL_DDR_CTRL: u32 = 0x01c2_0020;
pub const CCU_BUS_CLK_GATING0: u32 = 0x01c2_0060;
pub const CCU_PLL_DDR_PAT_CTRL: u32 = 0x01c2_028c;
pub const CCU_BUS_SOFT_RST0: u32 = 0x01c2_02c0;

/// Pin controller registers used by the memory bring-up.
pub const PIO_PB_CFG0: u32 = 0x01c2_0824;
pub const PIO_SDR_PAD_DRV: u32 = 0x01c2_0ac0;
pub const PIO_SDR_PAD_PULL: u32 = 0x01c2_0ac4;

/// Start of the external memory window.
pub const SDRAM_BASE: u32 = 0x8000_0000;
/// Scratch word that remembers a finished bring-up.
pub const DRAM_MARKER_ADDR: u32 = 0x5c;
/// `'X'`, the tag in the top byte of the marker word.
pub const DRAM_MARKER_TAG: u32 = 0x58;

/// Busy-wait budget of the controller's self-clearing start bits.
pub const CTRL_POLL_BUDGET: u32 = 0xff_ffff;
/// Busy-wait budget of the memory PLL lock.
pub const PLL_DDR_LOCK_BUDGET: u32 = 0xffff_ffff;

/// First timing register, tuned for a 156 MHz DDR clock.
pub const DRAM_STMG0_VALUE: u32 = 0xb7ce_edc2;
/// Second timing register: init, init-refresh, WTR, RRD and XP fields.
pub const DRAM_STMG1_VALUE: u32 = 0x00a7_0008;

/// Chip variant, which decides the expected memory size.
#[derive(Clone, Copy, PartialEq, Eq, Debug, Structural)]
pub enum Chip {
    /// 32 MB DDR1.
    F1C100S,
    /// 64 MB DDR1.
    F1C200S,
}

/// What a bring-up run is asked for.
#[derive(Clone, Copy, Debug)]
pub struct DramConfig {
    pub chip: Chip,
    /// Frequency of the memory PLL in Hz.
    pub pll_ddr_hz: u32,
}

impl Default for DramConfig {
    fn default() -> (r: DramConfig)
        ensures
            r.chip == Chip::F1C200S,
            r.pll_ddr_hz == 156_000_000,
    {
        DramConfig { chip: Chip::F1C200S, pll_ddr_hz: 156_000_000 }
    }
}

/// Result of a successful bring-up.
#[derive(Clone, Copy, Debug, PartialEq, Eq, Structural)]
pub struct DramInfo {
    /// Start of the memory window.
    pub base: u32,
    /// Detected size in MB.
    pub size_mb: u32,
}

/// Memory signalling discipline.
#[derive(Clone, Copy, PartialEq, Eq, Debug, Structural)]
pub enum DramType {
    Sdr,
    Ddr,
}

impl DramType {
    pub open spec fn bit(self) -> u32 {
        match self {
            DramType::Sdr => 0,
            DramType::Ddr => 1,
        }
    }

    /// The encoding in the geometry register.
    pub fn to_bit(self) -> (r: u32)
        ensures
            r == self.bit(),
    {
        match self {
            DramType::Sdr => 0,
            DramType::Ddr => 1,
        }
    }
}

/// Working record of one bring-up run, refined as detection proceeds.
#[derive(Clone, Copy, Debug)]
pub struct DramPara {
    pub base: u32,
    /// Size in MB.
    pub size: u32,
    /// Memory clock in MHz.
    pub clk: u32,
    pub access_mode: u32,
    pub cs_num: u32,
    pub ddr8_remap: u32,
    pub sdr_ddr: DramType,
    pub bwidth: u32,
    pub col_width: u32,
    pub row_width: u32,
    pub bank_size: u32,
    /// CAS latency and feature bits.
    pub cas: u32,
}

/// The fields of the geometry register, as decoded from its bits.
#[derive(Clone, Copy, Debug, PartialEq, Eq, Structural)]
pub struct Geometry {
    pub ddr8_remap: u32,
    pub bank_size: u32,
    pub cs_num: u32,
    pub row_width: u32,
    pub col_width: u32,
    pub bwidth: u32,
    pub access_mode: u32,
    pub sdr_ddr: DramType,
}

impl DramPara {
    /// The fields that the geometry register can hold.
    pub open spec fn valid(self) -> bool {
        &&& self.ddr8_remap <= 1
        &&& (self.bank_size == 2 || self.bank_size == 4)
        &&& (self.cs_num == 1 || self.cs_num == 2)
        &&& 1 <= self.row_width <= 16
        &&& 1 <= self.col_width <= 16
        &&& (self.bwidth == 16 || self.bwidth == 32)
        &&& self.access_mode <= 1
    }

    pub open spec fn geometry(self) -> Geometry {
        Geometry {
            ddr8_remap: self.ddr8_remap,
            bank_size: self.bank_size,
            cs_num: self.cs_num,
            row_width: self.row_width,
            col_width: self.col_width,
            bwidth: self.bwidth,
            access_mode: self.access_mode,
            sdr_ddr: self.sdr_ddr,
        }
    }

    pub open spec fn expected_size(chip: Chip) -> u32 {
        match chip {
            Chip::F1C100S => 32,
            Chip::F1C200S => 64,
        }
    }

    /// The starting guess for a run: the chip's expected size, 10 column and
    /// 13 row bits, DDR signalling on a 16-bit bus.
    pub fn from_config(cfg: &DramConfig) -> (r: DramPara)
        ensures
            r.base == SDRAM_BASE,
            r.size == Self::expected_size(cfg.chip),
            r.clk == cfg.pll_ddr_hz / 1_000_000,
            r.access_mode == 1,
            r.cs_num == 1,
            r.ddr8_remap == 0,
            r.sdr_ddr == DramType::Ddr,
            r.bwidth == 16,
            r.col_width == 10,
            r.row_width == 13,
            r.bank_size == 4,
            r.cas == 3,
            r.valid(),
    {
        let size: u32 = match cfg.chip {
            Chip::F1C100S => 32,
            Chip::F1C200S => 64,
        };
        DramPara {
            base: SDRAM_BASE,
            size,
            clk: cfg.pll_ddr_hz / 1_000_000,
            access_mode: 1,
            cs_num: 1,
            ddr8_remap: 0,
            sdr_ddr: DramType::Ddr,
            bwidth: 16,
            col_width: 10,
            row_width: 13,
            bank_size: 4,
            cas: 3,
        }
    }
}

/// Width code of the data bus, which the two signalling modes encode differently.
pub open spec fn bus_width_code(bwidth: u32, t: DramType) -> u32 {
    match t {
        DramType::Ddr => bwidth >> 4,
        DramType::Sdr => bwidth >> 5,
    }
}

pub open spec fn pack_geometry(
    remap: u32,
    bank: u32,
    cs: u32,
    row: u32,
    col: u32,
    bw: u32,
    mode: u32,
    t: u32,
) -> u32 {
    remap | (1u32 << 1u32) | (bank << 3u32) | (cs << 4u32) | (row << 5u32) | (col << 9u32) | (bw
        << 13u32) | (mode << 15u32) | (t << 16u32)
}

/// The geometry register value for `p`.
pub open spec fn geometry_word_spec(p: DramPara) -> u32 {
    pack_geometry(
        p.ddr8_remap,
        p.bank_size >> 2,
        p.cs_num >> 1,
        (p.row_width - 1) as u32,
        (p.col_width - 1) as u32,
        bus_width_code(p.bwidth, p.sdr_ddr),
        p.access_mode,
        p.sdr_ddr.bit(),
    )
}

/// Signalling discipline held in bit 16 of a geometry word.
pub open spec fn type_of_word(v: u32) -> DramType {
    if (v >> 16u32) & 1 == 1 {
        DramType::Ddr
    } else {
        DramType::Sdr
    }
}

/// Reads the geometry fields back out of a geometry register value.
pub open spec fn decode_geometry_spec(v: u32) -> Geometry {
    let t = type_of_word(v);
    let bw = (v >> 13u32) & 3;
    Geometry {
        ddr8_remap: v & 1,
        bank_size: if (v >> 3u32) & 1 == 1 { 4 } else { 2 },
        cs_num: (((v >> 4u32) & 1) + 1) as u32,
        row_width: (((v >> 5u32) & 0xf) + 1) as u32,
        col_width: (((v >> 9u32) & 0xf) + 1) as u32,
        bwidth: match t {
            DramType::Ddr => bw << 4u32,
            DramType::Sdr => ((bw + 1) as u32) << 4u32,
        },
        access_mode: (v >> 15u32) & 1,
        sdr_ddr: t,
    }
}

proof fn lemma_pack_fields(remap: u32, bank: u32, cs: u32, row: u32, col: u32, bw: u32, mode: u32, t: u32)
    requires
        remap <= 1,
        bank <= 1,
        cs <= 1,
        row < 16,
        col < 16,
        bw <= 2,
        mode <= 1,
        t <= 1,
    ensures
        pack_geometry(remap, bank, cs, row, col, bw, mode, t) & 1 == remap,
        (pack_geometry(remap, bank, cs, row, col, bw, mode, t) >> 3u32) & 1 == bank,
        (pack_geometry(remap, bank, cs, row, col, bw, mode, t) >> 4u32) & 1 == cs,
        (pack_geometry(remap, bank, cs, row, col, bw, mode, t) >> 5u32) & 0xf == row,
        (pack_geometry(remap, bank, cs, row, col, bw, mode, t) >> 9u32) & 0xf == col,
        (pack_geometry(remap, bank, cs, row, col, bw, mode, t) >> 13u32) & 3 == bw,
        (pack_geometry(remap, bank, cs, row, col, bw, mode, t) >> 15u32) & 1 == mode,
        (pack_geometry(remap, bank, cs, row, col, bw, mode, t) >> 16u32) & 1 == t,
{
    assert(pack_geometry(remap, bank, cs, row, col, bw, mode, t) & 1 == remap
        && (pack_geometry(remap, bank, cs, row, col, bw, mode, t) >> 3u32) & 1 == bank
        && (pack_geometry(remap, bank, cs, row, col, bw, mode, t) >> 4u32) & 1 == cs
        && (pack_geometry(remap, bank, cs, row, col, bw, mode, t) >> 5u32) & 0xf == row
        && (pack_geometry(remap, bank, cs, row, col, bw, mode, t) >> 9u32) & 0xf == col
        && (pack_geometry(remap, bank, cs, row, col, bw, mode, t) >> 13u32) & 3 == bw
        && (pack_geometry(remap, bank, cs, row, col, bw, mode, t) >> 15u32) & 1 == mode
        && (pack_geometry(remap, bank, cs, row, col, bw, mode, t) >> 16u32) & 1 == t) by (bit_vector)
        requires
            remap <= 1,
            bank <= 1,
            cs <= 1,
            row < 16,
            col < 16,
            bw <= 2,
            mode <= 1,
            t <= 1,
    ;
}

/// Assembling the geometry register loses nothing: decoding the word gives
/// back every field of a valid working record.
pub proof fn lemma_geometry_round_trip(p: DramPara)
    requires
        p.valid(),
    ensures
        decode_geometry_spec(geometry_word_spec(p)) == p.geometry(),
{
    let bs = p.bank_size;
    let cn = p.cs_num;
    let bwd = p.bwidth;
    let bank = bs >> 2;
    let cs = cn >> 1;
    let bw = bus_width_code(p.bwidth, p.sdr_ddr);
    assert(bank == (if bs == 4 { 1u32 } else { 0u32 })) by (bit_vector)
        requires bs == 2 || bs == 4, bank == bs >> 2;
    assert(cs == cn - 1) by (bit_vector)
        requires cn == 1 || cn == 2, cs == cn >> 1;
    assert(
        (bwd >> 4) <= 2 && (bwd >> 5) <= 1
        && ((bwd >> 4) << 4) == bwd && ((((bwd >> 5) + 1) as u32) << 4) == bwd
    ) by (bit_vector)
        requires bwd == 16 || bwd == 32;
    lemma_pack_fields(
        p.ddr8_remap,
        bank,
        cs,
        (p.row_width - 1) as u32,
        (p.col_width - 1) as u32,
        bw,
        p.access_mode,
        p.sdr_ddr.bit(),
    );
}

/// The geometry register value for `para`.
pub fn geometry_word(para: &DramPara) -> (r: u32)
    requires
        para.valid(),
    ensures
        r == geometry_word_spec(*para),
        decode_geometry_spec(r) == para.geometry(),
{
    proof {
        lemma_geometry_round_trip(*para);
    }
    let bw_shift = if para.sdr_ddr != DramType::Sdr {
        para.bwidth >> 4
    } else {
        para.bwidth >> 5
    };
    para.ddr8_remap | (0x1 << 1) | ((para.bank_size >> 2) << 3) | ((para.cs_num >> 1) << 4) | ((
    para.row_width - 1) << 5) | ((para.col_width - 1) << 9) | (bw_shift << 13) | (para.access_mode
        << 15) | (para.sdr_ddr.to_bit() << 16)
}

/// Reads the geometry fields back out of a geometry register value.
pub fn decode_geometry(v: u32) -> (r: Geometry)
    ensures
        r == decode_geometry_spec(v),
{
    let t = if (v >> 16) & 1 == 1 {
        DramType::Ddr
    } else {
        DramType::Sdr
    };
    let bw = (v >> 13) & 3;
    assert(bw <= 3 && ((v >> 5u32) & 0xf) < 16 && ((v >> 9u32) & 0xf) < 16 && (v >> 4u32) & 1 <= 1)
        by (bit_vector) requires bw == (v >> 13u32) & 3;
    Geometry {
        ddr8_remap: v & 1,
        bank_size: if (v >> 3) & 1 == 1 { 4 } else { 2 },
        cs_num: ((v >> 4) & 1) + 1,
        row_width: ((v >> 5) & 0xf) + 1,
        col_width: ((v >> 9) & 0xf) + 1,
        bwidth: match t {
            DramType::Ddr => bw << 4,
            DramType::Sdr => (bw + 1) << 4,
        },
        access_mode: (v >> 15) & 1,
        sdr_ddr: t,
    }
}


// ---------------------------------------------------------------------------
// Decisions of the bring-up, as functions of what was read back
// ---------------------------------------------------------------------------

/// `clk + clk/8 + clk/16 + clk/32`, the refresh-scaled clock.
pub open spec fn refresh_scaled(clk: u32) -> int {
    clk + clk / 8 + clk / 16 + clk / 32
}

/// Auto-refresh counter for a memory clock `clk` and the row field of the
/// geometry register (`0xc` for 13 row bits, `0xb` for 12).
pub open spec fn refresh_count_spec(clk: u32, row_field: u32) -> u32 {
    if row_field == 0xc {
        if clk >= 1_000_000 {
            (refresh_scaled(clk) / 156_250) as u32
        } else {
            ((clk * 499) / 64) as u32
        }
    } else if row_field == 0xb {
        if clk >= 1_000_000 {
            (refresh_scaled(clk) / 78_125) as u32
        } else {
            ((clk * 499) / 32) as u32
        }
    } else {
        0
    }
}

/// Takes `threshold` away from `temp` as long as it can, counting the steps.
fn quantize(temp: u64, threshold: u64) -> (r: u32)
    requires
        threshold == 156_250 || threshold == 78_125,
        temp <= 0x2_0000_0000,
    ensures
        r == temp / threshold,
{
    let mut t = temp;
    let mut val: u32 = 0;
    while t >= threshold
        invariant
            threshold == 156_250 || threshold == 78_125,
            val * threshold + t == temp,
            temp <= 0x2_0000_0000,
        decreases t,
    {
        t = t - threshold;
        val = val + 1;
    }
    assert(val == temp / threshold) by (nonlinear_arith)
        requires
            val * threshold + t == temp,
            t < threshold,
            threshold > 0,
    ;
    val
}

/// The auto-refresh counter value, counted down the way the hardware counter
/// consumes cycles.
pub fn refresh_count(clk: u32, row_field: u32) -> (r: u32)
    ensures
        r == refresh_count_spec(clk, row_field),
{
    if row_field != 0xc && row_field != 0xb {
        return 0;
    }
    if clk >= 1_000_000 {
        assert(clk >> 3u32 == clk / 8 && clk >> 4u32 == clk / 16 && clk >> 5u32 == clk / 32) by (bit_vector);
        let temp: u64 = clk as u64 + (clk >> 3) as u64 + (clk >> 4) as u64 + (clk >> 5) as u64;
        // 10 MHz scaled down by 64 for 13 row bits, by 128 for 12.
        let threshold: u64 = if row_field == 0xc {
            156_250
        } else {
            78_125
        };
        quantize(temp, threshold)
    } else {
        let scaled: u32 = clk * 499;
        assert(scaled >> 6u32 == scaled / 64 && scaled >> 5u32 == scaled / 32) by (bit_vector);
        if row_field == 0xc {
            scaled >> 6
        } else {
            scaled >> 5
        }
    }
}

/// What a marker word says of an earlier bring-up: with `'X'` in its top byte,
/// a bring-up that found as many MB as its low 24 bits say.
pub open spec fn marker_info_spec(w: u32) -> Option<DramInfo> {
    if w / 0x100_0000 == DRAM_MARKER_TAG {
        Some(DramInfo { base: SDRAM_BASE, size_mb: (w % 0x100_0000) as u32 })
    } else {
        None
    }
}

/// The marker word recording a bring-up that found `size_mb` MB.
pub open spec fn marker_word_spec(size_mb: u32) -> u32 {
    (DRAM_MARKER_TAG * 0x100_0000 + size_mb) as u32
}

/// Decodes a marker word: `Some` when its top byte is `'X'`.
pub fn marker_info(w: u32) -> (r: Option<DramInfo>)
    ensures
        r == marker_info_spec(w),
{
    assert(w >> 24u32 == w / 0x100_0000 && w & 0x00ff_ffff == w % 0x100_0000) by (bit_vector);
    if (w >> 24) == DRAM_MARKER_TAG {
        Some(DramInfo { base: SDRAM_BASE, size_mb: w & 0x00ff_ffff })
    } else {
        None
    }
}

/// The marker word recording a bring-up that found `size_mb` MB.
pub fn marker_word(size_mb: u32) -> (r: u32)
    requires
        size_mb <= 0x00ff_ffff,
    ensures
        r == marker_word_spec(size_mb),
        marker_info_spec(r) == Some(DramInfo { base: SDRAM_BASE, size_mb }),
{
    proof {
        lemma_marker_round_trip(size_mb);
    }
    assert((0x58u32 << 24u32) | size_mb == 0x58 * 0x100_0000 + size_mb) by (bit_vector)
        requires
            size_mb <= 0x00ff_ffff,
    ;
    (DRAM_MARKER_TAG << 24) | size_mb
}

/// A marker written after a bring-up is read back as that bring-up's result.
pub proof fn lemma_marker_round_trip(size_mb: u32)
    requires
        size_mb <= 0x00ff_ffff,
    ensures
        marker_info_spec(marker_word_spec(size_mb)) == Some(DramInfo { base: SDRAM_BASE, size_mb }),
{
}

/// Pad driving strength preset for a memory clock in MHz: the reset default
/// below 144 MHz, a mid-strength preset up to 180 MHz, the maximum above.
pub open spec fn pad_drive_spec(clk: u32) -> Option<u32> {
    if clk >= 180 {
        Some(0xfff)
    } else if clk >= 144 {
        Some(0xaaa)
    } else {
        None
    }
}

pub fn pad_drive_preset(clk: u32) -> (r: Option<u32>)
    ensures
        r == pad_drive_spec(clk),
{
    if clk >= 180 {
        Some(0xfff)
    } else if clk >= 144 {
        Some(0xaaa)
    } else {
        None
    }
}

/// Memory PLL control word for a clock of `clk` MHz and the feature bits `cas`.
pub open spec fn pll_ddr_word_spec(clk: u32, cas: u32) -> u32 {
    let base = if clk <= 96 {
        1u32 | ((((clk * 2) / 12 - 1) as u32) << 8u32) | 0x8000_0000u32
    } else {
        ((((clk * 2) / 24 - 1) as u32) << 8u32) | 0x8000_0000u32
    };
    if cas & 0xf0 != 0 {
        base | 0x0100_0000u32
    } else {
        base
    }
}

pub fn pll_ddr_word(clk: u32, cas: u32) -> (r: u32)
    requires
        6 <= clk <= 4294,
    ensures
        r == pll_ddr_word_spec(clk, cas),
{
    let val = if clk <= 96 {
        0x1 | (((clk * 2) / 12 - 1) << 8) | 0x8000_0000
    } else {
        (((clk * 2) / 24 - 1) << 8) | 0x8000_0000
    };
    if cas & 0xf0 != 0 {
        val | 0x0100_0000
    } else {
        val
    }
}

/// Sigma-delta pattern for the memory PLL, picked by the first of bits 4..7 of
/// `cas` that is set; none when none is.
pub open spec fn pll_ddr_pattern_spec(cas: u32) -> Option<u32> {
    if cas & 0x10 != 0 {
        Some(0xd130_3333)
    } else if cas & 0x20 != 0 {
        Some(0xcce0_6666)
    } else if cas & 0x40 != 0 {
        Some(0xc890_9999)
    } else if cas & 0x80 != 0 {
        Some(0xc440_cccc)
    } else {
        None
    }
}

pub fn pll_ddr_pattern(cas: u32) -> (r: Option<u32>)
    ensures
        r == pll_ddr_pattern_spec(cas),
{
    if cas & 0x10 != 0 {
        Some(0xd130_3333)
    } else if cas & 0x20 != 0 {
        Some(0xcce0_6666)
    } else if cas & 0x40 != 0 {
        Some(0xc890_9999)
    } else if cas & 0x80 != 0 {
        Some(0xc440_cccc)
    } else {
        None
    }
}

/// The memory is SDR exactly when all eight read-pipe settings reported a
/// failed delay scan.
pub fn classify_type(failed_scans: u32) -> (r: DramType)
    ensures
        r == (if failed_scans == 8 { DramType::Sdr } else { DramType::Ddr }),
{
    if failed_scans == 8 {
        DramType::Sdr
    } else {
        DramType::Ddr
    }
}

/// A delay scan found a valid window when both status bits 4 and 5 are clear.
pub fn scan_window_ok(ddlyr: u32) -> (r: bool)
    ensures
        r == ((ddlyr >> 4u32) & 0x3 == 0),
{
    (ddlyr >> 4) & 0x3 == 0
}

/// `i` is the first position of a largest element of `s`.
pub open spec fn is_first_max(s: Seq<u32>, i: int) -> bool {
    &&& 0 <= i < s.len()
    &&& forall|j: int| 0 <= j < s.len() ==> s[j] <= s[i]
    &&& forall|j: int| 0 <= j < i ==> s[j] < s[i]
}

/// The best read-pipe setting: the highest score, the lowest index on a tie.
pub fn best_readpipe(scores: &Vec<u32>) -> (r: u32)
    requires
        1 <= scores@.len() <= 8,
    ensures
        is_first_max(scores@, r as int),
{
    let mut rp_best: u32 = 0;
    let mut rp_val: u32 = 0;
    let mut i: usize = 0;
    while i < scores.len()
        invariant
            1 <= scores@.len() <= 8,
            i <= scores@.len(),
            rp_best as int <= i,
            rp_best < scores@.len(),
            forall|j: int| 0 <= j < i ==> scores@[j] <= rp_val,
            forall|j: int| 0 <= j < rp_best ==> scores@[j] < rp_val,
            i > 0 ==> scores@[rp_best as int] == rp_val,
            i == 0 ==> rp_val == 0 && rp_best == 0,
        decreases scores@.len() - i,
    {
        if rp_val < scores[i] {
            rp_val = scores[i];
            rp_best = i as u32;
        }
        i = i + 1;
    }
    rp_best
}

/// Number of set bits of `x`.
pub open spec fn ones(x: u32) -> nat
    decreases x,
{
    if x == 0 {
        0
    } else {
        (x % 2) as nat + ones(x / 2)
    }
}

proof fn lemma_ones_bound(x: u32)
    ensures
        ones(x) <= 32,
    decreases x,
{
    vstd::arithmetic::power2::lemma2_to64();
    lemma_ones_below(x, 32);
}

proof fn lemma_ones_below(x: u32, k: nat)
    requires
        x < pow2(k),
    ensures
        ones(x) <= k,
    decreases k,
{
    if x != 0 {
        if k == 0 {
            vstd::arithmetic::power2::lemma2_to64();
        } else {
            assert(pow2(k) == 2 * pow2((k - 1) as nat)) by {
                vstd::arithmetic::power2::lemma_pow2_unfold(k);
            }
            lemma_ones_below((x / 2) as u32, (k - 1) as nat);
        }
    }
}

/// Counts the set bits of `x`.
pub fn count_ones(x: u32) -> (r: u32)
    ensures
        r == ones(x),
        r <= 32,
{
    let mut v = x;
    let mut n: u32 = 0;
    proof {
        lemma_ones_bound(x);
    }
    while v != 0
        invariant
            n + ones(v) == ones(x),
            ones(x) <= 32,
        decreases v,
    {
        assert(v & 1 == v % 2 && v >> 1u32 == v / 2) by (bit_vector);
        n = n + (v & 1);
        v = v >> 1;
    }
    n
}

/// Total number of set bits over `s`.
pub open spec fn total_ones(s: Seq<u32>) -> nat
    decreases s.len(),
{
    if s.len() == 0 {
        0
    } else {
        total_ones(s.drop_last()) + ones(s.last())
    }
}

/// Scores a read-pipe setting by the set bits of its delay-pointer words.
pub fn delay_score(flags: &Vec<u32>) -> (r: u32)
    requires
        flags@.len() <= 4,
    ensures
        r == total_ones(flags@),
{
    let mut num: u32 = 0;
    let mut i: usize = 0;
    while i < flags.len()
        invariant
            flags@.len() <= 4,
            i <= flags@.len(),
            num == total_ones(flags@.subrange(0, i as int)),
            num <= 32 * i,
        decreases flags@.len() - i,
    {
        let c = count_ones(flags[i]);
        assert(flags@.subrange(0, i as int + 1).drop_last() == flags@.subrange(0, i as int));
        num = num + c;
        i = i + 1;
    }
    assert(flags@.subrange(0, flags@.len() as int) == flags@);
    num
}

/// Width found by an aliasing probe: the narrower one when all 32 words aliased.
pub fn width_from_probe(aliased: u32, narrow: u32, wide: u32) -> (r: u32)
    ensures
        r == (if aliased == 32 { narrow } else { wide }),
{
    if aliased == 32 {
        narrow
    } else {
        wide
    }
}

/// Size in MB of a part with the given column and row widths.
pub open spec fn size_for_spec(col_width: u32, row_width: u32) -> u32 {
    if row_width != 13 {
        16
    } else if col_width == 10 {
        64
    } else {
        32
    }
}

pub fn size_for(col_width: u32, row_width: u32) -> (r: u32)
    ensures
        r == size_for_spec(col_width, row_width),
{
    if row_width != 13 {
        16
    } else if col_width == 10 {
        64
    } else {
        32
    }
}

/// The two addresses of the row-width probe, which depend on the column width.
pub fn row_probe_addrs(col_width: u32) -> (r: (u32, u32))
    ensures
        r == (if col_width == 10 { (0x8040_0000u32, 0x80c0_0000u32) } else { (0x8020_0000u32, 0x8060_0000u32) }),
{
    if col_width == 10 {
        (0x8040_0000u32, 0x80c0_0000u32)
    } else {
        (0x8020_0000u32, 0x8060_0000u32)
    }
}


// ---------------------------------------------------------------------------
// Controller operations over the bus
// ---------------------------------------------------------------------------

/// `t1` continues `t0` and leaves the marker word alone.
pub open spec fn spares(t0: Seq<BusOp>, t1: Seq<BusOp>) -> bool {
    extends_sparing(t0, t1, DRAM_MARKER_ADDR)
}

/// `t[k]` reads `addr` and `t[k + 1]` writes back the word read with the bits
/// of `clear` cleared and those of `set` set.
pub open spec fn rmw_at(t: Seq<BusOp>, k: int, addr: u32, clear: u32, set: u32) -> bool {
    &&& 0 <= k
    &&& k + 1 < t.len()
    &&& t[k].is_read_of(addr)
    &&& t[k + 1] == (BusOp::Write { addr, value: (t[k].value() & !clear) | set })
}

/// `t[a..b]` starts the self-clearing operation of `reg`: bit 0 is set by a
/// read-modify-write, then `reg` is polled, every poll but the last seeing the
/// bit still set.
pub open spec fn start_seg(t: Seq<BusOp>, a: int, b: int, reg: u32) -> bool {
    &&& rmw_at(t, a, reg, 0, 1)
    &&& a + 2 < b <= t.len()
    &&& forall|k: int| a + 2 <= k < b ==> (#[trigger] t[k]).is_read_of(reg)
    &&& forall|k: int| a + 2 <= k < b - 1 ==> (#[trigger] t[k]).value() & 1 != 0
}

/// The operation whose last poll is `t[b - 1]` finished: bit 0 read clear.
pub open spec fn started(t: Seq<BusOp>, b: int) -> bool {
    t[b - 1].value() & 1 == 0
}

/// `t[a..b]` writes the geometry register for `p` and starts the controller.
pub open spec fn setup_seg(t: Seq<BusOp>, a: int, b: int, p: DramPara) -> bool {
    &&& 0 <= a
    &&& t[a] == (BusOp::Write { addr: DRAM_SCONR, value: geometry_word_spec(p) })
    &&& rmw_at(t, a + 1, DRAM_SCTLR, 0, 0x8_0000)
    &&& start_seg(t, a + 3, b, DRAM_SCTLR)
}

/// `t[a..a + 2]` selects read-pipe setting `i`.
pub open spec fn select_at(t: Seq<BusOp>, a: int, i: u32) -> bool {
    rmw_at(t, a, DRAM_SCTLR, 0x1c0, i << 6u32)
}

proof fn lemma_rmw_kept(t1: Seq<BusOp>, t2: Seq<BusOp>, k: int, addr: u32, clear: u32, set: u32)
    requires
        rmw_at(t1, k, addr, clear, set),
        extends(t1, t2),
    ensures
        rmw_at(t2, k, addr, clear, set),
{
    assert(t2[k] == t1[k] && t2[k + 1] == t1[k + 1]);
}

proof fn lemma_start_kept(t1: Seq<BusOp>, t2: Seq<BusOp>, a: int, b: int, reg: u32)
    requires
        start_seg(t1, a, b, reg),
        extends(t1, t2),
    ensures
        start_seg(t2, a, b, reg),
        started(t2, b) == started(t1, b),
{
    lemma_rmw_kept(t1, t2, a, reg, 0, 1);
    assert forall|k: int| a + 2 <= k < b implies (#[trigger] t2[k]).is_read_of(reg) by {
        assert(t2[k] == t1[k]);
    }
    assert forall|k: int| a + 2 <= k < b - 1 implies (#[trigger] t2[k]).value() & 1 != 0 by {
        assert(t2[k] == t1[k]);
    }
    assert(t2[b - 1] == t1[b - 1]);
}

proof fn lemma_setup_kept(t1: Seq<BusOp>, t2: Seq<BusOp>, a: int, b: int, p: DramPara)
    requires
        setup_seg(t1, a, b, p),
        extends(t1, t2),
    ensures
        setup_seg(t2, a, b, p),
        started(t2, b) == started(t1, b),
{
    assert(t2[a] == t1[a]);
    lemma_rmw_kept(t1, t2, a + 1, DRAM_SCTLR, 0, 0x8_0000);
    lemma_start_kept(t1, t2, a + 3, b, DRAM_SCTLR);
}

/// Read-modify-write of a register outside the marker.
fn modify<H: RegisterBus>(bus: &mut Bus<H>, addr: u32, clear: u32, set: u32)
    requires
        addr != DRAM_MARKER_ADDR,
    ensures
        spares(old(bus).trace(), final(bus).trace()),
        final(bus).trace().len() == old(bus).trace().len() + 2,
        final(bus).trace()[old(bus).trace().len() as int].is_read_of(addr),
        final(bus).trace()[old(bus).trace().len() as int + 1] == (BusOp::Write {
            addr,
            value: (final(bus).trace()[old(bus).trace().len() as int].value() & !clear) | set,
        }),
        rmw_at(final(bus).trace(), old(bus).trace().len() as int, addr, clear, set),
{
    let v = bus.read32(addr);
    bus.write32(addr, (v & !clear) | set);
}

fn dram_delay(ms: u32)
    requires
        ms <= 1000,
{
    crate::delay::sdelay(ms * 2 * 1000);
}

/// Sets the start bit of `reg` and waits, within the controller budget, for the
/// hardware to clear it. `true` when it was seen clear.
fn start_and_wait<H: RegisterBus>(bus: &mut Bus<H>, reg: u32) -> (ok: bool)
    requires
        reg != DRAM_MARKER_ADDR,
    ensures
        spares(old(bus).trace(), final(bus).trace()),
        final(bus).trace().len() > old(bus).trace().len() + 2,
        final(bus).trace().last().is_read_of(reg),
        ok == (final(bus).trace().last().value() & 1 == 0),
        start_seg(final(bus).trace(), old(bus).trace().len() as int, final(bus).trace().len() as int, reg),
        ok == started(final(bus).trace(), final(bus).trace().len() as int),
{
    modify(bus, reg, 0, 0x1);
    let ghost a = old(bus).trace().len() as int;
    let mut time: u32 = CTRL_POLL_BUDGET;
    loop
        invariant
            reg != DRAM_MARKER_ADDR,
            spares(old(bus).trace(), bus.trace()),
            bus.trace().len() >= old(bus).trace().len() + 2,
            a == old(bus).trace().len(),
            rmw_at(bus.trace(), a, reg, 0, 1),
            forall|k: int| a + 2 <= k < bus.trace().len() ==> (#[trigger] bus.trace()[k]).is_read_of(reg),
            forall|k: int| a + 2 <= k < bus.trace().len() ==> (#[trigger] bus.trace()[k]).value() & 1 != 0,
            time >= 1,
        decreases time,
    {
        let v = bus.read32(reg);
        if v & 0x1 == 0 {
            return true;
        }
        time = time - 1;
        if time == 0 {
            return false;
        }
    }
}

/// Starts the controller's initial sequence and waits for it to finish.
fn dram_initial<H: RegisterBus>(bus: &mut Bus<H>) -> (ok: bool)
    ensures
        spares(old(bus).trace(), final(bus).trace()),
        final(bus).trace().last().is_read_of(DRAM_SCTLR),
        ok == (final(bus).trace().last().value() & 1 == 0),
        start_seg(final(bus).trace(), old(bus).trace().len() as int, final(bus).trace().len() as int, DRAM_SCTLR),
{
    start_and_wait(bus, DRAM_SCTLR)
}

/// Starts a delay scan and waits for it to finish.
fn dram_delay_scan<H: RegisterBus>(bus: &mut Bus<H>) -> (ok: bool)
    ensures
        spares(old(bus).trace(), final(bus).trace()),
        final(bus).trace().last().is_read_of(DRAM_DDLYR),
        ok == (final(bus).trace().last().value() & 1 == 0),
        start_seg(final(bus).trace(), old(bus).trace().len() as int, final(bus).trace().len() as int, DRAM_DDLYR),
{
    start_and_wait(bus, DRAM_DDLYR)
}

/// Programs the auto-refresh counter from the row field of the geometry register.
fn dram_set_autofresh_cycle<H: RegisterBus>(bus: &mut Bus<H>, clk: u32)
    ensures
        spares(old(bus).trace(), final(bus).trace()),
        final(bus).trace().len() == old(bus).trace().len() + 2,
        final(bus).trace()[old(bus).trace().len() as int].is_read_of(DRAM_SCONR),
        final(bus).trace()[old(bus).trace().len() as int + 1] == (BusOp::Write {
            addr: DRAM_SREFR,
            value: refresh_count_spec(
                clk,
                (final(bus).trace()[old(bus).trace().len() as int].value() & 0x1e0) >> 5u32,
            ),
        }),
        refresh_at(final(bus).trace(), old(bus).trace().len() as int, clk),
{
    let row = (bus.read32(DRAM_SCONR) & 0x1e0) >> 5;
    let val = refresh_count(clk, row);
    bus.write32(DRAM_SREFR, val);
}

/// Writes the geometry register for `para` and restarts the controller.
fn dram_para_setup<H: RegisterBus>(bus: &mut Bus<H>, para: &DramPara) -> (ok: bool)
    requires
        para.valid(),
    ensures
        spares(old(bus).trace(), final(bus).trace()),
        final(bus).trace()[old(bus).trace().len() as int] == (BusOp::Write {
            addr: DRAM_SCONR,
            value: geometry_word_spec(*para),
        }),
        final(bus).trace().last().is_read_of(DRAM_SCTLR),
        ok == (final(bus).trace().last().value() & 1 == 0),
        setup_seg(final(bus).trace(), old(bus).trace().len() as int, final(bus).trace().len() as int, *para),
        ok == started(final(bus).trace(), final(bus).trace().len() as int),
{
    let val = geometry_word(para);
    bus.write32(DRAM_SCONR, val);
    let ghost t1 = bus.trace();
    modify(bus, DRAM_SCTLR, 0, 0x8_0000);
    let ghost t2 = bus.trace();
    let ok = dram_initial(bus);
    proof {
        lemma_rmw_kept(t2, bus.trace(), old(bus).trace().len() as int + 1, DRAM_SCTLR, 0, 0x8_0000);
        assert(bus.trace()[old(bus).trace().len() as int] == t1[old(bus).trace().len() as int]);
    }
    ok
}

/// Number of delay-pointer status registers for a bus width.
pub open spec fn delay_regs(bwidth: u32) -> int {
    if bwidth == 16 {
        4
    } else {
        2
    }
}

/// Set bits over the words read at `t[a..a + n]`.
pub open spec fn reads_ones(t: Seq<BusOp>, a: int, n: int) -> nat
    decreases n,
{
    if n <= 0 {
        0
    } else {
        reads_ones(t, a, n - 1) + ones(t[a + n - 1].value())
    }
}

/// `t[a..b]` reads the delay-pointer status registers in order.
pub open spec fn delay_reads(t: Seq<BusOp>, a: int, b: int, bwidth: u32) -> bool {
    &&& 0 <= a
    &&& b == a + delay_regs(bwidth)
    &&& b <= t.len()
    &&& forall|j: int| 0 <= j < b - a ==> (#[trigger] t[a + j]).is_read_of((DRAM_DRPTR0 + 4 * j) as u32)
}

proof fn lemma_reads_ones_kept(t1: Seq<BusOp>, t2: Seq<BusOp>, a: int, n: int)
    requires
        extends(t1, t2),
        0 <= a,
        a + n <= t1.len(),
    ensures
        reads_ones(t2, a, n) == reads_ones(t1, a, n),
    decreases n,
{
    if n > 0 {
        lemma_reads_ones_kept(t1, t2, a, n - 1);
        assert(t2[a + n - 1] == t1[a + n - 1]);
    }
}

proof fn lemma_reads_ones_bound(t: Seq<BusOp>, a: int, n: int)
    ensures
        reads_ones(t, a, n) <= 32 * (if n < 0 { 0 } else { n }),
    decreases n,
{
    if n > 0 {
        lemma_reads_ones_bound(t, a, n - 1);
        lemma_ones_bound(t[a + n - 1].value());
    }
}

/// Score of the current read-pipe setting: the set bits of the delay-pointer
/// status words, four of them on a 16-bit bus, two otherwise.
fn dram_check_delay<H: RegisterBus>(bus: &mut Bus<H>, bwidth: u32) -> (r: u32)
    ensures
        extends_reading(old(bus).trace(), final(bus).trace()),
        delay_reads(final(bus).trace(), old(bus).trace().len() as int, final(bus).trace().len() as int, bwidth),
        r == reads_ones(final(bus).trace(), old(bus).trace().len() as int, delay_regs(bwidth)),
        r <= 128,
{
    let dsize: u32 = if bwidth == 16 { 4 } else { 2 };
    let ghost a = old(bus).trace().len() as int;
    let mut num: u32 = 0;
    let mut i: u32 = 0;
    while i < dsize
        invariant
            dsize == delay_regs(bwidth),
            i <= dsize,
            a == old(bus).trace().len(),
            bus.trace().len() == a + i,
            extends_reading(old(bus).trace(), bus.trace()),
            forall|j: int| 0 <= j < i ==> (#[trigger] bus.trace()[a + j]).is_read_of((DRAM_DRPTR0 + 4 * j) as u32),
            num == reads_ones(bus.trace(), a, i as int),
            num <= 32 * i,
        decreases dsize - i,
    {
        let ghost t1 = bus.trace();
        let dflag = bus.read32(DRAM_DRPTR0 + 4 * i);
        let c = count_ones(dflag);
        proof {
            lemma_reads_ones_kept(t1, bus.trace(), a, i as int);
        }
        num = num + c;
        i = i + 1;
    }
    num
}

/// Selects read-pipe setting `i` in the control register.
fn select_readpipe<H: RegisterBus>(bus: &mut Bus<H>, i: u32)
    requires
        i < 8,
    ensures
        spares(old(bus).trace(), final(bus).trace()),
        final(bus).trace().len() == old(bus).trace().len() + 2,
        select_at(final(bus).trace(), old(bus).trace().len() as int, i),
{
    modify(bus, DRAM_SCTLR, 0x1c0, i << 6);
}

/// `t[a..b]` writes the 32-word ramp `k` at word `k` of memory, then reads it
/// back in order, stopping at the first word that differs.
pub open spec fn ramp_seg(t: Seq<BusOp>, a: int, b: int) -> bool {
    &&& 0 <= a
    &&& a + 32 < b <= a + 64
    &&& b <= t.len()
    &&& forall|k: int| 0 <= k < 32 ==> #[trigger] t[a + k] == (BusOp::Write {
        addr: (SDRAM_BASE + 4 * k) as u32,
        value: k as u32,
    })
    &&& forall|j: int| 0 <= j < b - a - 32 ==> (#[trigger] t[a + 32 + j]).is_read_of((SDRAM_BASE + 4 * j) as u32)
    &&& forall|j: int| 0 <= j < b - a - 33 ==> (#[trigger] t[a + 32 + j]).value() == j
    &&& b < a + 64 ==> t[b - 1].value() != b - a - 33
}

/// The ramp at `t[a..b]` read back intact.
pub open spec fn ramp_ok(t: Seq<BusOp>, a: int, b: int) -> bool {
    b == a + 64 && t[b - 1].value() == 31
}

proof fn lemma_ramp_kept(t1: Seq<BusOp>, t2: Seq<BusOp>, a: int, b: int)
    requires
        ramp_seg(t1, a, b),
        extends(t1, t2),
    ensures
        ramp_seg(t2, a, b),
        ramp_ok(t2, a, b) == ramp_ok(t1, a, b),
{
    assert forall|k: int| 0 <= k < 32 implies #[trigger] t2[a + k] == (BusOp::Write {
        addr: (SDRAM_BASE + 4 * k) as u32,
        value: k as u32,
    }) by {
        assert(t2[a + k] == t1[a + k]);
    }
    assert forall|j: int| 0 <= j < b - a - 32 implies (#[trigger] t2[a + 32 + j]).is_read_of((SDRAM_BASE + 4 * j) as u32) by {
        assert(t2[a + 32 + j] == t1[a + 32 + j]);
    }
    assert forall|j: int| 0 <= j < b - a - 33 implies (#[trigger] t2[a + 32 + j]).value() == j by {
        assert(t2[a + 32 + j] == t1[a + 32 + j]);
    }
    assert(t2[b - 1] == t1[b - 1]);
}

/// Writes an ascending 32-word ramp at the start of memory and reads it back.
fn sdr_readpipe_scan<H: RegisterBus>(bus: &mut Bus<H>) -> (ok: bool)
    ensures
        spares(old(bus).trace(), final(bus).trace()),
        ramp_seg(final(bus).trace(), old(bus).trace().len() as int, final(bus).trace().len() as int),
        ok == ramp_ok(final(bus).trace(), old(bus).trace().len() as int, final(bus).trace().len() as int),
{
    let ghost a = old(bus).trace().len() as int;
    let mut k: u32 = 0;
    while k < 32
        invariant
            k <= 32,
            a == old(bus).trace().len(),
            bus.trace().len() == a + k,
            spares(old(bus).trace(), bus.trace()),
            forall|m: int| 0 <= m < k ==> #[trigger] bus.trace()[a + m] == (BusOp::Write {
                addr: (SDRAM_BASE + 4 * m) as u32,
                value: m as u32,
            }),
        decreases 32 - k,
    {
        bus.write32(SDRAM_BASE + 4 * k, k);
        k = k + 1;
    }
    let mut k: u32 = 0;
    while k < 32
        invariant
            k <= 32,
            a == old(bus).trace().len(),
            bus.trace().len() == a + 32 + k,
            spares(old(bus).trace(), bus.trace()),
            forall|m: int| 0 <= m < 32 ==> #[trigger] bus.trace()[a + m] == (BusOp::Write {
                addr: (SDRAM_BASE + 4 * m) as u32,
                value: m as u32,
            }),
            forall|j: int| 0 <= j < k ==> (#[trigger] bus.trace()[a + 32 + j]).is_read_of((SDRAM_BASE + 4 * j) as u32),
            forall|j: int| 0 <= j < k ==> (#[trigger] bus.trace()[a + 32 + j]).value() == j,
        decreases 32 - k,
    {
        if bus.read32(SDRAM_BASE + 4 * k) != k {
            return false;
        }
        k = k + 1;
    }
    assert(bus.trace()[a + 32 + 31].value() == 31);
    true
}

/// `t[a..b]` selects read-pipe setting `i` and runs the ramp test.
pub open spec fn sdr_iter(t: Seq<BusOp>, a: int, b: int, i: u32) -> bool {
    select_at(t, a, i) && ramp_seg(t, a + 2, b)
}

/// `bs` splits `t[bs[0]..bs[n]]` into `n` ramp tests of settings `0..n`, of
/// which all but possibly the last failed; `r` is the setting of the last one
/// when it passed, else `0` after all eight failed.
pub open spec fn sdr_choice(t: Seq<BusOp>, bs: Seq<int>, n: int, r: u32) -> bool {
    &&& 1 <= n <= 8
    &&& bs.len() == n + 1
    &&& forall|i: int| 0 <= i < n ==> #[trigger] sdr_iter(t, bs[i], bs[i + 1], i as u32)
    &&& forall|i: int| 0 <= i < n - 1 ==> !ramp_ok(t, #[trigger] bs[i] + 2, bs[i + 1])
    &&& if ramp_ok(t, bs[n - 1] + 2, bs[n]) {
        r == n - 1
    } else {
        n == 8 && r == 0
    }
}

/// The first read-pipe setting under which the ramp reads back intact, or 0.
fn sdr_readpipe_select<H: RegisterBus>(bus: &mut Bus<H>) -> (res: (u32, Ghost<Seq<int>>))
    ensures
        spares(old(bus).trace(), final(bus).trace()),
        res.0 < 8,
        sdr_choice(final(bus).trace(), res.1@, res.1@.len() - 1, res.0),
        res.1@[0] == old(bus).trace().len(),
        res.1@.last() == final(bus).trace().len(),
{
    let mut i: u32 = 0;
    let ghost mut bs: Seq<int> = seq![old(bus).trace().len() as int];
    while i < 8
        invariant
            i <= 8,
            spares(old(bus).trace(), bus.trace()),
            bs.len() == i + 1,
            bs[0] == old(bus).trace().len(),
            bs[i as int] == bus.trace().len(),
            forall|k: int| 0 <= k < i ==> #[trigger] sdr_iter(bus.trace(), bs[k], bs[k + 1], k as u32),
            forall|k: int| 0 <= k < i ==> !ramp_ok(bus.trace(), #[trigger] bs[k] + 2, bs[k + 1]),
        decreases 8 - i,
    {
        let ghost t0 = bus.trace();
        select_readpipe(bus, i);
        let ghost t1 = bus.trace();
        let ok = sdr_readpipe_scan(bus);
        proof {
            let t = bus.trace();
            lemma_rmw_kept(t1, t, t0.len() as int, DRAM_SCTLR, 0x1c0, i << 6u32);
            let bs2 = bs.push(t.len() as int);
            assert forall|k: int| 0 <= k < i + 1 implies #[trigger] sdr_iter(t, bs2[k], bs2[k + 1], k as u32) by {
                if k < i {
                    assert(bs2[k] == bs[k] && bs2[k + 1] == bs[k + 1]);
                    assert(sdr_iter(t0, bs[k], bs[k + 1], k as u32));
                    lemma_rmw_kept(t0, t, bs[k], DRAM_SCTLR, 0x1c0, (k as u32) << 6u32);
                    lemma_ramp_kept(t0, t, bs[k] + 2, bs[k + 1]);
                }
            }
            assert forall|k: int| 0 <= k < i implies !ramp_ok(t, #[trigger] bs2[k] + 2, bs2[k + 1]) by {
                assert(bs2[k] == bs[k] && bs2[k + 1] == bs[k + 1]);
                assert(sdr_iter(t0, bs[k], bs[k + 1], k as u32));
                assert(!ramp_ok(t0, bs[k] + 2, bs[k + 1]));
                lemma_ramp_kept(t0, t, bs[k] + 2, bs[k + 1]);
            }
            assert(bs2[i as int] + 2 == t1.len() && bs2[i as int + 1] == t.len());
            assert(ok == ramp_ok(t, bs2[i as int] + 2, bs2[i as int + 1]));
            bs = bs2;
        }
        if ok {
            return (i, Ghost(bs));
        }
        proof {
            let t = bus.trace();
            assert forall|k: int| 0 <= k < i + 1 implies !ramp_ok(t, #[trigger] bs[k] + 2, bs[k + 1]) by {
            }
        }
        i = i + 1;
    }
    (0, Ghost(bs))
}

/// `p` is `q` with at most the detection results changed: type, column and
/// row widths, size and access mode.
pub open spec fn same_board(p: DramPara, q: DramPara) -> bool {
    &&& p.base == q.base
    &&& p.clk == q.clk
    &&& p.cs_num == q.cs_num
    &&& p.ddr8_remap == q.ddr8_remap
    &&& p.bwidth == q.bwidth
    &&& p.bank_size == q.bank_size
    &&& p.cas == q.cas
}

/// `t[a..b]` selects read-pipe setting `i`, runs a delay scan, and reads the
/// scan's status at `t[b - 1]`.
pub open spec fn scan_iter(t: Seq<BusOp>, a: int, b: int, i: u32) -> bool {
    &&& select_at(t, a, i)
    &&& start_seg(t, a + 2, b - 1, DRAM_DDLYR)
    &&& b <= t.len()
    &&& t[b - 1].is_read_of(DRAM_DDLYR)
}

proof fn lemma_scan_iter_kept(t1: Seq<BusOp>, t2: Seq<BusOp>, a: int, b: int, i: u32)
    requires
        scan_iter(t1, a, b, i),
        extends(t1, t2),
    ensures
        scan_iter(t2, a, b, i),
        t2[b - 1] == t1[b - 1],
{
    lemma_rmw_kept(t1, t2, a, DRAM_SCTLR, 0x1c0, i << 6u32);
    lemma_start_kept(t1, t2, a + 2, b - 1, DRAM_DDLYR);
}

/// `bs` splits `t[bs[0]..bs[n]]` into the sweeps of settings `0..n`.
pub open spec fn type_sweep(t: Seq<BusOp>, bs: Seq<int>, n: int) -> bool {
    &&& bs.len() == n + 1
    &&& forall|i: int| 0 <= i < n ==> #[trigger] scan_iter(t, bs[i], bs[i + 1], i as u32)
}

/// Sweeps among the first `n` of `bs` whose status reports a failure in bits 4..5.
pub open spec fn failed_count(t: Seq<BusOp>, bs: Seq<int>, n: int) -> nat
    decreases n,
{
    if n <= 0 {
        0
    } else {
        failed_count(t, bs, n - 1) + if t[bs[n] - 1].value() & 0x30 != 0 {
            1nat
        } else {
            0nat
        }
    }
}

proof fn lemma_type_sweep_kept(t1: Seq<BusOp>, t2: Seq<BusOp>, bs: Seq<int>, n: int)
    requires
        type_sweep(t1, bs, n),
        extends(t1, t2),
        0 <= n,
    ensures
        type_sweep(t2, bs, n),
        failed_count(t2, bs, n) == failed_count(t1, bs, n),
    decreases n,
{
    assert forall|i: int| 0 <= i < n implies #[trigger] scan_iter(t2, bs[i], bs[i + 1], i as u32) by {
        assert(scan_iter(t1, bs[i], bs[i + 1], i as u32));
        lemma_scan_iter_kept(t1, t2, bs[i], bs[i + 1], i as u32);
    }
    if n > 0 {
        let bs0 = bs.take(n);
        assert forall|i: int| 0 <= i < n - 1 implies #[trigger] scan_iter(t1, bs0[i], bs0[i + 1], i as u32) by {
            assert(bs0[i] == bs[i] && bs0[i + 1] == bs[i + 1]);
        }
        lemma_type_sweep_kept(t1, t2, bs0, n - 1);
        lemma_failed_prefix(t1, bs, bs0, n - 1);
        lemma_failed_prefix(t2, bs, bs0, n - 1);
        let k = n - 1;
        assert(scan_iter(t1, bs[k], bs[k + 1], k as u32));
        lemma_scan_iter_kept(t1, t2, bs[k], bs[k + 1], k as u32);
    }
}

proof fn lemma_failed_prefix(t: Seq<BusOp>, bs: Seq<int>, bs0: Seq<int>, n: int)
    requires
        0 <= n < bs0.len() <= bs.len(),
        forall|i: int| 0 <= i < bs0.len() ==> bs0[i] == bs[i],
    ensures
        failed_count(t, bs0, n) == failed_count(t, bs, n),
    decreases n,
{
    if n > 0 {
        lemma_failed_prefix(t, bs, bs0, n - 1);
    }
}

/// Sweeps the eight read-pipe settings; the memory is SDR when every delay
/// scan reports a failure in status bits 4..5, DDR otherwise. Also gives the
/// boundaries of the eight sweeps.
fn dram_check_type<H: RegisterBus>(bus: &mut Bus<H>, para: &mut DramPara) -> (res: (u32, Ghost<Seq<int>>))
    ensures
        spares(old(bus).trace(), final(bus).trace()),
        same_board(*final(para), *old(para)),
        final(para).size == old(para).size,
        final(para).col_width == old(para).col_width,
        final(para).row_width == old(para).row_width,
        final(para).access_mode == old(para).access_mode,
        res.0 == final(para).sdr_ddr.bit(),
        type_sweep(final(bus).trace(), res.1@, 8),
        res.1@[0] == old(bus).trace().len(),
        res.1@[8] == final(bus).trace().len(),
        final(para).sdr_ddr == if failed_count(final(bus).trace(), res.1@, 8) == 8 {
            DramType::Sdr
        } else {
            DramType::Ddr
        },
{
    let mut times: u32 = 0;
    let mut i: u32 = 0;
    let ghost mut bs: Seq<int> = seq![old(bus).trace().len() as int];
    while i < 8
        invariant
            i <= 8,
            times <= i,
            spares(old(bus).trace(), bus.trace()),
            type_sweep(bus.trace(), bs, i as int),
            bs[0] == old(bus).trace().len(),
            bs[i as int] == bus.trace().len(),
            times == failed_count(bus.trace(), bs, i as int),
        decreases 8 - i,
    {
        let ghost t0 = bus.trace();
        select_readpipe(bus, i);
        let ghost t1 = bus.trace();
        dram_delay_scan(bus);
        let ghost t2 = bus.trace();
        let status = bus.read32(DRAM_DDLYR);
        proof {
            let t = bus.trace();
            lemma_rmw_kept(t1, t, t0.len() as int, DRAM_SCTLR, 0x1c0, i << 6u32);
            lemma_start_kept(t2, t, t1.len() as int, t2.len() as int, DRAM_DDLYR);
            assert(scan_iter(t, t0.len() as int, t.len() as int, i));
            lemma_type_sweep_kept(t0, t, bs, i as int);
            let bs2 = bs.push(t.len() as int);
            assert forall|k: int| 0 <= k < i + 1 implies #[trigger] scan_iter(t, bs2[k], bs2[k + 1], k as u32) by {
                if k < i {
                    assert(bs2[k] == bs[k] && bs2[k + 1] == bs[k + 1]);
                }
            }
            lemma_failed_prefix(t, bs2, bs, i as int);
            bs = bs2;
        }
        if status & 0x30 != 0 {
            times = times + 1;
        }
        i = i + 1;
    }
    para.sdr_ddr = classify_type(times);
    (para.sdr_ddr.to_bit(), Ghost(bs))
}

/// `t[a..b]` tries read-pipe setting `i` on a DDR part: select, delay scan,
/// status read at `t[c]`, and when the scan found a window, the delay-pointer
/// reads that make up `score`; otherwise `score` is 0.
pub open spec fn ddr_iter(t: Seq<BusOp>, a: int, c: int, b: int, i: u32, bwidth: u32, score: u32) -> bool {
    &&& select_at(t, a, i)
    &&& start_seg(t, a + 2, c, DRAM_DDLYR)
    &&& c < t.len()
    &&& t[c].is_read_of(DRAM_DDLYR)
    &&& if (t[c].value() >> 4u32) & 0x3 == 0 {
        &&& delay_reads(t, c + 1, b, bwidth)
        &&& score == reads_ones(t, c + 1, delay_regs(bwidth))
    } else {
        &&& b == c + 1
        &&& score == 0
    }
}

proof fn lemma_ddr_iter_kept(t1: Seq<BusOp>, t2: Seq<BusOp>, a: int, c: int, b: int, i: u32, bw: u32, score: u32)
    requires
        ddr_iter(t1, a, c, b, i, bw, score),
        extends(t1, t2),
    ensures
        ddr_iter(t2, a, c, b, i, bw, score),
{
    lemma_rmw_kept(t1, t2, a, DRAM_SCTLR, 0x1c0, i << 6u32);
    lemma_start_kept(t1, t2, a + 2, c, DRAM_DDLYR);
    assert(t2[c] == t1[c]);
    if (t1[c].value() >> 4u32) & 0x3 == 0 {
        assert forall|j: int| 0 <= j < b - (c + 1) implies (#[trigger] t2[c + 1 + j]).is_read_of((DRAM_DRPTR0 + 4 * j) as u32) by {
            assert(t2[c + 1 + j] == t1[c + 1 + j]);
        }
        lemma_reads_ones_kept(t1, t2, c + 1, delay_regs(bw));
    }
}

/// The DDR calibration at `t[a..b]`: eight tries split by `bs` (status reads
/// at `cs`) scoring `scores`, then setting `best`, the first highest score,
/// selected and scanned once more.
pub open spec fn ddr_calibration(
    t: Seq<BusOp>,
    a: int,
    b: int,
    bwidth: u32,
    bs: Seq<int>,
    cs: Seq<int>,
    scores: Seq<u32>,
    best: u32,
) -> bool {
    &&& bs.len() == 9
    &&& cs.len() == 8
    &&& scores.len() == 8
    &&& bs[0] == a
    &&& forall|i: int| 0 <= i < 8 ==> #[trigger] ddr_iter(t, bs[i], cs[i], bs[i + 1], i as u32, bwidth, scores[i])
    &&& is_first_max(scores, best as int)
    &&& select_at(t, bs[8], best)
    &&& start_seg(t, bs[8] + 2, b, DRAM_DDLYR)
}

/// The read-pipe calibration at `t[a..b]` for the signalling of `p`.
#[verifier::opaque]
pub open spec fn readpipe_seg(t: Seq<BusOp>, a: int, b: int, p: DramPara) -> bool {
    if p.sdr_ddr == DramType::Ddr {
        exists|bs: Seq<int>, cs: Seq<int>, scores: Seq<u32>, best: u32|
            ddr_calibration(t, a, b, p.bwidth, bs, cs, scores, best)
    } else {
        &&& rmw_at(t, a, DRAM_SCONR, 0x1_6000, 0)
        &&& exists|bs: Seq<int>, n: int, r: u32|
            {
                &&& sdr_choice(t, bs, n, r)
                &&& bs[0] == a + 2
                &&& select_at(t, bs[n], r)
                &&& b == bs[n] + 2
                &&& b <= t.len()
            }
    }
}

/// Calibrates the read pipe. DDR: the setting whose delay scan succeeds with
/// the most set delay-pointer bits, the lowest on a tie. SDR: the first setting
/// under which a ramp pattern reads back intact.
fn dram_scan_readpipe<H: RegisterBus>(bus: &mut Bus<H>, para: &DramPara)
    ensures
        spares(old(bus).trace(), final(bus).trace()),
        readpipe_seg(final(bus).trace(), old(bus).trace().len() as int, final(bus).trace().len() as int, *para),
{
    reveal(readpipe_seg);
    if para.sdr_ddr == DramType::Ddr {
        let mut readpipe: Vec<u32> = Vec::new();
        let mut i: u32 = 0;
        let ghost mut bs: Seq<int> = seq![old(bus).trace().len() as int];
        let ghost mut cs: Seq<int> = Seq::empty();
        while i < 8
            invariant
                i <= 8,
                readpipe@.len() == i,
                spares(old(bus).trace(), bus.trace()),
                bs.len() == i + 1,
                cs.len() == i,
                bs[0] == old(bus).trace().len(),
                bs[i as int] == bus.trace().len(),
                forall|k: int| 0 <= k < i ==> #[trigger] ddr_iter(bus.trace(), bs[k], cs[k], bs[k + 1], k as u32, para.bwidth, readpipe@[k]),
            decreases 8 - i,
        {
            let ghost t0 = bus.trace();
            select_readpipe(bus, i);
            let ghost t1 = bus.trace();
            dram_delay_scan(bus);
            let ghost t2 = bus.trace();
            let ddlyr = bus.read32(DRAM_DDLYR);
            let ghost t3 = bus.trace();
            let score = if scan_window_ok(ddlyr) {
                dram_check_delay(bus, para.bwidth)
            } else {
                0
            };
            proof {
                let t = bus.trace();
                lemma_rmw_kept(t1, t, t0.len() as int, DRAM_SCTLR, 0x1c0, i << 6u32);
                lemma_start_kept(t2, t, t1.len() as int, t2.len() as int, DRAM_DDLYR);
                assert(t[t2.len() as int] == t3[t2.len() as int]);
                assert(ddr_iter(t, t0.len() as int, t2.len() as int, t.len() as int, i, para.bwidth, score));
                assert forall|k: int| 0 <= k < i implies #[trigger] ddr_iter(t, bs[k], cs[k], bs[k + 1], k as u32, para.bwidth, readpipe@[k]) by {
                    assert(ddr_iter(t0, bs[k], cs[k], bs[k + 1], k as u32, para.bwidth, readpipe@[k]));
                    lemma_ddr_iter_kept(t0, t, bs[k], cs[k], bs[k + 1], k as u32, para.bwidth, readpipe@[k]);
                }
                bs = bs.push(t.len() as int);
                cs = cs.push(t2.len() as int);
            }
            readpipe.push(score);
            proof {
                let t = bus.trace();
                assert forall|k: int| 0 <= k < i + 1 implies #[trigger] ddr_iter(t, bs[k], cs[k], bs[k + 1], k as u32, para.bwidth, readpipe@[k]) by {
                }
            }
            i = i + 1;
        }
        let rp_best = best_readpipe(&readpipe);
        let ghost t0 = bus.trace();
        select_readpipe(bus, rp_best);
        let ghost t1 = bus.trace();
        dram_delay_scan(bus);
        proof {
            let t = bus.trace();
            lemma_rmw_kept(t1, t, t0.len() as int, DRAM_SCTLR, 0x1c0, rp_best << 6u32);
            assert forall|k: int| 0 <= k < 8 implies #[trigger] ddr_iter(t, bs[k], cs[k], bs[k + 1], k as u32, para.bwidth, readpipe@[k]) by {
                assert(ddr_iter(t0, bs[k], cs[k], bs[k + 1], k as u32, para.bwidth, readpipe@[k]));
                lemma_ddr_iter_kept(t0, t, bs[k], cs[k], bs[k + 1], k as u32, para.bwidth, readpipe@[k]);
            }
            assert(ddr_calibration(t, old(bus).trace().len() as int, t.len() as int, para.bwidth, bs, cs, readpipe@, rp_best));
        }
    } else {
        modify(bus, DRAM_SCONR, 0x1_6000, 0);
        let ghost t0 = bus.trace();
        let (rp_best, Ghost(sdr_bounds)) = sdr_readpipe_select(bus);
        let ghost t1 = bus.trace();
        select_readpipe(bus, rp_best);
        proof {
            let t = bus.trace();
            lemma_rmw_kept(t0, t, old(bus).trace().len() as int, DRAM_SCONR, 0x1_6000, 0);
            let n = sdr_bounds.len() - 1;
            lemma_sdr_choice_kept(t1, t, sdr_bounds, n, rp_best);
            assert(sdr_bounds[n] == t1.len());
        }
    }
}

proof fn lemma_sdr_choice_kept(t1: Seq<BusOp>, t2: Seq<BusOp>, bs: Seq<int>, n: int, r: u32)
    requires
        sdr_choice(t1, bs, n, r),
        extends(t1, t2),
    ensures
        sdr_choice(t2, bs, n, r),
{
    assert forall|i: int| 0 <= i < n implies #[trigger] sdr_iter(t2, bs[i], bs[i + 1], i as u32) by {
        assert(sdr_iter(t1, bs[i], bs[i + 1], i as u32));
        lemma_rmw_kept(t1, t2, bs[i], DRAM_SCTLR, 0x1c0, (i as u32) << 6u32);
        lemma_ramp_kept(t1, t2, bs[i] + 2, bs[i + 1]);
    }
    assert forall|i: int| 0 <= i < n - 1 implies !ramp_ok(t2, #[trigger] bs[i] + 2, bs[i + 1]) by {
        assert(sdr_iter(t1, bs[i], bs[i + 1], i as u32));
        assert(!ramp_ok(t1, bs[i] + 2, bs[i + 1]));
        lemma_ramp_kept(t1, t2, bs[i] + 2, bs[i + 1]);
    }
    let k = n - 1;
    assert(sdr_iter(t1, bs[k], bs[k + 1], k as u32));
    lemma_ramp_kept(t1, t2, bs[k] + 2, bs[k + 1]);
}

/// Number of accesses in `s` that carried the word `v`.
pub open spec fn count_value(s: Seq<BusOp>, v: u32) -> nat
    decreases s.len(),
{
    if s.len() == 0 {
        0
    } else {
        count_value(s.drop_last(), v) + if s.last().value() == v {
            1nat
        } else {
            0nat
        }
    }
}

/// `t[k..k + 96]` is an aliasing probe: for each of 32 words, `first` written
/// at word `i` from `a` and `second` at word `i` from `b`; then the 32 words
/// from `a` read back in order.
pub open spec fn probe_seg(t: Seq<BusOp>, k: int, a: u32, b: u32, first: u32, second: u32) -> bool {
    &&& 0 <= k
    &&& k + 96 <= t.len()
    &&& forall|i: int| 0 <= i < 32 ==> #[trigger] t[k + 2 * i] == (BusOp::Write { addr: (a + 4 * i) as u32, value: first })
    &&& forall|i: int| 0 <= i < 32 ==> #[trigger] t[k + 2 * i + 1] == (BusOp::Write { addr: (b + 4 * i) as u32, value: second })
    &&& forall|i: int| 0 <= i < 32 ==> (#[trigger] t[k + 64 + i]).is_read_of((a + 4 * i) as u32)
}

/// How many of the 32 probe reads of the probe at `t[k..]` returned `v`.
pub open spec fn probe_count(t: Seq<BusOp>, k: int, v: u32) -> nat {
    count_value(t.subrange(k + 64, k + 96), v)
}

proof fn lemma_probe_kept(t1: Seq<BusOp>, t2: Seq<BusOp>, k: int, a: u32, b: u32, first: u32, second: u32)
    requires
        probe_seg(t1, k, a, b, first, second),
        extends(t1, t2),
    ensures
        probe_seg(t2, k, a, b, first, second),
        probe_count(t2, k, second) == probe_count(t1, k, second),
{
    assert forall|i: int| 0 <= i < 32 implies #[trigger] t2[k + 2 * i] == (BusOp::Write { addr: (a + 4 * i) as u32, value: first }) by {
        assert(t2[k + 2 * i] == t1[k + 2 * i]);
    }
    assert forall|i: int| 0 <= i < 32 implies #[trigger] t2[k + 2 * i + 1] == (BusOp::Write { addr: (b + 4 * i) as u32, value: second }) by {
        assert(t2[k + 2 * i + 1] == t1[k + 2 * i + 1]);
    }
    assert forall|i: int| 0 <= i < 32 implies (#[trigger] t2[k + 64 + i]).is_read_of((a + 4 * i) as u32) by {
        assert(t2[k + 64 + i] == t1[k + 64 + i]);
    }
    assert(t2.subrange(k + 64, k + 96) =~= t1.subrange(k + 64, k + 96));
}

/// Column width shown by the column probe at `t[k..]`: 9 bits when all 32
/// words from offset 0x200 came back as the pattern written from 0x600.
pub open spec fn probed_col_width(t: Seq<BusOp>, k: int) -> u32 {
    if probe_count(t, k, 0x2222_2222) == 32 {
        9
    } else {
        10
    }
}

/// Row width shown by the row probe at `t[k..]`.
pub open spec fn probed_row_width(t: Seq<BusOp>, k: int) -> u32 {
    if probe_count(t, k, 0x4444_4444) == 32 {
        12
    } else {
        13
    }
}

/// First and second addresses of the row probe for a column width.
pub open spec fn row_probe_base(col_width: u32) -> u32 {
    if col_width == 10 {
        0x8040_0000
    } else {
        0x8020_0000
    }
}

pub open spec fn row_probe_second(col_width: u32) -> u32 {
    if col_width == 10 {
        0x80c0_0000
    } else {
        0x8060_0000
    }
}

/// `p` with the given column and row widths.
pub open spec fn with_widths(p: DramPara, col: u32, row: u32) -> DramPara {
    DramPara { col_width: col, row_width: row, ..p }
}

/// `t[k..k + 2]` programs the refresh counter for `clk` from the row field
/// read back from the geometry register.
pub open spec fn refresh_at(t: Seq<BusOp>, k: int, clk: u32) -> bool {
    &&& 0 <= k
    &&& k + 1 < t.len()
    &&& t[k].is_read_of(DRAM_SCONR)
    &&& t[k + 1] == (BusOp::Write {
        addr: DRAM_SREFR,
        value: refresh_count_spec(clk, (t[k].value() & 0x1e0) >> 5u32),
    })
}

/// Geometry detection at `t[ks[0]..ks[6] + 2]` starting from the record `p0`
/// and ending with the record `p`: setup with 10 column and 13 row bits,
/// read-pipe calibration, column probe, setup with the probed column width,
/// row probe, setup with the final record in the lower-overhead access mode,
/// and the refresh counter.
#[verifier::opaque]
pub open spec fn size_detection(t: Seq<BusOp>, ks: Seq<int>, p0: DramPara, p: DramPara) -> bool {
    let p1 = with_widths(p0, 10, 13);
    let col = probed_col_width(t, ks[2]);
    let row = probed_row_width(t, ks[4]);
    &&& ks.len() == 7
    &&& setup_seg(t, ks[0], ks[1], p1)
    &&& readpipe_seg(t.take(ks[2]), ks[1], ks[2], p1)
    &&& probe_seg(t, ks[2], (SDRAM_BASE + 0x200) as u32, (SDRAM_BASE + 0x600) as u32, 0x1111_1111, 0x2222_2222)
    &&& ks[3] == ks[2] + 96
    &&& setup_seg(t, ks[3], ks[4], with_widths(p0, col, 13))
    &&& probe_seg(t, ks[4], row_probe_base(col), row_probe_second(col), 0x3333_3333, 0x4444_4444)
    &&& ks[5] == ks[4] + 96
    &&& p == (DramPara { col_width: col, row_width: row, size: size_for_spec(col, row), access_mode: 0, ..p0 })
    &&& setup_seg(t, ks[5], ks[6], p)
    &&& refresh_at(t, ks[6], p.clk)
}

proof fn lemma_take_prefix(t1: Seq<BusOp>, t2: Seq<BusOp>)
    requires
        extends(t1, t2),
    ensures
        t2.take(t1.len() as int) == t1,
{
    assert(t2.take(t1.len() as int) =~= t1);
}

/// Writes `first` at word `i` from `a` and `second` at word `i` from `b` for
/// the 32 words `i`, then counts the words from `a` that read back as `second`.
fn alias_probe<H: RegisterBus>(bus: &mut Bus<H>, a: u32, b: u32, first: u32, second: u32) -> (r: u32)
    requires
        SDRAM_BASE <= a <= 0xf000_0000,
        SDRAM_BASE <= b <= 0xf000_0000,
    ensures
        spares(old(bus).trace(), final(bus).trace()),
        final(bus).trace().len() == old(bus).trace().len() + 96,
        probe_seg(final(bus).trace(), old(bus).trace().len() as int, a, b, first, second),
        r == probe_count(final(bus).trace(), old(bus).trace().len() as int, second),
        r <= 32,
{
    let ghost k0 = old(bus).trace().len() as int;
    let mut i: u32 = 0;
    while i < 32
        invariant
            i <= 32,
            SDRAM_BASE <= a <= 0xf000_0000,
            SDRAM_BASE <= b <= 0xf000_0000,
            spares(old(bus).trace(), bus.trace()),
            k0 == old(bus).trace().len(),
            bus.trace().len() == k0 + 2 * i,
            forall|m: int| 0 <= m < i ==> #[trigger] bus.trace()[k0 + 2 * m] == (BusOp::Write { addr: (a + 4 * m) as u32, value: first }),
            forall|m: int| 0 <= m < i ==> #[trigger] bus.trace()[k0 + 2 * m + 1] == (BusOp::Write { addr: (b + 4 * m) as u32, value: second }),
        decreases 32 - i,
    {
        bus.write32(a + 4 * i, first);
        bus.write32(b + 4 * i, second);
        i = i + 1;
    }
    let ghost tr = bus.trace();
    let mut count: u32 = 0;
    let mut i: u32 = 0;
    while i < 32
        invariant
            i <= 32,
            count <= i,
            SDRAM_BASE <= a <= 0xf000_0000,
            spares(old(bus).trace(), bus.trace()),
            k0 == old(bus).trace().len(),
            tr.len() == k0 + 64,
            bus.trace().len() == tr.len() + i,
            forall|m: int| 0 <= m < tr.len() ==> #[trigger] bus.trace()[m] == tr[m],
            forall|j: int| 0 <= j < i ==> (#[trigger] bus.trace()[tr.len() + j]).is_read_of((a + 4 * j) as u32),
            count == count_value(bus.trace().subrange(tr.len() as int, tr.len() + i), second),
        decreases 32 - i,
    {
        let ghost before = bus.trace();
        let v = bus.read32(a + 4 * i);
        proof {
            assert(bus.trace().subrange(tr.len() as int, tr.len() + i + 1).drop_last()
                =~= before.subrange(tr.len() as int, tr.len() + i));
        }
        if v == second {
            count = count + 1;
        }
        i = i + 1;
    }
    proof {
        let t = bus.trace();
        assert forall|m: int| 0 <= m < 32 implies #[trigger] t[k0 + 2 * m] == (BusOp::Write { addr: (a + 4 * m) as u32, value: first }) by {
            assert(t[k0 + 2 * m] == tr[k0 + 2 * m]);
        }
        assert forall|m: int| 0 <= m < 32 implies #[trigger] t[k0 + 2 * m + 1] == (BusOp::Write { addr: (b + 4 * m) as u32, value: second }) by {
            assert(t[k0 + 2 * m + 1] == tr[k0 + 2 * m + 1]);
        }
        assert forall|j: int| 0 <= j < 32 implies (#[trigger] t[k0 + 64 + j]).is_read_of((a + 4 * j) as u32) by {
            assert(k0 + 64 + j == tr.len() + j);
        }
    }
    count
}

/// Detects the column and row widths by aliasing probes and derives the size
/// from them, then reprograms the controller for the final geometry in the
/// lower-overhead access mode and programs the refresh counter for it.
#[verifier::rlimit(40)]
fn dram_get_dram_size<H: RegisterBus>(bus: &mut Bus<H>, para: &mut DramPara) -> (ks: Ghost<Seq<int>>)
    requires
        old(para).valid(),
    ensures
        spares(old(bus).trace(), final(bus).trace()),
        same_board(*final(para), *old(para)),
        final(para).sdr_ddr == old(para).sdr_ddr,
        final(para).col_width == 9 || final(para).col_width == 10,
        final(para).row_width == 12 || final(para).row_width == 13,
        final(para).size == size_for_spec(final(para).col_width, final(para).row_width),
        final(para).access_mode == 0,
        final(para).valid(),
        size_detection(final(bus).trace(), ks@, *old(para), *final(para)),
        ks@.len() == 7,
        ks@[0] == old(bus).trace().len(),
        final(bus).trace().len() == ks@[6] + 2,
{
    reveal(size_detection);
    let ghost p0 = *para;
    para.col_width = 10;
    para.row_width = 13;
    let ghost t0 = bus.trace();
    dram_para_setup(bus, para);
    let ghost t1 = bus.trace();
    dram_scan_readpipe(bus, para);
    let ghost t2 = bus.trace();
    let count = alias_probe(bus, SDRAM_BASE + 0x200, SDRAM_BASE + 0x600, 0x1111_1111, 0x2222_2222);
    let colflag = width_from_probe(count, 9, 10);
    let ghost t3 = bus.trace();

    para.col_width = colflag;
    para.row_width = 13;
    dram_para_setup(bus, para);
    let ghost t4 = bus.trace();
    let (addr1, addr2) = row_probe_addrs(colflag);
    let count = alias_probe(bus, addr1, addr2, 0x3333_3333, 0x4444_4444);
    let rowflag = width_from_probe(count, 12, 13);
    let ghost t5 = bus.trace();

    para.col_width = colflag;
    para.row_width = rowflag;
    para.size = size_for(colflag, rowflag);
    para.access_mode = 0;
    dram_para_setup(bus, para);
    let ghost t6 = bus.trace();
    dram_set_autofresh_cycle(bus, para.clk);
    let ghost ks = seq![t0.len() as int, t1.len() as int, t2.len() as int, t3.len() as int, t4.len() as int, t5.len() as int, t6.len() as int];
    proof {
        let t = bus.trace();
        lemma_setup_kept(t1, t, t0.len() as int, t1.len() as int, with_widths(p0, 10, 13));
        lemma_take_prefix(t2, t);
        lemma_probe_kept(t3, t, t2.len() as int, (SDRAM_BASE + 0x200) as u32, (SDRAM_BASE + 0x600) as u32, 0x1111_1111, 0x2222_2222);
        assert(probed_col_width(t, t2.len() as int) == colflag);
        lemma_setup_kept(t4, t, t3.len() as int, t4.len() as int, with_widths(p0, colflag, 13));
        lemma_probe_kept(t5, t, t4.len() as int, addr1, addr2, 0x3333_3333, 0x4444_4444);
        assert(probed_row_width(t, t4.len() as int) == rowflag);
        lemma_setup_kept(t6, t, t5.len() as int, t6.len() as int, *para);
        assert(*para == (DramPara { col_width: colflag, row_width: rowflag, size: size_for_spec(colflag, rowflag), access_mode: 0, ..p0 }));
        assert(with_widths(p0, 10, 13) == with_widths(p0, 10, 13));
    }
    Ghost(ks)
}

/// `t[k..k + 2]` sets the pad pull register's mode bit for signalling `ty`.
pub open spec fn pad_mode_at(t: Seq<BusOp>, k: int, ty: DramType) -> bool {
    match ty {
        DramType::Ddr => rmw_at(t, k, PIO_SDR_PAD_PULL, 0, 0x1_0000),
        DramType::Sdr => rmw_at(t, k, PIO_SDR_PAD_PULL, 0x1_0000, 0),
    }
}

/// Sets or clears the SDR/DDR mode bit of the pad pull register.
fn set_pad_mode<H: RegisterBus>(bus: &mut Bus<H>, t: DramType)
    ensures
        spares(old(bus).trace(), final(bus).trace()),
        final(bus).trace().len() == old(bus).trace().len() + 2,
        pad_mode_at(final(bus).trace(), old(bus).trace().len() as int, t),
{
    if t == DramType::Ddr {
        modify(bus, PIO_SDR_PAD_PULL, 0, 0x1_0000);
    } else {
        modify(bus, PIO_SDR_PAD_PULL, 0x1_0000, 0);
    }
}

/// `t[a..b]` polls the memory PLL lock bit, at most `budget` times, stopping
/// at the first poll that sees it set.
pub open spec fn lock_wait(t: Seq<BusOp>, a: int, b: int, budget: u32) -> bool {
    &&& 0 <= a <= b <= t.len()
    &&& b - a <= budget
    &&& forall|k: int| a <= k < b ==> (#[trigger] t[k]).is_read_of(CCU_PLL_DDR_CTRL)
    &&& forall|k: int| a <= k < b - 1 ==> (#[trigger] t[k]).value() & 0x1000_0000 == 0
}

/// Waits for the memory PLL to lock, polling at most `budget` times.
fn wait_pll_ddr_lock<H: RegisterBus>(bus: &mut Bus<H>, budget: u32) -> (locked: bool)
    ensures
        extends_reading(old(bus).trace(), final(bus).trace()),
        lock_wait(final(bus).trace(), old(bus).trace().len() as int, final(bus).trace().len() as int, budget),
        locked == (final(bus).trace().len() > old(bus).trace().len()
            && final(bus).trace().last().value() & 0x1000_0000 != 0),
{
    let ghost a = old(bus).trace().len() as int;
    let mut left = budget;
    while left > 0
        invariant
            left <= budget,
            a == old(bus).trace().len(),
            bus.trace().len() == a + (budget - left),
            extends_reading(old(bus).trace(), bus.trace()),
            forall|k: int| a <= k < bus.trace().len() ==> (#[trigger] bus.trace()[k]).is_read_of(CCU_PLL_DDR_CTRL),
            forall|k: int| a <= k < bus.trace().len() ==> (#[trigger] bus.trace()[k]).value() & 0x1000_0000 == 0,
        decreases left,
    {
        if bus.read32(CCU_PLL_DDR_CTRL) & 0x1000_0000 != 0 {
            return true;
        }
        left = left - 1;
    }
    false
}

/// The record a run starts from for `cfg`.
pub open spec fn para_of_config(cfg: DramConfig) -> DramPara {
    DramPara {
        base: SDRAM_BASE,
        size: DramPara::expected_size(cfg.chip),
        clk: cfg.pll_ddr_hz / 1_000_000,
        access_mode: 1,
        cs_num: 1,
        ddr8_remap: 0,
        sdr_ddr: DramType::Ddr,
        bwidth: 16,
        col_width: 10,
        row_width: 13,
        bank_size: 4,
        cas: 3,
    }
}

/// Index of the memory PLL control write in a run starting at `a` for `p`:
/// after the PB3 function and pad drive updates, the optional pull update,
/// the optional drive preset and the optional sigma-delta pattern.
pub open spec fn pll_write_index(a: int, p: DramPara) -> int {
    a + 4 + (if (p.cas >> 3u32) & 1 != 0 { 2int } else { 0int }) + (if pad_drive_spec(p.clk) is Some {
        1int
    } else {
        0int
    }) + (if pll_ddr_pattern_spec(p.cas) is Some { 1int } else { 0int })
}

/// `t` from `a` on begins with the pad and memory PLL programming for `p`:
/// PB3 set to the data-strobe function 7, pad drive bits 12..14 set, pad
/// pulls for bit 3 of `cas`, the drive preset for the clock, the sigma-delta
/// pattern, the PLL control word, and its update bit 20.
pub open spec fn pads_and_pll(t: Seq<BusOp>, a: int, p: DramPara) -> bool {
    let c = a + 4 + (if (p.cas >> 3u32) & 1 != 0 { 2int } else { 0int });
    let d = c + (if pad_drive_spec(p.clk) is Some { 1int } else { 0int });
    let e = pll_write_index(a, p);
    &&& rmw_at(t, a, PIO_PB_CFG0, 0x7000, 0x7000)
    &&& rmw_at(t, a + 2, PIO_SDR_PAD_DRV, 0, 0x7000)
    &&& ((p.cas >> 3u32) & 1 != 0 ==> rmw_at(t, a + 4, PIO_SDR_PAD_PULL, 0, 0x00c0_0000))
    &&& (pad_drive_spec(p.clk) matches Some(v) ==> t[c] == (BusOp::Write { addr: PIO_SDR_PAD_DRV, value: v }))
    &&& (pll_ddr_pattern_spec(p.cas) matches Some(v) ==> t[d] == (BusOp::Write {
        addr: CCU_PLL_DDR_PAT_CTRL,
        value: v,
    }))
    &&& t[e] == (BusOp::Write { addr: CCU_PLL_DDR_CTRL, value: pll_ddr_word_spec(p.clk, p.cas) })
    &&& rmw_at(t, e + 1, CCU_PLL_DDR_CTRL, 0, 0x10_0000)
}

/// `t[f..f + 10]` gates the controller's bus clock on, pulses its reset, sets
/// the pad mode for `ty` and writes the two timing registers.
pub open spec fn reset_and_timing(t: Seq<BusOp>, f: int, ty: DramType) -> bool {
    &&& rmw_at(t, f, CCU_BUS_CLK_GATING0, 0, 0x4000)
    &&& rmw_at(t, f + 2, CCU_BUS_SOFT_RST0, 0x4000, 0)
    &&& rmw_at(t, f + 4, CCU_BUS_SOFT_RST0, 0, 0x4000)
    &&& pad_mode_at(t, f + 6, ty)
    &&& t[f + 8] == (BusOp::Write { addr: DRAM_STMG0R, value: DRAM_STMG0_VALUE })
    &&& t[f + 9] == (BusOp::Write { addr: DRAM_STMG1R, value: DRAM_STMG1_VALUE })
    &&& f + 10 <= t.len()
}

/// `t[w..b]` writes each of the 128 words from the start of memory with its
/// own address, then reads them back in order, stopping at the first word
/// that differs.
pub open spec fn window_seg(t: Seq<BusOp>, w: int, b: int) -> bool {
    &&& 0 <= w
    &&& w + 128 < b <= w + 256
    &&& b <= t.len()
    &&& forall|i: int| 0 <= i < 128 ==> #[trigger] t[w + i] == (BusOp::Write {
        addr: (SDRAM_BASE + 4 * i) as u32,
        value: (SDRAM_BASE + 4 * i) as u32,
    })
    &&& forall|j: int| 0 <= j < b - w - 128 ==> (#[trigger] t[w + 128 + j]).is_read_of((SDRAM_BASE + 4 * j) as u32)
    &&& forall|j: int| 0 <= j < b - w - 129 ==> (#[trigger] t[w + 128 + j]).value() == SDRAM_BASE + 4 * j
    &&& b < w + 256 ==> t[b - 1].value() != SDRAM_BASE + 4 * (b - w - 129)
}

/// Every word of the window at `t[w..b]` read back its address.
pub open spec fn window_ok(t: Seq<BusOp>, w: int, b: int) -> bool {
    b == w + 256 && t[b - 1].value() == SDRAM_BASE + 4 * 127
}

/// The record after type detection by the sweep `bs` of `t`.
pub open spec fn typed(p: DramPara, t: Seq<BusOp>, bs: Seq<int>) -> DramPara {
    DramPara {
        sdr_ddr: if failed_count(t, bs, 8) == 8 {
            DramType::Sdr
        } else {
            DramType::Ddr
        },
        ..p
    }
}

/// A cold bring-up at `t[a..b]` from record `p0`, ending with record `p`, split
/// by `ls` (lock wait end, first start end, calibration end, window start),
/// `bs` (type sweep) and `ks` (geometry detection). It succeeds (`ok`) exactly
/// when the first controller start finished and the whole window read back.
#[verifier::opaque]
pub open spec fn cold_run(
    t: Seq<BusOp>,
    a: int,
    b: int,
    p0: DramPara,
    lock_budget: u32,
    ls: Seq<int>,
    bs: Seq<int>,
    ks: Seq<int>,
    p: DramPara,
    ok: bool,
) -> bool {
    let e = pll_write_index(a, p0);
    let pt = typed(p0, t, bs);
    &&& ls.len() == 4
    &&& pads_and_pll(t.take(e + 3), a, p0)
    &&& lock_wait(t, e + 3, ls[0], lock_budget)
    &&& reset_and_timing(t.take(ls[0] + 10), ls[0], p0.sdr_ddr)
    &&& setup_seg(t.take(ls[1]), ls[0] + 10, ls[1], p0)
    &&& if !started(t, ls[1]) {
        &&& b == ls[1]
        &&& !ok
        &&& p == p0
    } else {
        &&& type_sweep(t.take(bs[8]), bs, 8)
        &&& bs[0] == ls[1]
        &&& pad_mode_at(t, bs[8], pt.sdr_ddr)
        &&& refresh_at(t, bs[8] + 2, p0.clk)
        &&& readpipe_seg(t.take(ls[2]), bs[8] + 4, ls[2], pt)
        &&& ks[0] == ls[2]
        &&& size_detection(t.take(ls[3]), ks, pt, p)
        &&& ls[3] == ks[6] + 2
        &&& window_seg(t, ls[3], b)
        &&& ok == window_ok(t, ls[3], b)
    }
}

/// Pads, memory PLL, controller reset and timing, then type detection,
/// refresh, read-pipe calibration, geometry detection and a functional check of
/// 128 words. `true` exactly when the first controller start finished and the
/// check passed.
/// Pads, memory PLL with its lock wait, controller clock and reset, pad mode
/// and timing registers. Gives the end of the lock wait.
#[verifier::rlimit(40)]
fn dram_power_up<H: RegisterBus>(bus: &mut Bus<H>, para: &DramPara, lock_budget: u32) -> (f: Ghost<int>)
    requires
        6 <= para.clk <= 4294,
    ensures
        spares(old(bus).trace(), final(bus).trace()),
        pads_and_pll(final(bus).trace().take(pll_write_index(old(bus).trace().len() as int, *para) + 3), old(bus).trace().len() as int, *para),
        lock_wait(final(bus).trace(), pll_write_index(old(bus).trace().len() as int, *para) + 3, f@, lock_budget),
        reset_and_timing(final(bus).trace(), f@, para.sdr_ddr),
        final(bus).trace().len() == f@ + 10,
{
    let ghost p0 = *para;
    let ghost t0 = bus.trace();
    let ghost a = t0.len() as int;
    // Data strobe on PB3 (function 7).
    modify(bus, PIO_PB_CFG0, 0x7000, 0x7000);
    let ghost t1 = bus.trace();
    modify(bus, PIO_SDR_PAD_DRV, 0, 0x7000);
    let ghost t2 = bus.trace();
    dram_delay(5);
    if (para.cas >> 3) & 0x1 != 0 {
        modify(bus, PIO_SDR_PAD_PULL, 0, 0x00c0_0000);
    }
    let ghost t3 = bus.trace();
    if let Some(drv) = pad_drive_preset(para.clk) {
        bus.write32(PIO_SDR_PAD_DRV, drv);
    }
    let ghost t4 = bus.trace();

    // Memory PLL.
    let val = pll_ddr_word(para.clk, para.cas);
    if let Some(pat) = pll_ddr_pattern(para.cas) {
        bus.write32(CCU_PLL_DDR_PAT_CTRL, pat);
    }
    let ghost t4b = bus.trace();
    bus.write32(CCU_PLL_DDR_CTRL, val);
    let ghost t5 = bus.trace();
    modify(bus, CCU_PLL_DDR_CTRL, 0, 0x10_0000);
    let ghost t6 = bus.trace();
    proof {
        assert(t3.len() == a + 4 + (if (p0.cas >> 3u32) & 1 != 0 { 2int } else { 0int }));
        assert(t6.len() == pll_write_index(a, p0) + 3);
        lemma_rmw_kept(t1, t6, a, PIO_PB_CFG0, 0x7000, 0x7000);
        lemma_rmw_kept(t2, t6, a + 2, PIO_SDR_PAD_DRV, 0, 0x7000);
        if (p0.cas >> 3u32) & 1 != 0 {
            lemma_rmw_kept(t3, t6, a + 4, PIO_SDR_PAD_PULL, 0, 0x00c0_0000);
        }
        assert(t6[t3.len() as int] == t4[t3.len() as int] || pad_drive_spec(p0.clk) is None);
        assert(t6[t4.len() as int] == t4b[t4.len() as int] || pll_ddr_pattern_spec(p0.cas) is None);
        assert(t6[t4b.len() as int] == t5[t4b.len() as int]);
        assert(pads_and_pll(t6, a, p0));
    }
    wait_pll_ddr_lock(bus, lock_budget);
    let ghost t7 = bus.trace();
    dram_delay(5);

    // Bus clock on, controller reset pulse.
    modify(bus, CCU_BUS_CLK_GATING0, 0, 0x4000);
    let ghost t8 = bus.trace();
    modify(bus, CCU_BUS_SOFT_RST0, 0x4000, 0);
    let ghost t9 = bus.trace();
    crate::delay::sdelay(20);
    modify(bus, CCU_BUS_SOFT_RST0, 0, 0x4000);
    let ghost t10 = bus.trace();

    set_pad_mode(bus, para.sdr_ddr);
    let ghost t11 = bus.trace();
    bus.write32(DRAM_STMG0R, DRAM_STMG0_VALUE);
    bus.write32(DRAM_STMG1R, DRAM_STMG1_VALUE);
    let ghost t12 = bus.trace();
    proof {
        let f = t7.len() as int;
        lemma_rmw_kept(t8, t12, f, CCU_BUS_CLK_GATING0, 0, 0x4000);
        lemma_rmw_kept(t9, t12, f + 2, CCU_BUS_SOFT_RST0, 0x4000, 0);
        lemma_rmw_kept(t10, t12, f + 4, CCU_BUS_SOFT_RST0, 0, 0x4000);
        if p0.sdr_ddr == DramType::Ddr {
            lemma_rmw_kept(t11, t12, f + 6, PIO_SDR_PAD_PULL, 0, 0x1_0000);
        } else {
            lemma_rmw_kept(t11, t12, f + 6, PIO_SDR_PAD_PULL, 0x1_0000, 0);
        }
        assert(reset_and_timing(t12, f, p0.sdr_ddr));
        lemma_take_prefix(t6, t12);
    }
    Ghost(t7.len() as int)
}

#[verifier::rlimit(60)]
fn dram_init_inner<H: RegisterBus>(bus: &mut Bus<H>, para: &mut DramPara, lock_budget: u32) -> (res: (bool, Ghost<(Seq<int>, Seq<int>, Seq<int>)>))
    requires
        old(para).valid(),
        old(para).base == SDRAM_BASE,
        old(para).size == 16 || old(para).size == 32 || old(para).size == 64,
        old(para).sdr_ddr == DramType::Ddr,
        6 <= old(para).clk <= 4294,
    ensures
        spares(old(bus).trace(), final(bus).trace()),
        same_board(*final(para), *old(para)),
        final(para).size == 16 || final(para).size == 32 || final(para).size == 64,
        cold_run(
            final(bus).trace(),
            old(bus).trace().len() as int,
            final(bus).trace().len() as int,
            *old(para),
            lock_budget,
            res.1@.0,
            res.1@.1,
            res.1@.2,
            *final(para),
            res.0,
        ),
{
    reveal(cold_run);
    let ghost p0 = *para;
    let ghost t0 = bus.trace();
    let Ghost(f) = dram_power_up(bus, para, lock_budget);
    let ghost t12 = bus.trace();
    let started_ok = dram_para_setup(bus, para);
    let ghost t13 = bus.trace();
    let ghost ls0 = seq![f, t13.len() as int, 0int, 0int];
    proof {
        lemma_take_prefix(t12, t13);
    }
    if !started_ok {
        proof {
            let t = bus.trace();
            lemma_take_prefix(t12, t);
            assert(t.take(t13.len() as int) == t);
            assert(t.take(pll_write_index(t0.len() as int, p0) + 3) == t12.take(pll_write_index(t0.len() as int, p0) + 3));
            assert(t.take(f + 10) == t12);
        }
        return (false, Ghost((ls0, Seq::empty(), Seq::empty())));
    }
    let (_, Ghost(bs)) = dram_check_type(bus, para);
    let ghost t14 = bus.trace();
    let ghost pt = *para;
    set_pad_mode(bus, para.sdr_ddr);
    let ghost t15 = bus.trace();
    dram_set_autofresh_cycle(bus, para.clk);
    let ghost t16 = bus.trace();
    dram_scan_readpipe(bus, para);
    let ghost t17 = bus.trace();
    let Ghost(ks) = dram_get_dram_size(bus, para);
    let ghost t18 = bus.trace();

    // Functional check: each of 128 words holds its own address.
    let base = para.base;
    let ghost w = t18.len() as int;
    let mut i: u32 = 0;
    while i < 128
        invariant
            i <= 128,
            base == SDRAM_BASE,
            t0 == old(bus).trace(),
            spares(t0, bus.trace()),
            extends(t18, bus.trace()),
            w == t18.len(),
            bus.trace().len() == w + i,
            forall|m: int| 0 <= m < i ==> #[trigger] bus.trace()[w + m] == (BusOp::Write {
                addr: (SDRAM_BASE + 4 * m) as u32,
                value: (SDRAM_BASE + 4 * m) as u32,
            }),
        decreases 128 - i,
    {
        bus.write32(base + 4 * i, base + 4 * i);
        i = i + 1;
    }
    let ghost tw = bus.trace();
    let mut i: u32 = 0;
    let mut ok = true;
    while ok && i < 128
        invariant
            i <= 128,
            base == SDRAM_BASE,
            t0 == old(bus).trace(),
            spares(t0, bus.trace()),
            extends(tw, bus.trace()),
            extends(t18, tw),
            w == t18.len(),
            tw.len() == w + 128,
            bus.trace().len() == tw.len() + i,
            forall|m: int| 0 <= m < 128 ==> #[trigger] tw[w + m] == (BusOp::Write {
                addr: (SDRAM_BASE + 4 * m) as u32,
                value: (SDRAM_BASE + 4 * m) as u32,
            }),
            forall|j: int| 0 <= j < i ==> (#[trigger] bus.trace()[tw.len() + j]).is_read_of((SDRAM_BASE + 4 * j) as u32),
            forall|j: int| 0 <= j < i && (ok || j < i - 1) ==> (#[trigger] bus.trace()[tw.len() + j]).value() == SDRAM_BASE + 4 * j,
            !ok ==> i >= 1 && bus.trace()[tw.len() + i - 1].value() != SDRAM_BASE + 4 * (i - 1),
        decreases 128 - i,
    {
        if bus.read32(base + 4 * i) != base + 4 * i {
            ok = false;
        }
        i = i + 1;
    }
    proof {
        let t = bus.trace();
        let b = t.len() as int;
        lemma_take_prefix(t12, t);
        assert(t.take(pll_write_index(t0.len() as int, p0) + 3) == t12.take(pll_write_index(t0.len() as int, p0) + 3));
        assert(t.take(f + 10) == t12);
        lemma_take_prefix(t13, t);
        lemma_take_prefix(t14, t);
        lemma_take_prefix(t17, t);
        lemma_take_prefix(t18, t);
        assert forall|m: int| 0 <= m < 128 implies #[trigger] t[w + m] == (BusOp::Write {
            addr: (SDRAM_BASE + 4 * m) as u32,
            value: (SDRAM_BASE + 4 * m) as u32,
        }) by {
            assert(t[w + m] == tw[w + m]);
        }
        assert forall|j: int| 0 <= j < b - w - 128 implies (#[trigger] t[w + 128 + j]).is_read_of((SDRAM_BASE + 4 * j) as u32) by {
            assert(w + 128 + j == tw.len() + j);
        }
        assert forall|j: int| 0 <= j < b - w - 129 implies (#[trigger] t[w + 128 + j]).value() == SDRAM_BASE + 4 * j by {
            assert(w + 128 + j == tw.len() + j);
        }
        assert(window_seg(t, w, b));
        assert(pad_mode_at(t, t14.len() as int, pt.sdr_ddr)) by {
            if pt.sdr_ddr == DramType::Ddr {
                lemma_rmw_kept(t15, t, t14.len() as int, PIO_SDR_PAD_PULL, 0, 0x1_0000);
            } else {
                lemma_rmw_kept(t15, t, t14.len() as int, PIO_SDR_PAD_PULL, 0x1_0000, 0);
            }
        }
        assert(t[t15.len() as int] == t16[t15.len() as int] && t[t15.len() as int + 1] == t16[t15.len() as int + 1]);
        assert(pt == typed(p0, t, bs)) by {
            lemma_type_sweep_kept(t14, t, bs, 8);
        }
    }
    proof {
        let t = bus.trace();
        let ls = seq![f, t13.len() as int, t17.len() as int, t18.len() as int];
        let pt2 = typed(p0, t, bs);
        assert(pt2 == pt);
        assert(type_sweep(t.take(bs[8]), bs, 8));
        assert(bs[0] == ls[1]);
        assert(pad_mode_at(t, bs[8], pt2.sdr_ddr));
        assert(refresh_at(t, bs[8] + 2, p0.clk));
        assert(readpipe_seg(t.take(ls[2]), bs[8] + 4, ls[2], pt2));
        assert(size_detection(t.take(ls[3]), ks, pt2, *para));
        assert(ls[3] == ks[6] + 2);
        assert(window_seg(t, ls[3], t.len() as int));
        if ok {
            assert(t[tw.len() as int + 127].value() == SDRAM_BASE + 4 * 127);
        } else {
            assert(t.len() - 1 == tw.len() + i - 1);
        }
        assert(ok == window_ok(t, ls[3], t.len() as int));
    }
    (ok, Ghost((seq![f, t13.len() as int, t17.len() as int, t18.len() as int], bs, ks)))
}

/// What a bring-up run for `cfg` did, read off the bus trace from `t0` to `t1`
/// and its result `r`.
///
/// The run starts by reading the marker word. When that word carries the `'X'`
/// tag, the run returns what it records and does nothing else. Otherwise it is
/// a cold run: it succeeds exactly when the first controller start finished
/// and the 128-word check read back intact, and then ends with the one write
/// of the marker recording the size that the probes showed; a failed run never
/// writes the marker.
pub open spec fn bring_up_outcome(
    t0: Seq<BusOp>,
    t1: Seq<BusOp>,
    cfg: DramConfig,
    lock_budget: u32,
    r: Option<DramInfo>,
) -> bool {
    let w = t1[t0.len() as int].value();
    &&& extends(t0, t1)
    &&& t1.len() > t0.len()
    &&& t1[t0.len() as int].is_read_of(DRAM_MARKER_ADDR)
    &&& marker_info_spec(w) is Some ==> {
        &&& r == marker_info_spec(w)
        &&& t1.len() == t0.len() + 1
    }
    &&& marker_info_spec(w) is None ==> match r {
        Some(info) => {
            &&& exists|ls: Seq<int>, bs: Seq<int>, ks: Seq<int>, p: DramPara|
                {
                    &&& #[trigger] cold_run(t1.drop_last(), t0.len() as int + 1, t1.len() - 1, para_of_config(cfg), lock_budget, ls, bs, ks, p, true)
                    &&& info == (DramInfo { base: SDRAM_BASE, size_mb: p.size })
                }
            &&& spares(t0, t1.drop_last())
            &&& (info.size_mb == 16 || info.size_mb == 32 || info.size_mb == 64)
            &&& t1.last() == (BusOp::Write { addr: DRAM_MARKER_ADDR, value: marker_word_spec(info.size_mb) })
        },
        None => {
            &&& exists|ls: Seq<int>, bs: Seq<int>, ks: Seq<int>, p: DramPara|
                #[trigger] cold_run(t1, t0.len() as int + 1, t1.len() as int, para_of_config(cfg), lock_budget, ls, bs, ks, p, false)
            &&& spares(t0, t1)
        },
    }
}

/// Brings up the memory unless the marker word says it already is, polling the
/// memory PLL lock at most `lock_budget` times.
pub fn init_with_lock_budget<H: RegisterBus>(bus: &mut Bus<H>, cfg: DramConfig, lock_budget: u32) -> (r:
    Option<DramInfo>)
    requires
        cfg.pll_ddr_hz >= 6_000_000,
    ensures
        bring_up_outcome(old(bus).trace(), final(bus).trace(), cfg, lock_budget, r),
{
    let dsz = bus.read32(DRAM_MARKER_ADDR);
    let ghost t1 = bus.trace();
    let done = marker_info(dsz);
    if done.is_some() {
        return done;
    }
    let mut para = DramPara::from_config(&cfg);
    assert(para == para_of_config(cfg));
    let (ok, Ghost(layout)) = dram_init_inner(bus, &mut para, lock_budget);
    let ghost t2 = bus.trace();
    proof {
        assert(t2.take(t2.len() as int) == t2);
    }
    if ok {
        let w = marker_word(para.size);
        bus.write32(DRAM_MARKER_ADDR, w);
        proof {
            let t = bus.trace();
            assert(t.drop_last() == t2);
            assert(cold_run(t.drop_last(), old(bus).trace().len() as int + 1, t.len() - 1, para_of_config(cfg), lock_budget, layout.0, layout.1, layout.2, para, true));
            assert(spares(old(bus).trace(), t.drop_last()));
            assert(extends(old(bus).trace(), t));
            assert(t[old(bus).trace().len() as int] == t1[old(bus).trace().len() as int]);
            assert(marker_word_spec(para.size) == w);
        }
        let r = Some(DramInfo { base: SDRAM_BASE, size_mb: para.size });
        proof {
            let t = bus.trace();
            let end = t.len() - 1;
            assert(cold_run(t.drop_last(), old(bus).trace().len() as int + 1, end, para_of_config(cfg), lock_budget, layout.0, layout.1, layout.2, para, r is Some));
            assert(r matches Some(info) ==> info == (DramInfo { base: SDRAM_BASE, size_mb: para.size }));
        }
        r
    } else {
        proof {
            let t = bus.trace();
            assert(t.take(t.len() as int) == t);
            assert(t[old(bus).trace().len() as int] == t1[old(bus).trace().len() as int]);
        }
        let r: Option<DramInfo> = None;
        proof {
            let t = bus.trace();
            let end = t.len() as int;
            assert(cold_run(t, old(bus).trace().len() as int + 1, end, para_of_config(cfg), lock_budget, layout.0, layout.1, layout.2, para, r is Some));
        }
        r
    }
}

/// Brings up the memory unless the marker word says it already is.
pub fn init_with_config<H: RegisterBus>(bus: &mut Bus<H>, cfg: DramConfig) -> (r: Option<DramInfo>)
    requires
        cfg.pll_ddr_hz >= 6_000_000,
    ensures
        bring_up_outcome(old(bus).trace(), final(bus).trace(), cfg, PLL_DDR_LOCK_BUDGET, r),
{
    init_with_lock_budget(bus, cfg, PLL_DDR_LOCK_BUDGET)
}

/// Brings up the memory with the default configuration: an F1C200S at 156 MHz.
pub fn init<H: RegisterBus>(bus: &mut Bus<H>) -> (r: Option<DramInfo>)
    ensures
        bring_up_outcome(
            old(bus).trace(),
            final(bus).trace(),
            DramConfig { chip: Chip::F1C200S, pll_ddr_hz: 156_000_000 },
            PLL_DDR_LOCK_BUDGET,
            r,
        ),
{
    init_with_config(bus, DramConfig::default())
}

/// A bring-up is idempotent: when a cold run has succeeded and the marker word
/// reads back as that run wrote it, the next run, whatever its configuration,
/// returns the same result after a single read and writes nothing.
pub proof fn lemma_bring_up_idempotent(
    t0: Seq<BusOp>,
    t1: Seq<BusOp>,
    cfg1: DramConfig,
    budget1: u32,
    r1: Option<DramInfo>,
    t2: Seq<BusOp>,
    cfg2: DramConfig,
    budget2: u32,
    r2: Option<DramInfo>,
)
    requires
        bring_up_outcome(t0, t1, cfg1, budget1, r1),
        marker_info_spec(t1[t0.len() as int].value()) is None,
        r1 is Some,
        bring_up_outcome(t1, t2, cfg2, budget2, r2),
        t2[t1.len() as int].value() == t1.last().value(),
    ensures
        r2 == r1,
        t2.len() == t1.len() + 1,
        extends_reading(t1, t2),
{
    let info = r1->Some_0;
    lemma_marker_round_trip(info.size_mb);
    assert(t2[t1.len() as int].is_read_of(DRAM_MARKER_ADDR));
}

} // verus!
