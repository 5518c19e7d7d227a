use std::collections::HashMap;

use f1c100s_hal::bus::{Bus, MemoryBus, RegisterBus};
use f1c100s_hal::dram::{DRAM_SCONR, DRAM_SREFR, 
    best_readpipe, classify_type, decode_geometry, delay_score, geometry_word, init, init_with_config,
    init_with_lock_budget, marker_info, marker_word, pad_drive_preset, pll_ddr_pattern, pll_ddr_word,
    refresh_count, scan_window_ok, size_for, width_from_probe, Chip, DramConfig, DramInfo, DramPara,
    DramType, Geometry, DRAM_DDLYR, DRAM_MARKER_ADDR, DRAM_SCTLR, SDRAM_BASE,
};

const PLL_DDR_CTRL: u32 = 0x01c2_0020;

/// A board with a 32 MB part: nine column bits, so address bit 10 is not
/// decoded; controller start bits clear themselves and the memory PLL locks.
struct Board {
    mem: HashMap<u32, u32>,
    poison: Option<u32>,
    pll_locks: bool,
    writes: usize,
    sdr: bool,
    row_alias: bool,
}

impl Board {
    fn new() -> Board {
        Board { mem: HashMap::new(), poison: None, pll_locks: true, writes: 0, sdr: false, row_alias: false }
    }

    fn decode(&self, addr: u32) -> u32 {
        if addr >= SDRAM_BASE {
            if self.row_alias {
                addr & !0x400 & !0x40_0000
            } else {
                addr & !0x400
            }
        } else {
            addr
        }
    }
}

impl RegisterBus for Board {
    fn read32(&mut self, addr: u32) -> u32 {
        let v = *self.mem.get(&self.decode(addr)).unwrap_or(&0);
        if addr == DRAM_DDLYR && self.sdr {
            return (v & !1) | 0x30;
        }
        if addr == DRAM_SCTLR || addr == DRAM_DDLYR {
            return v & !1;
        }
        if addr == PLL_DDR_CTRL && self.pll_locks {
            return v | (1 << 28);
        }
        if Some(addr) == self.poison {
            return v ^ 0x1;
        }
        v
    }

    fn write32(&mut self, addr: u32, value: u32) {
        self.writes += 1;
        let a = self.decode(addr);
        self.mem.insert(a, value);
    }
}

/// Panics on any write.
struct ReadOnly {
    marker: u32,
}

impl RegisterBus for ReadOnly {
    fn read32(&mut self, addr: u32) -> u32 {
        assert_eq!(addr, DRAM_MARKER_ADDR);
        self.marker
    }

    fn write32(&mut self, _addr: u32, _value: u32) {
        panic!("write during an already completed bring-up");
    }
}

#[test]
fn bring_up_detects_32mb_part() {
    let mut bus = Bus::new(Board::new());
    let r = init_with_config(&mut bus, DramConfig { chip: Chip::F1C100S, pll_ddr_hz: 156_000_000 });
    assert_eq!(r, Some(DramInfo { base: 0x8000_0000, size_mb: 32 }));
    assert_eq!(bus.hw().mem[&DRAM_MARKER_ADDR], 0x5800_0020);
}

#[test]
fn bring_up_fails_on_poisoned_word() {
    let mut board = Board::new();
    board.poison = Some(SDRAM_BASE + 4 * 100);
    let mut bus = Bus::new(board);
    let r = init_with_config(&mut bus, DramConfig { chip: Chip::F1C100S, pll_ddr_hz: 156_000_000 });
    assert_eq!(r, None);
    assert!(!bus.hw().mem.contains_key(&DRAM_MARKER_ADDR));
}

#[test]
fn second_bring_up_reuses_marker() {
    let mut bus = Bus::new(Board::new());
    let first = init_with_config(&mut bus, DramConfig { chip: Chip::F1C100S, pll_ddr_hz: 156_000_000 });
    let writes = bus.hw().writes;
    let second = init(&mut bus);
    assert_eq!(first, second);
    assert_eq!(bus.hw().writes, writes);
}

#[test]
fn marker_short_circuits_without_writes() {
    let mut bus = Bus::new(ReadOnly { marker: 0x5800_0040 });
    let r = init_with_config(&mut bus, DramConfig { chip: Chip::F1C100S, pll_ddr_hz: 156_000_000 });
    assert_eq!(r, Some(DramInfo { base: 0x8000_0000, size_mb: 64 }));
}

#[test]
fn plain_memory_never_sees_start_bit_clear() {
    // A memory that only reflects writes keeps the start bit set: the bounded
    // wait expires and bring-up fails without writing the marker.
    let mut bus = Bus::new(MemoryBus::new());
    let r = init_with_lock_budget(&mut bus, DramConfig { chip: Chip::F1C200S, pll_ddr_hz: 156_000_000 }, 4);
    assert_eq!(r, None);
    assert_eq!(bus.hw().peek(DRAM_MARKER_ADDR), 0);
}

#[test]
fn pll_that_never_locks_is_not_fatal() {
    let mut board = Board::new();
    board.pll_locks = false;
    let mut bus = Bus::new(board);
    let r = init_with_lock_budget(&mut bus, DramConfig { chip: Chip::F1C100S, pll_ddr_hz: 156_000_000 }, 1000);
    assert_eq!(r, Some(DramInfo { base: 0x8000_0000, size_mb: 32 }));
}

#[test]
fn default_config_is_f1c200s_at_156mhz() {
    let c = DramConfig::default();
    assert_eq!(c.chip, Chip::F1C200S);
    assert_eq!(c.pll_ddr_hz, 156_000_000);
}

#[test]
fn para_from_config_uses_chip_size() {
    let p = DramPara::from_config(&DramConfig { chip: Chip::F1C100S, pll_ddr_hz: 156_000_000 });
    assert_eq!(p.size, 32);
    assert_eq!(p.clk, 156);
    assert_eq!((p.col_width, p.row_width), (10, 13));
    let p = DramPara::from_config(&DramConfig { chip: Chip::F1C200S, pll_ddr_hz: 156_000_000 });
    assert_eq!(p.size, 64);
}

#[test]
fn geometry_word_of_default_para() {
    let p = DramPara::from_config(&DramConfig { chip: Chip::F1C100S, pll_ddr_hz: 156_000_000 });
    let w = geometry_word(&p);
    // remap 0, bit 1, bank 1, cs 0, row 12, col 9, bus code 1, mode 1, DDR.
    assert_eq!(w, 0x2 | 0x8 | (12 << 5) | (9 << 9) | (1 << 13) | (1 << 15) | (1 << 16));
    let g = decode_geometry(w);
    assert_eq!(
        g,
        Geometry {
            ddr8_remap: 0,
            bank_size: 4,
            cs_num: 1,
            row_width: 13,
            col_width: 10,
            bwidth: 16,
            access_mode: 1,
            sdr_ddr: DramType::Ddr,
        }
    );
}

#[test]
fn geometry_round_trip_sdr_32bit() {
    let mut p = DramPara::from_config(&DramConfig { chip: Chip::F1C200S, pll_ddr_hz: 96_000_000 });
    p.sdr_ddr = DramType::Sdr;
    p.bwidth = 32;
    p.cs_num = 2;
    p.bank_size = 2;
    p.col_width = 9;
    p.row_width = 12;
    p.access_mode = 0;
    p.ddr8_remap = 1;
    let g = decode_geometry(geometry_word(&p));
    assert_eq!(
        g,
        Geometry {
            ddr8_remap: 1,
            bank_size: 2,
            cs_num: 2,
            row_width: 12,
            col_width: 9,
            bwidth: 32,
            access_mode: 0,
            sdr_ddr: DramType::Sdr,
        }
    );
}

#[test]
fn refresh_boundary_at_one_million() {
    // Just below the boundary: multiply-shift.
    assert_eq!(refresh_count(999_999, 0xc), (999_999u32 * 499) >> 6);
    assert_eq!(refresh_count(999_999, 0xc), 7_796_867);
    // At the boundary: the subtraction loop, (1e6 + 125000 + 62500 + 31250) / 156250.
    assert_eq!(refresh_count(1_000_000, 0xc), 7);
    assert_eq!(refresh_count(1_000_000, 0xb), 15);
    assert_eq!(refresh_count(999_999, 0xb), (999_999u32 * 499) >> 5);
}

#[test]
fn refresh_for_156mhz_and_other_rows() {
    assert_eq!(refresh_count(156, 0xc), (156 * 499) >> 6);
    assert_eq!(refresh_count(156, 0xc), 1216);
    assert_eq!(refresh_count(156, 0xb), 2432);
    assert_eq!(refresh_count(156, 0xa), 0);
    assert_eq!(refresh_count(u32::MAX, 0xc), 33_500);
}

#[test]
fn marker_encoding() {
    assert_eq!(marker_word(32), 0x5800_0020);
    assert_eq!(marker_info(0x5800_0020), Some(DramInfo { base: 0x8000_0000, size_mb: 32 }));
    assert_eq!(marker_info(0x5900_0020), None);
    assert_eq!(marker_info(0), None);
}

#[test]
fn pad_drive_tiers() {
    assert_eq!(pad_drive_preset(143), None);
    assert_eq!(pad_drive_preset(144), Some(0xaaa));
    assert_eq!(pad_drive_preset(179), Some(0xaaa));
    assert_eq!(pad_drive_preset(180), Some(0xfff));
    assert_eq!(pad_drive_preset(300), Some(0xfff));
}

#[test]
fn memory_pll_words() {
    // 156 MHz: 312 / 24 - 1 = 12 in the factor field.
    assert_eq!(pll_ddr_word(156, 3), (12 << 8) | 0x8000_0000);
    // 96 MHz: divider-by-12 encoding, 192 / 12 - 1 = 15.
    assert_eq!(pll_ddr_word(96, 3), 1 | (15 << 8) | 0x8000_0000);
    assert_eq!(pll_ddr_word(156, 0x20), (12 << 8) | 0x8000_0000 | 0x0100_0000);
}

#[test]
fn memory_pll_patterns() {
    assert_eq!(pll_ddr_pattern(3), None);
    assert_eq!(pll_ddr_pattern(0x10), Some(0xd130_3333));
    assert_eq!(pll_ddr_pattern(0x20), Some(0xcce0_6666));
    assert_eq!(pll_ddr_pattern(0x40), Some(0xc890_9999));
    assert_eq!(pll_ddr_pattern(0x80), Some(0xc440_cccc));
    assert_eq!(pll_ddr_pattern(0x30), Some(0xd130_3333));
}

#[test]
fn type_classification() {
    assert_eq!(classify_type(8), DramType::Sdr);
    assert_eq!(classify_type(7), DramType::Ddr);
    assert_eq!(classify_type(0), DramType::Ddr);
    assert!(scan_window_ok(0x0));
    assert!(scan_window_ok(0xc1));
    assert!(!scan_window_ok(0x10));
    assert!(!scan_window_ok(0x20));
}

#[test]
fn readpipe_best_score_first_on_tie() {
    assert_eq!(best_readpipe(&vec![0, 3, 5, 5, 1, 0, 5, 2]), 2);
    assert_eq!(best_readpipe(&vec![0; 8]), 0);
    assert_eq!(best_readpipe(&vec![1, 0, 0, 0, 0, 0, 0, 9]), 7);
}

#[test]
fn delay_scores_count_bits() {
    assert_eq!(delay_score(&vec![0xffff_ffff, 0x1, 0x3, 0]), 35);
    assert_eq!(delay_score(&vec![]), 0);
    assert_eq!(delay_score(&vec![0x8000_0001, 0xf0]), 6);
}

#[test]
fn size_table() {
    assert_eq!(width_from_probe(32, 9, 10), 9);
    assert_eq!(width_from_probe(31, 9, 10), 10);
    assert_eq!(size_for(10, 13), 64);
    assert_eq!(size_for(9, 13), 32);
    assert_eq!(size_for(10, 12), 16);
    assert_eq!(size_for(9, 12), 16);
}

#[test]
fn sdr_part_is_detected_and_calibrated_by_ramp() {
    let mut board = Board::new();
    board.sdr = true;
    let mut bus = Bus::new(board);
    let r = init_with_config(&mut bus, DramConfig { chip: Chip::F1C100S, pll_ddr_hz: 156_000_000 });
    assert_eq!(r, Some(DramInfo { base: 0x8000_0000, size_mb: 32 }));
    // Final geometry word: SDR (bit 16 clear), 9 column bits, 13 row bits.
    let sconr = bus.hw().mem[&DRAM_SCONR];
    assert_eq!((sconr >> 16) & 1, 0);
    assert_eq!((sconr >> 9) & 0xf, 8);
    assert_eq!((sconr >> 5) & 0xf, 12);
}

#[test]
fn refresh_follows_detected_row_width() {
    let mut board = Board::new();
    board.row_alias = true;
    let mut bus = Bus::new(board);
    let r = init_with_config(&mut bus, DramConfig { chip: Chip::F1C100S, pll_ddr_hz: 156_000_000 });
    assert_eq!(r, Some(DramInfo { base: 0x8000_0000, size_mb: 16 }));
    // 12 row bits: row field 0xb, so 156 * 499 >> 5.
    assert_eq!(bus.hw().mem[&DRAM_SREFR], 2432);
    assert_eq!(bus.hw().mem[&DRAM_MARKER_ADDR], 0x5800_0010);
}
