use fin_esp::cgram::{CgramPool, BLANK, SLOT_DOWN_ARROW, SLOT_UP_ARROW};
use fin_esp::glyphs::{asset_glyph, countdown_glyph, GLYPH_ASSET_BTC, GLYPH_ASSET_OIL};
use fin_esp::config::Screen;
use fin_esp::lcd::{Lcd, LcdOp, BACKLIGHT, EN, RS};
use fin_esp::sand::{rand_particle, Particle, SandGrid, WORDS};
use fin_esp::screen::RowCache;

/// The bytes that a display in four-bit mode takes from what goes over the bus: each byte with its
/// register select bit.
fn decode(ops: &[LcdOp]) -> Vec<(u8, bool)> {
    let mut halves: Vec<(u8, bool)> = Vec::new();
    let mut enabled: Option<u8> = None;
    for op in ops {
        if let LcdOp::Write(b) = op {
            if b & EN != 0 {
                enabled = Some(*b);
            } else if let Some(e) = enabled.take() {
                halves.push((e >> 4, e & RS != 0));
            }
        }
    }
    halves.chunks(2).map(|p| ((p[0].0 << 4) | p[1].0, p[1].1)).collect()
}

fn data(ops: &[LcdOp]) -> Vec<u8> {
    decode(ops).iter().filter(|b| b.1).map(|b| b.0).collect()
}

#[test]
fn a_byte_goes_out_in_two_halves() {
    let mut lcd = Lcd::new(0x27);
    assert_eq!(lcd.addr, 0x27);
    lcd.write_raw(&[0xA5]);
    let w = |b: u8| LcdOp::Write(b | BACKLIGHT);
    assert_eq!(
        lcd.take_ops(),
        vec![
            w(0xA0 | RS),
            w(0xA0 | RS | EN),
            w(0xA0 | RS),
            w(0x50 | RS),
            w(0x50 | RS | EN),
            w(0x50 | RS)
        ]
    );
    assert!(lcd.take_ops().is_empty());
}

#[test]
fn every_byte_arrives() {
    let mut lcd = Lcd::new(0x27);
    let all: Vec<u8> = (0..=255).collect();
    lcd.write_raw(&all);
    let ops = lcd.take_ops();
    assert_eq!(data(&ops), all);
}

#[test]
fn init_sets_four_bit_mode_and_clears() {
    let mut lcd = Lcd::new(0x27);
    lcd.init();
    let ops = lcd.take_ops();
    assert_eq!(ops[0], LcdOp::DelayMs(50));
    let delays: Vec<u32> = ops
        .iter()
        .filter_map(|o| match o {
            LcdOp::DelayMs(d) => Some(*d),
            _ => None,
        })
        .collect();
    assert_eq!(delays, vec![50, 5, 5, 1, 2]);
    assert_eq!(
        decode(&ops),
        vec![(0x33, false), (0x32, false), (0x28, false), (0x0C, false), (0x01, false), (0x06, false)]
    );
}

#[test]
fn cursor_and_commands() {
    let mut lcd = Lcd::new(0x27);
    lcd.set_cursor(7, 0);
    lcd.set_cursor(0, 1);
    lcd.set_cursor(3, 2);
    lcd.set_cursor(0, 3);
    lcd.set_cursor(1, 9);
    let ops = lcd.take_ops();
    let at: Vec<u8> = decode(&ops).iter().map(|b| b.0).collect();
    assert_eq!(at, vec![0x87, 0xC0, 0x97, 0xD4, 0xD5]);
    lcd.home();
    let ops = lcd.take_ops();
    assert_eq!(decode(&ops), vec![(0x02, false)]);
    assert_eq!(ops.last(), Some(&LcdOp::DelayMs(2)));
    lcd.clear();
    assert_eq!(decode(&lcd.take_ops()), vec![(0x01, false)]);
}

#[test]
fn print_sends_the_bytes_of_the_text() {
    let mut lcd = Lcd::new(0x27);
    lcd.print("Hi é");
    assert_eq!(data(&lcd.take_ops()), "Hi é".as_bytes());
}

#[test]
fn backlight_rides_along() {
    let mut lcd = Lcd::new(0x27);
    lcd.write_backlight(false);
    assert_eq!(lcd.take_ops(), vec![LcdOp::Write(0)]);
    lcd.write_raw(&[0x41]);
    for op in lcd.take_ops() {
        if let LcdOp::Write(b) = op {
            assert_eq!(b & BACKLIGHT, 0);
        }
    }
    lcd.backlight_on();
    assert_eq!(lcd.take_ops(), vec![LcdOp::Write(BACKLIGHT)]);
    lcd.backlight_off();
    assert_eq!(lcd.take_ops(), vec![LcdOp::Write(0)]);
    lcd.write_backlight(true);
    assert_eq!(lcd.take_ops(), vec![LcdOp::Write(BACKLIGHT)]);
}

#[test]
fn glyphs_go_to_their_slot() {
    let mut lcd = Lcd::new(0x27);
    lcd.create_char(3, &[1, 2, 3, 4, 5, 6, 7, 8]);
    let ops = lcd.take_ops();
    assert_eq!(decode(&ops)[0], (0x58, false));
    assert_eq!(data(&ops), vec![1, 2, 3, 4, 5, 6, 7, 8]);
    lcd.create_char(11, &BLANK);
    assert_eq!(decode(&lcd.take_ops())[0], (0x58, false));
}

#[test]
fn slots_are_claimed_in_order_and_given_back() {
    let mut pool = CgramPool::new();
    for i in 0..8u8 {
        assert!(!pool.is_full());
        assert_eq!(pool.claim(), Some(i));
        assert!(pool.is_used(i));
        assert_eq!(pool.count_used(), i as usize + 1);
    }
    assert!(pool.is_full());
    assert_eq!(pool.claim(), None);
    pool.free(5);
    assert!(!pool.is_used(5));
    assert_eq!(pool.claim(), Some(5));
    pool.free(2);
    let mut lcd = Lcd::new(0x27);
    pool.release(&mut lcd);
    let ops = lcd.take_ops();
    let set: Vec<u8> = decode(&ops).iter().filter(|b| !b.1).map(|b| b.0).collect();
    assert_eq!(set, vec![0x40, 0x48, 0x58, 0x60, 0x68, 0x70, 0x78]);
    assert_eq!(data(&ops), vec![0u8; 56]);
    assert_eq!(pool.count_used(), 0);
}

#[test]
fn countdown_removes_dots_from_the_top_left() {
    assert_eq!(countdown_glyph(30), [0, 31, 31, 31, 31, 31, 31, 0]);
    assert_eq!(countdown_glyph(200), countdown_glyph(30));
    assert_eq!(countdown_glyph(29), [0, 15, 31, 31, 31, 31, 31, 0]);
    assert_eq!(countdown_glyph(24), [0, 0, 15, 31, 31, 31, 31, 0]);
    assert_eq!(countdown_glyph(1), [0, 0, 0, 0, 0, 0, 1, 0]);
    assert_eq!(countdown_glyph(0), [0; 8]);
}

#[test]
fn assets_have_glyphs() {
    assert_eq!(*asset_glyph(Screen::Oil), GLYPH_ASSET_OIL);
    assert_eq!(*asset_glyph(Screen::UsdBrl), GLYPH_ASSET_BTC);
    assert_eq!(SLOT_UP_ARROW, 2);
    assert_eq!(SLOT_DOWN_ARROW, 3);
}

#[test]
fn rows_are_written_only_when_they_change() {
    let mut lcd = Lcd::new(0x27);
    let mut cache = RowCache::new();
    let a = [b'a'; 20];
    cache.commit(&mut lcd, 2, &a);
    assert_eq!(data(&lcd.take_ops()), a.to_vec());
    cache.commit(&mut lcd, 2, &a);
    assert!(lcd.take_ops().is_empty());
    cache.commit(&mut lcd, 0, &a);
    assert_eq!(data(&lcd.take_ops()), a.to_vec());
    cache.commit(&mut lcd, 0, &a);
    assert_eq!(data(&lcd.take_ops()), a.to_vec());
    cache.invalidate();
    cache.commit(&mut lcd, 2, &a);
    let ops = lcd.take_ops();
    assert_eq!(decode(&ops)[0], (0x94, false));
    assert_eq!(data(&ops), a.to_vec());
}

#[test]
fn glyphs_are_sent_only_when_they_change() {
    let mut lcd = Lcd::new(0x27);
    let mut cache = RowCache::new();
    cache.write_glyph(&mut lcd, 4, &GLYPH_ASSET_OIL);
    assert_eq!(data(&lcd.take_ops()), GLYPH_ASSET_OIL.to_vec());
    cache.write_glyph(&mut lcd, 4, &GLYPH_ASSET_OIL);
    cache.invalidate();
    cache.write_glyph(&mut lcd, 4, &GLYPH_ASSET_OIL);
    assert!(lcd.take_ops().is_empty());
    cache.write_glyph(&mut lcd, 4, &GLYPH_ASSET_BTC);
    assert_eq!(data(&lcd.take_ops()), GLYPH_ASSET_BTC.to_vec());
}

fn lit(g: &SandGrid) -> usize {
    g.glyphs().iter().flatten().map(|b| b.count_ones() as usize).sum()
}

#[test]
fn particles_come_by_chance() {
    assert_eq!(rand_particle(0), Particle::Sand);
    assert_eq!(rand_particle(7), Particle::Water);
}

/// With these words nothing drifts: bit 0 picks the left side on a tie, but the low four bits are
/// not all zero.
fn steady() -> Vec<u32> {
    vec![0x12; WORDS]
}

#[test]
fn a_grain_falls_straight_down() {
    let words = steady();
    let mut g = SandGrid::new(Particle::Sand);
    // The source cell needs no slot, so that nothing shows until a grain has left it.
    for _ in 0..7 {
        g.step(&words);
    }
    assert_eq!(lit(&g), 0);
    assert_eq!(g.display_chars(), [[b' '; 5]; 4]);
    g.step(&words);
    let chars = g.display_chars();
    assert_eq!(chars[1][2], 0);
    assert_eq!(g.glyphs()[0], [0b00100, 0, 0, 0, 0, 0, 0, 0]);
    g.step(&words);
    assert_eq!(g.glyphs()[0], [0b00100, 0b00100, 0, 0, 0, 0, 0, 0]);
}

#[test]
fn a_drift_goes_aside() {
    let mut words = steady();
    let mut g = SandGrid::new(Particle::Sand);
    for _ in 0..7 {
        g.step(&words);
    }
    // The lowest grain, at (12, 7), drifts left.
    words[7 * 25 + 12] = 0x20;
    g.step(&words);
    assert_eq!(g.glyphs()[0][0], 0b01000);
    // The next one drifts right.
    words[7 * 25 + 12] = 0x10;
    g.step(&words);
    assert_eq!(g.glyphs()[0][0], 0b00010);
}

#[test]
fn sand_piles_and_water_spreads() {
    let words = steady();
    let mut sand = SandGrid::new(Particle::Sand);
    let mut water = SandGrid::new(Particle::Water);
    for _ in 0..120 {
        sand.step(&words);
        water.step(&words);
    }
    let bottom = |g: &SandGrid| {
        let chars = g.display_chars();
        let glyphs = g.glyphs();
        let mut n = 0;
        for c in chars[3] {
            if c < 8 {
                n += glyphs[c as usize][7].count_ones();
            }
        }
        n
    };
    assert_eq!(bottom(&water), 25);
    assert!(bottom(&sand) < 25);
    assert!(bottom(&sand) > 1);
}

#[test]
fn a_full_canvas_starts_over() {
    let mut words = steady();
    words[800] = 1;
    let mut g = SandGrid::new(Particle::Sand);
    let mut restarted = None;
    for i in 0..4000 {
        g.step(&words);
        if g.particle == Particle::Water {
            restarted = Some(i);
            break;
        }
    }
    assert!(restarted.is_some());
    assert_eq!(g.display_chars(), [[b' '; 5]; 4]);
}

#[test]
fn only_changed_glyphs_are_rendered() {
    let words = steady();
    let mut lcd = Lcd::new(0x27);
    let mut g = SandGrid::new(Particle::Sand);
    for _ in 0..10 {
        g.step(&words);
    }
    g.render(&mut lcd, 7);
    let ops = lcd.take_ops();
    let set: Vec<u8> = decode(&ops).iter().filter(|b| !b.1).map(|b| b.0).collect();
    assert_eq!(set, vec![0x40, 0x87, 0xC7, 0x9B, 0xDB]);
    g.render(&mut lcd, 7);
    let ops = lcd.take_ops();
    let set: Vec<u8> = decode(&ops).iter().filter(|b| !b.1).map(|b| b.0).collect();
    assert_eq!(set, vec![0x87, 0xC7, 0x9B, 0xDB]);
    let new = g.glyphs();
    assert_eq!(g.diff_and_update(&new), [false; 8]);
    assert_eq!(g.diff_and_update(&[[1; 8]; 8]), [true; 8]);
    g.release(&mut lcd, 3);
    assert_eq!(data(&lcd.take_ops()), vec![0u8; 8]);
    assert_eq!(g.particle, Particle::Water);
    assert_eq!(lit(&g), 0);
}

#[test]
fn no_grain_is_lost() {
    let words = steady();
    let mut g = SandGrid::new(Particle::Sand);
    for _ in 0..20 {
        g.step(&words);
    }
    // One grain per step, from y = 1 to y = 20; seven of them are still in the source cell.
    assert_eq!(lit(&g), 13);
}

#[test]
fn every_cell_has_a_slot_of_its_own() {
    let mut words = steady();
    let mut g = SandGrid::new(Particle::Water);
    for i in 0..600u32 {
        for (k, w) in words.iter_mut().enumerate() {
            *w = (i + 1).wrapping_mul(2_654_435_761).wrapping_add(k as u32 * 40_503) >> 7;
        }
        g.step(&words);
        let mut seen = [false; 8];
        let glyphs = g.glyphs();
        for code in g.display_chars().iter().flatten() {
            if *code != b' ' {
                assert!(!seen[*code as usize]);
                seen[*code as usize] = true;
                assert!(glyphs[*code as usize] != [0; 8]);
            }
        }
    }
}
