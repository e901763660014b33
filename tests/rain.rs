use chalbik::cli::{color_named, lifespan_ms, parse_args, parse_number, speed_named, Command};
use chalbik::columns::{ColumnTracker, Speed};
use chalbik::drops::{Intensity, RainDrop};
use chalbik::frame::{compose, render_frame, Cell, Grid, RainColor, RainConfig};
use chalbik::glyphs::{Catalog, CatalogError};
use chalbik::random::{mix, Lcg};

fn config(speed: Speed, life_ms: u64) -> RainConfig {
    RainConfig {
        tail_color: RainColor::Red,
        head_color: RainColor::Yellow,
        speed,
        tail_lifespan_ms: life_ms,
    }
}

fn lit_cells(g: &Grid) -> Vec<(usize, usize, Cell)> {
    let mut out = Vec::new();
    for (y, row) in g.rows.iter().enumerate() {
        for (x, c) in row.iter().enumerate() {
            if let Cell::Lit { .. } = c {
                out.push((x, y, *c));
            }
        }
    }
    out
}

fn strings(words: &[&str]) -> Vec<String> {
    words.iter().map(|w| w.to_string()).collect()
}

#[test]
fn klingon_catalog_has_38_glyphs() {
    let cat = Catalog::klingon().unwrap();
    assert_eq!(cat.len(), 48 - 6 - 4);
    assert_eq!(cat.len(), 38);
    for i in 0..cat.len() {
        let off = cat.get(i) as u32 - 0xF8D0;
        assert!(!(0x1A..=0x1F).contains(&off));
        assert!(!(0x2A..=0x2D).contains(&off));
    }
    assert_eq!(cat.get(0), '\u{F8D0}');
    assert_eq!(cat.get(25), '\u{F8E9}');
    assert_eq!(cat.get(26), '\u{F8F0}');
    assert_eq!(cat.get(37), '\u{F8FF}');
}

#[test]
fn catalog_keeps_code_points_in_order() {
    let cat = Catalog::from_range(0x41, 0x45, &vec![(1, 1)]).unwrap();
    let got: Vec<char> = (0..cat.len()).map(|i| cat.get(i)).collect();
    assert_eq!(got, vec!['A', 'C', 'D', 'E']);
}

#[test]
fn catalog_of_surrogates_or_empty_range_is_an_error() {
    assert!(matches!(Catalog::from_range(0xD800, 0xDFFF, &vec![]), Err(CatalogError::Empty)));
    assert!(matches!(Catalog::from_range(10, 9, &vec![]), Err(CatalogError::Empty)));
    assert!(matches!(Catalog::from_range(0x41, 0x42, &vec![(0, 5)]), Err(CatalogError::Empty)));
}

#[test]
fn glyph_choice_is_stable_within_a_flicker_interval() {
    let cat = Catalog::klingon().unwrap();
    assert_eq!(cat.glyph_for(3, 4, 1000), cat.glyph_for(3, 4, 1499));
    let i = mix(3, 4, 2) as usize % cat.len();
    assert_eq!(cat.glyph_for(3, 4, 1000), cat.get(i));
}

#[test]
fn generator_values_are_exact() {
    let mut g = Lcg::new(0);
    assert_eq!(g.next_u64(), 335903614);
    assert_eq!(g.state, 1442695040888963407);
    assert_eq!(g.next_u64(), 436792849);
    assert_eq!(mix(0, 0, 0), 2599843874);
    assert_eq!(mix(1, 2, 3), 2142236517);
}

#[test]
fn head_row_at_five_seconds_is_five() {
    let d = RainDrop::new(0, 1000);
    assert_eq!(d.head_row_at(5000), 5);
    assert_eq!(d.head_row_at(5999), 5);
    assert_eq!(d.head_row_at(6000), 6);
}

#[test]
fn row_lit_at_five_seconds_has_faded_by_fifteen() {
    let d = RainDrop::new(0, 1000);
    let life = 10_000;
    assert_eq!(d.intensity(5, 5000, life), Intensity { num: life, den: life });
    assert_eq!(d.intensity(5, 14_999, life), Intensity { num: 1, den: life });
    assert_eq!(d.intensity(5, 15_000, life), Intensity { num: 0, den: life });
    assert_eq!(d.intensity(5, 20_000, life), Intensity { num: 0, den: life });
}

#[test]
fn head_is_full_and_trail_dims_with_distance() {
    let d = RainDrop::new(1000, 200);
    let t = 3500;
    let life = 2000;
    let head = d.head_row_at(t);
    assert_eq!(head, 12);
    assert!(d.intensity(head, t, life).full());
    let mut prev = d.intensity(head, t, life).num;
    for r in (0..head).rev() {
        let cur = d.intensity(r, t, life).num;
        assert!(cur < prev || cur == 0);
        prev = cur;
    }
    assert_eq!(d.intensity(11, t, life).num, 2000 - 300);
    assert_eq!(d.intensity(2, t, life).num, 0);
    assert!(d.intensity(head + 1, t, life).dark());
}

#[test]
fn head_row_never_decreases() {
    let d = RainDrop::new(250, 50);
    let mut last = 0;
    for t in (250..5000).step_by(37) {
        let h = d.head_row_at(t);
        assert!(h >= last);
        last = h;
    }
}

#[test]
fn zero_lifespan_lights_only_the_head() {
    let mut tracker = ColumnTracker::new(3);
    assert!(tracker.spawn(1, 0, Speed::Fast, 0));
    let cfg = config(Speed::Fast, 0);
    let cat = Catalog::klingon().unwrap();
    for t in [0u64, 49, 50, 420, 999] {
        tracker.advance(t, 30, 0);
        let g = compose(&tracker, &cfg, &cat, t, 30);
        let lit = lit_cells(&g);
        assert_eq!(lit.len(), 1);
        let (x, y, c) = lit[0];
        assert_eq!(x, 1);
        assert_eq!(y as u64, t / 50);
        assert!(matches!(c, Cell::Lit { color: RainColor::Yellow, .. }));
    }
}

#[test]
fn spawn_never_replaces_a_live_drop() {
    let mut tracker = ColumnTracker::new(2);
    assert!(tracker.spawn(0, 100, Speed::Slow, 5));
    let first = tracker.drop_at(0);
    assert!(!tracker.spawn(0, 200, Speed::Slow, 5));
    assert_eq!(tracker.drop_at(0), first);
    assert_eq!(first, Some(RainDrop { spawn_ms: 100, ms_per_row: 200, head_row: 0 }));
}

#[test]
fn spawn_follows_the_roll_and_the_speed() {
    let mut tracker = ColumnTracker::new(4);
    assert!(tracker.spawn(0, 0, Speed::Slow, 1019));
    assert!(!tracker.spawn(1, 0, Speed::Slow, 20));
    assert!(tracker.spawn(2, 0, Speed::Fast, 49));
    assert!(!tracker.spawn(3, 0, Speed::Fast, 50));
    assert_eq!(Speed::Slow.ms_per_row(), 200);
    assert_eq!(Speed::Fast.ms_per_row(), 50);
    assert!(Speed::Slow.spawn_chance() < Speed::Fast.spawn_chance());
}

#[test]
fn advance_retires_a_drop_once_it_has_faded_out() {
    let mut tracker = ColumnTracker::new(1);
    tracker.spawn(0, 0, Speed::Fast, 0);
    tracker.advance(450, 10, 100);
    assert_eq!(tracker.drop_at(0).unwrap().head_row, 9);
    tracker.advance(500, 10, 100);
    assert_eq!(tracker.drop_at(0).unwrap().head_row, 10);
    tracker.advance(549, 10, 100);
    assert!(tracker.drop_at(0).is_some());
    tracker.advance(550, 10, 100);
    assert!(tracker.drop_at(0).is_none());
}

#[test]
fn resize_keeps_existing_columns() {
    let mut tracker = ColumnTracker::new(2);
    tracker.spawn(1, 0, Speed::Fast, 0);
    tracker.resize(4);
    assert_eq!(tracker.width(), 4);
    assert!(tracker.drop_at(1).is_some());
    assert!(tracker.drop_at(3).is_none());
    tracker.resize(1);
    assert_eq!(tracker.width(), 1);
    assert!(tracker.drop_at(0).is_none());
}

#[test]
fn frame_has_the_requested_size_and_catalog_glyphs() {
    let cat = Catalog::klingon().unwrap();
    let glyphs: Vec<char> = (0..cat.len()).map(|i| cat.get(i)).collect();
    let mut tracker = ColumnTracker::new(0);
    let mut rng = Lcg::new(42);
    let cfg = config(Speed::Fast, 10_000);
    let mut seen = 0;
    for step in 0..60u64 {
        let g = render_frame(&mut tracker, &mut rng, &cfg, &cat, step * 50, 17, 9);
        assert_eq!(g.width, 17);
        assert_eq!(g.height, 9);
        assert_eq!(g.rows.len(), 9);
        for row in &g.rows {
            assert_eq!(row.len(), 17);
            for c in row {
                if let Cell::Lit { glyph, level, .. } = c {
                    assert!(glyphs.contains(glyph));
                    assert!(level.num > 0 && level.num <= level.den);
                    seen += 1;
                }
            }
        }
    }
    assert!(seen > 0);
}

#[test]
fn slow_frame_at_time_zero_lights_only_spawned_heads() {
    let cat = Catalog::klingon().unwrap();
    let cfg = config(Speed::Slow, 10_000);

    let mut tracker = ColumnTracker::new(0);
    let mut rng = Lcg::new(7);
    let g = render_frame(&mut tracker, &mut rng, &cfg, &cat, 0, 10, 8);
    assert_eq!(lit_cells(&g).len(), 0);

    let mut tracker = ColumnTracker::new(0);
    let mut rng = Lcg::new(7);
    let g = render_frame(&mut tracker, &mut rng, &cfg, &cat, 0, 400, 8);
    let drops = (0..400).filter(|&x| tracker.drop_at(x).is_some()).count();
    assert!(drops > 0);
    let lit = lit_cells(&g);
    assert_eq!(lit.len(), drops);
    for (x, y, c) in lit {
        assert_eq!(y, 0);
        assert!(tracker.drop_at(x).is_some());
        assert!(matches!(c, Cell::Lit { color: RainColor::Yellow, .. }));
    }
}

#[test]
fn frame_draws_head_and_trail_colors() {
    let cat = Catalog::klingon().unwrap();
    let cfg = config(Speed::Fast, 1000);
    let mut tracker = ColumnTracker::new(1);
    tracker.spawn(0, 0, Speed::Fast, 0);
    tracker.advance(160, 10, 1000);
    let g = compose(&tracker, &cfg, &cat, 160, 10);
    assert!(matches!(g.cell(0, 3), Cell::Lit { color: RainColor::Yellow, .. }));
    assert!(matches!(g.cell(0, 2), Cell::Lit { color: RainColor::Red, level: Intensity { num: 940, den: 1000 }, .. }));
    assert!(matches!(g.cell(0, 0), Cell::Lit { color: RainColor::Red, level: Intensity { num: 840, den: 1000 }, .. }));
    assert_eq!(g.cell(0, 4), Cell::Empty);
}

#[test]
fn arguments_default_when_absent() {
    let cmd = parse_args(&strings(&["chalbik"]));
    assert_eq!(
        cmd,
        Command::Run(RainConfig {
            tail_color: RainColor::Red,
            head_color: RainColor::Yellow,
            speed: Speed::Fast,
            tail_lifespan_ms: 10_000,
        })
    );
    assert_eq!(parse_args(&vec![]), parse_args(&strings(&["chalbik"])));
}

#[test]
fn arguments_set_every_option() {
    let cmd = parse_args(&strings(&[
        "chalbik", "-t", "green", "--head-color", "light_gray", "-s", "slow", "--tail-length", "3",
    ]));
    assert_eq!(
        cmd,
        Command::Run(RainConfig {
            tail_color: RainColor::Green,
            head_color: RainColor::Gray,
            speed: Speed::Slow,
            tail_lifespan_ms: 3000,
        })
    );
}

#[test]
fn arguments_ask_for_help_anywhere() {
    assert_eq!(parse_args(&strings(&["chalbik", "-s", "slow", "--help"])), Command::Help);
    assert_eq!(parse_args(&strings(&["chalbik", "-h"])), Command::Help);
}

#[test]
fn flag_takes_the_next_word_even_when_it_is_a_flag() {
    let cmd = parse_args(&strings(&["chalbik", "--speed", "--tail-color", "blue", "-l"]));
    assert_eq!(
        cmd,
        Command::Run(RainConfig {
            tail_color: RainColor::Red,
            head_color: RainColor::Yellow,
            speed: Speed::Fast,
            tail_lifespan_ms: 10_000,
        })
    );
}

#[test]
fn unknown_names_fall_back() {
    assert_eq!(color_named(&"purple".to_string(), RainColor::Red), RainColor::Red);
    assert_eq!(color_named(&"purple".to_string(), RainColor::Yellow), RainColor::Yellow);
    assert_eq!(color_named(&"dark_gray".to_string(), RainColor::Red), RainColor::DarkGray);
    assert_eq!(color_named(&"light_cyan".to_string(), RainColor::Red), RainColor::LightCyan);
    assert_eq!(speed_named(&"slow".to_string()), Speed::Slow);
    assert_eq!(speed_named(&"medium".to_string()), Speed::Fast);
}

#[test]
fn numbers_parse_like_unsigned_decimals() {
    let p = |s: &str| parse_number(&s.to_string());
    assert_eq!(p("0"), Some(0));
    assert_eq!(p("42"), Some(42));
    assert_eq!(p("+7"), Some(7));
    assert_eq!(p("007"), Some(7));
    assert_eq!(p("18446744073709551615"), Some(u64::MAX));
    assert_eq!(p("18446744073709551616"), None);
    assert_eq!(p(""), None);
    assert_eq!(p("+"), None);
    assert_eq!(p("-1"), None);
    assert_eq!(p("1a"), None);
    assert_eq!(p(" 1"), None);
    assert_eq!(p("١"), None);
}

#[test]
fn tail_length_in_milliseconds() {
    let l = |s: &str| lifespan_ms(&s.to_string());
    assert_eq!(l("10"), 10_000);
    assert_eq!(l("0"), 0);
    assert_eq!(l("abc"), 10_000);
    assert_eq!(l("18446744073709551615"), u64::MAX);
    assert_eq!(l("18446744073709551"), 18446744073709551000);
    assert_eq!(l("18446744073709552"), u64::MAX);
}
