use glim::layout::Rect;
use glim::shader::{
    ansi256_colors, CellColor, CellColors, Screen, consume_tick, never_complete, parallel, sequence, sleep, temporary, term256_colors, ConsumeTick,
    Effect, EffectTimer, NeverComplete,
};

#[test]
fn timers_count_down() {
    let mut t = EffectTimer::from_ms(100);
    assert!(!t.started());
    assert_eq!(t.process(30), None);
    assert!(t.started() && !t.done());
    assert_eq!(t.process(100), Some(30));
    assert!(t.done());
    assert_eq!(t.process(5), Some(5));
    let r = EffectTimer::from_ms(10).reversed();
    assert!(r.reverse);
    assert!(!r.reversed().reverse);
}

#[test]
fn sequence_hands_time_along() {
    let mut fx = sequence(vec![sleep(100), consume_tick(), sleep(50)]);
    assert_eq!(fx.process(30), None);
    assert!(!fx.done());
    // the first sleep ends and passes 30ms to the tick consumer, which keeps them
    assert_eq!(fx.process(100), None);
    assert!(matches!(&fx, Effect::Sequence(_, 2)));
    assert_eq!(fx.process(60), Some(10));
    assert!(fx.done());
    assert_eq!(fx.process(7), Some(7), "a finished sequence leaves all time over");
}

#[test]
fn parallel_runs_together() {
    let mut fx = parallel(vec![sleep(100), sleep(40)]);
    assert_eq!(fx.process(50), None);
    assert!(!fx.done());
    assert_eq!(fx.process(60), Some(10));
    assert!(fx.done());
    let mut empty = parallel(vec![]);
    assert!(empty.done());
    assert_eq!(empty.process(3), Some(3));
}

#[test]
fn never_complete_runs_forever() {
    let mut fx = never_complete(sleep(10));
    assert_eq!(fx.process(100), None);
    assert!(!fx.done());
    let wrapped = NeverComplete::new(consume_tick());
    assert!(matches!(*wrapped.effect, Effect::ConsumeTick(ConsumeTick { has_consumed_tick: false })));
}

#[test]
fn temporary_and_ticks() {
    let mut fx = temporary(50, term256_colors());
    assert_eq!(fx.process(20), None);
    assert!(!fx.done());
    assert_eq!(fx.process(40), Some(10));
    assert!(fx.done());
    let mut tick = consume_tick();
    assert!(!tick.done());
    assert_eq!(tick.process(16), None);
    assert!(tick.done());
    let mut colors = term256_colors();
    assert_eq!(colors.process(16), None);
    assert!(!colors.done());
}

#[test]
fn palette_mapping_in_area() {
    let cell = |r: u8, g: u8, b: u8| CellColors { fg: CellColor::Rgb(r, g, b), bg: CellColor::Other(0) };
    let mut screen = Screen {
        width: 3,
        cells: vec![
            cell(95, 0, 175), cell(135, 95, 255), cell(135, 255, 255),
            cell(215, 175, 95), cell(255, 215, 255), cell(0, 0, 0),
        ],
    };
    ansi256_colors(&mut screen, Rect { x: 1, y: 0, width: 2, height: 2 });
    let fg: Vec<CellColor> = screen.cells.iter().map(|c| c.fg).collect();
    assert_eq!(
        fg,
        vec![
            CellColor::Rgb(95, 0, 175), CellColor::Indexed(99), CellColor::Indexed(123),
            CellColor::Rgb(215, 175, 95), CellColor::Indexed(225), CellColor::Indexed(16),
        ]
    );
    assert!(screen.cells.iter().all(|c| c.bg == CellColor::Other(0)));
    let mut all = screen.clone();
    ansi256_colors(&mut all, Rect { x: 0, y: 0, width: 3, height: 2 });
    assert_eq!(all.cells[0].fg, CellColor::Indexed(55));
    assert_eq!(all.cells[3].fg, CellColor::Indexed(179));
}

#[test]
fn sequence_later_effects_wait_their_turn() {
    let mut fx = sequence(vec![sleep(100), sleep(50)]);
    for _ in 0..4 {
        fx.process(20);
        match &fx {
            Effect::Sequence(parts, 0) => {
                // the second sleep has not been touched while the first runs
                assert!(matches!(&parts[1], Effect::Sleep(t) if t.remaining == 50));
            },
            _ => panic!("the first effect should still run"),
        }
    }
    fx.process(40);
    match &fx {
        Effect::Sequence(parts, 1) => assert!(matches!(&parts[1], Effect::Sleep(t) if t.remaining == 30)),
        _ => panic!("the second effect should run"),
    }
    assert!(!fx.done());
    fx.process(30);
    assert!(fx.done());
}

#[test]
fn never_complete_over_many_frames() {
    let mut fx = never_complete(consume_tick());
    for d in [1u64, 16, 1000, 0] {
        assert_eq!(fx.process(d), None);
        assert!(!fx.done());
    }
}
