use std::collections::HashMap;

use glyph_variants::{
    advance_with_glyphs, fit_to_size, ConstructableGlyph, Direction, Glyph, GlyphInstruction,
    GlyphPart, GlyphVariants, ReplacementGlyph, Variant, VariantError, VariantGlyph,
    VariantTables,
};

fn part(unicode: u32, start: u32, end: u32, full_advance: u32, required: bool) -> GlyphPart {
    GlyphPart {
        unicode,
        start_connector_length: start,
        end_connector_length: end,
        full_advance,
        required,
    }
}

fn rung(unicode: u32, advance: u16) -> ReplacementGlyph {
    ReplacementGlyph { unicode, advance }
}

fn empty_tables(cap: u32) -> VariantTables {
    VariantTables {
        vertical: HashMap::new(),
        horizontal: HashMap::new(),
        metrics: HashMap::new(),
        min_connector_overlap: cap,
    }
}

fn add_glyph(t: &mut VariantTables, unicode: u32, advance: u32) -> Glyph {
    let g = Glyph { unicode, advance };
    t.metrics.insert(unicode, g);
    g
}

/// A left parenthesis with a ladder of five sizes and a three-part recipe
/// (lower hook, extender, upper hook).
fn paren_tables() -> VariantTables {
    let mut t = empty_tables(20);
    add_glyph(&mut t, 0x28, 996);
    for (u, a) in [(0xF0001, 1200), (0xF0002, 1800), (0xF0003, 2400), (0xF0004, 3000)] {
        add_glyph(&mut t, u, a);
    }
    add_glyph(&mut t, 0x239D, 1500);
    add_glyph(&mut t, 0x239C, 1000);
    add_glyph(&mut t, 0x239B, 1500);
    t.vertical.insert(
        0x28,
        GlyphVariants {
            replacements: vec![
                rung(0x28, 996),
                rung(0xF0001, 1200),
                rung(0xF0002, 1800),
                rung(0xF0003, 2400),
                rung(0xF0004, 3000),
            ],
            constructable: Some(ConstructableGlyph {
                parts: vec![
                    part(0x239D, 0, 500, 1500, true),
                    part(0x239C, 500, 500, 1000, false),
                    part(0x239B, 500, 0, 1500, true),
                ],
                italics_correction: 0,
            }),
        },
    );
    t
}

/// The recipe of the sizing scenarios: a top cap, a repeatable middle and a
/// bottom cap, every connector 20 long, with an overlap cap of 20.
fn stack_tables() -> VariantTables {
    let mut t = empty_tables(20);
    add_glyph(&mut t, 0x7B, 100);
    add_glyph(&mut t, 1, 100);
    add_glyph(&mut t, 2, 50);
    add_glyph(&mut t, 3, 100);
    t.vertical.insert(
        0x7B,
        GlyphVariants {
            replacements: vec![],
            constructable: Some(ConstructableGlyph {
                parts: vec![
                    part(1, 0, 20, 100, true),
                    part(2, 20, 20, 50, false),
                    part(3, 20, 0, 100, true),
                ],
                italics_correction: 0,
            }),
        },
    );
    t
}

fn instructions(r: Result<VariantGlyph, VariantError>) -> Vec<GlyphInstruction> {
    match r {
        Ok(VariantGlyph::Constructable(_, ins)) => ins,
        other => panic!("expected a construction, got {:?}", other),
    }
}

fn replacement(r: Result<VariantGlyph, VariantError>) -> Glyph {
    match r {
        Ok(VariantGlyph::Replacement(g)) => g,
        other => panic!("expected a replacement, got {:?}", other),
    }
}

fn drawn(ins: &[GlyphInstruction]) -> i64 {
    ins.iter().map(|i| i.glyph.advance as i64 - i.overlap).sum()
}

#[test]
fn can_extend_parenthesis() {
    let t = paren_tables();
    let paren = Glyph { unicode: 0x28, advance: 996 };
    assert_eq!(replacement(paren.vert_variant(&t, 800)).unicode, 0x28);
    assert_eq!(replacement(paren.vert_variant(&t, 1200)).unicode, 0xF0001);
    assert_eq!(replacement(paren.vert_variant(&t, 1800)).unicode, 0xF0002);
    assert_eq!(replacement(paren.vert_variant(&t, 2400)).unicode, 0xF0003);
    assert_eq!(replacement(paren.vert_variant(&t, 3000)).unicode, 0xF0004);
    for size in [3100, 3600, 3700, 3800, 3900] {
        let ins = instructions(paren.vert_variant(&t, size));
        let ids: Vec<u32> = ins.iter().map(|i| i.glyph.unicode).collect();
        assert_eq!(ids, vec![0x239D, 0x239C, 0x239B]);
        let overlaps: Vec<i64> = ins.iter().map(|i| i.overlap).collect();
        assert_eq!(overlaps, vec![0, 20, 20]);
        assert_eq!(drawn(&ins), 3960);
    }
}

#[test]
fn can_find_successor() {
    let mut t = empty_tables(20);
    let int = add_glyph(&mut t, 0x222B, 1000);
    let display = add_glyph(&mut t, 0xF0010, 2200);
    t.vertical.insert(
        0x222B,
        GlyphVariants {
            replacements: vec![rung(0x222B, 1000), rung(0xF0010, 2200)],
            constructable: None,
        },
    );
    assert_eq!(int.successor(&t), display);
}

#[test]
fn no_metadata_passes_glyph_through() {
    let t = paren_tables();
    let g = Glyph { unicode: 0x41, advance: 600 };
    for size in [0, 1, 600, 5000, u32::MAX] {
        assert_eq!(replacement(g.variant(&t, size, Direction::Vertical)), g);
        assert_eq!(replacement(g.variant(&t, size, Direction::Horizontal)), g);
    }
}

#[test]
fn replacement_ladder_picks_first_large_enough() {
    let mut t = empty_tables(20);
    let base = add_glyph(&mut t, 0x2225, 90);
    let a = add_glyph(&mut t, 10, 100);
    let b = add_glyph(&mut t, 11, 200);
    let c = add_glyph(&mut t, 12, 300);
    t.vertical.insert(
        0x2225,
        GlyphVariants {
            replacements: vec![rung(10, 100), rung(11, 200), rung(12, 300)],
            constructable: None,
        },
    );
    assert_eq!(replacement(base.vert_variant(&t, 150)), b);
    assert_eq!(replacement(base.vert_variant(&t, 50)), a);
    assert_eq!(replacement(base.vert_variant(&t, 200)), b);
    assert_eq!(replacement(base.vert_variant(&t, 1000)), c);
}

#[test]
fn construction_uses_least_repeat_count() {
    let t = stack_tables();
    let brace = Glyph { unicode: 0x7B, advance: 100 };
    // No extender spans 100 + (100 - 20) = 180; one spans 210.
    let ins = instructions(brace.vert_variant(&t, 181));
    let ids: Vec<u32> = ins.iter().map(|i| i.glyph.unicode).collect();
    assert_eq!(ids, vec![1, 2, 3]);
    let ins = instructions(brace.vert_variant(&t, 180));
    let ids: Vec<u32> = ins.iter().map(|i| i.glyph.unicode).collect();
    assert_eq!(ids, vec![1, 3]);
    let ins = instructions(brace.vert_variant(&t, 211));
    assert_eq!(ins.len(), 4);
}

#[test]
fn exact_size_assembly_spans_requested_size() {
    let t = stack_tables();
    let brace = Glyph { unicode: 0x7B, advance: 100 };
    let ins = instructions(brace.vert_variant(&t, 210));
    assert_eq!(drawn(&ins), 210);
    let overlaps: Vec<i64> = ins.iter().map(|i| i.overlap).collect();
    assert_eq!(overlaps, vec![0, 20, 20]);
    let ins = instructions(brace.vert_variant(&t, 0));
    assert_eq!(ins.len(), 2);
    assert_eq!(drawn(&ins), 180);
}

#[test]
fn construction_keeps_direction() {
    let mut t = stack_tables();
    let recipe = t.vertical.remove(&0x7B).unwrap();
    t.horizontal.insert(0x7B, recipe);
    let brace = Glyph { unicode: 0x7B, advance: 100 };
    match brace.horz_variant(&t, 200) {
        Ok(VariantGlyph::Constructable(d, ins)) => {
            assert_eq!(d, Direction::Horizontal);
            assert_eq!(ins.len(), 3);
        }
        other => panic!("expected a construction, got {:?}", other),
    }
    assert_eq!(replacement(brace.vert_variant(&t, 200)), brace);
}

#[test]
fn ceiling_reports_unsatisfiable_construction() {
    let t = stack_tables();
    let brace = Glyph { unicode: 0x7B, advance: 100 };
    // Ten extenders span 180 + 10 * 30 = 480.
    let ins = instructions(brace.vert_variant(&t, 480));
    assert_eq!(ins.len(), 12);
    assert_eq!(drawn(&ins), 480);
    assert_eq!(
        brace.vert_variant(&t, 481).unwrap_err(),
        VariantError::ConstructionUnsatisfiable {
            unicode: 0x7B,
            direction: Direction::Vertical,
            min_size: 481,
        }
    );
}

#[test]
fn empty_ladder_without_recipe_is_malformed() {
    let mut t = empty_tables(20);
    let g = add_glyph(&mut t, 0x5B, 700);
    t.horizontal.insert(0x5B, GlyphVariants { replacements: vec![], constructable: None });
    assert_eq!(
        g.horz_variant(&t, 10).unwrap_err(),
        VariantError::MalformedVariantData {
            unicode: 0x5B,
            direction: Direction::Horizontal,
            min_size: 10,
        }
    );
}

#[test]
fn successor_below_two_rungs_is_unchanged() {
    let mut t = empty_tables(20);
    let lone = add_glyph(&mut t, 0x2211, 1000);
    let bare = add_glyph(&mut t, 0x2212, 500);
    add_glyph(&mut t, 0xF0020, 1400);
    t.vertical.insert(
        0x2211,
        GlyphVariants { replacements: vec![rung(0xF0020, 1400)], constructable: None },
    );
    assert_eq!(lone.successor(&t), lone);
    assert_eq!(bare.successor(&t), bare);
}

#[test]
fn successor_stays_on_second_rung() {
    let mut t = empty_tables(20);
    let sum = add_glyph(&mut t, 0x2211, 1000);
    let big = add_glyph(&mut t, 0xF0021, 1400);
    t.vertical.insert(
        0x2211,
        GlyphVariants {
            replacements: vec![rung(0x2211, 1000), rung(0xF0021, 1400)],
            constructable: None,
        },
    );
    let first = sum.successor(&t);
    let second = sum.successor(&t);
    assert_eq!(first, big);
    assert_eq!(second, big);
    assert_eq!(first.successor(&t), big);
}

#[test]
fn successor_of_three_rungs_takes_second() {
    let mut t = empty_tables(20);
    let sum = add_glyph(&mut t, 0x2211, 1000);
    let mid = add_glyph(&mut t, 0xF0022, 1400);
    add_glyph(&mut t, 0xF0023, 1800);
    t.vertical.insert(
        0x2211,
        GlyphVariants {
            replacements: vec![rung(0x2211, 1000), rung(0xF0022, 1400), rung(0xF0023, 1800)],
            constructable: None,
        },
    );
    assert_eq!(sum.successor(&t), mid);
}

#[test]
fn assembled_advance_counts_capped_overlaps() {
    let parts = vec![
        part(1, 0, 20, 100, true),
        part(2, 20, 20, 50, false),
        part(3, 20, 0, 100, true),
    ];
    assert_eq!(advance_with_glyphs(&parts, 0, 20), 180);
    assert_eq!(advance_with_glyphs(&parts, 1, 20), 210);
    assert_eq!(advance_with_glyphs(&parts, 10, 20), 480);
    // A cap below the connectors limits every overlap.
    assert_eq!(advance_with_glyphs(&parts, 2, 5), 100 + 2 * 45 + 95);
    assert_eq!(advance_with_glyphs(&vec![], 3, 20), 0);
}

#[test]
fn slack_spreads_evenly_over_joins() {
    let g = Glyph { unicode: 9, advance: 100 };
    let mut ins = vec![
        GlyphInstruction { glyph: g, overlap: 0 },
        GlyphInstruction { glyph: g, overlap: 20 },
        GlyphInstruction { glyph: g, overlap: 20 },
        GlyphInstruction { glyph: g, overlap: 20 },
    ];
    let before = drawn(&ins);
    fit_to_size(&mut ins, 7);
    let overlaps: Vec<i64> = ins.iter().map(|i| i.overlap).collect();
    assert_eq!(overlaps, vec![0, 17, 18, 18]);
    assert_eq!(drawn(&ins), before + 7);
}

#[test]
fn slack_leaves_single_instruction_alone() {
    let g = Glyph { unicode: 9, advance: 100 };
    let mut ins = vec![GlyphInstruction { glyph: g, overlap: 4 }];
    fit_to_size(&mut ins, 50);
    assert_eq!(ins[0].overlap, 4);
}
