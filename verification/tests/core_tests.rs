use pdf_font_core::{
    GlyphSet, PipelineError, WidthRun, build_glyph_set, build_reverse_cmap, deflate,
    derive_metrics, display_sequence, embed_font, encode_display, encode_widths,
    fill_width_table, hash128, subset_tag, RawFontMetrics,
};

fn decode_runs(runs: &[WidthRun], len: usize) -> Vec<u16> {
    let mut out = vec![0u16; len];
    for r in runs {
        for g in r.start..=r.end {
            out[g as usize] = r.width;
        }
    }
    out
}

#[test]
fn width_encoder_emits_single_nonzero_run() {
    // text "AB": 'A' -> glyph 5 (width 600), 'B' -> glyph 9 (width 0)
    let mut widths = vec![0u16; 10];
    widths[5] = 600;
    widths[9] = 0;
    let runs = encode_widths(&widths);
    assert_eq!(runs.len(), 1);
    assert_eq!(runs[0], WidthRun { start: 5, end: 5, width: 600 });
}

#[test]
fn width_encoder_runs_are_maximal_and_nonzero() {
    let widths = vec![7u16, 7, 3, 0, 0, 5];
    let runs = encode_widths(&widths);
    assert_eq!(
        runs,
        vec![
            WidthRun { start: 0, end: 1, width: 7 },
            WidthRun { start: 2, end: 2, width: 3 },
            WidthRun { start: 5, end: 5, width: 5 },
        ]
    );
}

#[test]
fn width_encoder_round_trips() {
    let tables: Vec<Vec<u16>> = vec![
        vec![],
        vec![0],
        vec![4],
        vec![4, 4, 4],
        vec![0, 1, 1, 0, 2, 2, 2, 0, 0, 3],
        vec![65535, 65535, 0, 1],
    ];
    for widths in tables {
        let runs = encode_widths(&widths);
        assert_eq!(decode_runs(&runs, widths.len()), widths);
        for r in &runs {
            assert_ne!(r.width, 0);
        }
    }
}

#[test]
fn width_encoder_flushes_the_final_run() {
    assert_eq!(
        encode_widths(&vec![0u16, 4]),
        vec![WidthRun { start: 1, end: 1, width: 4 }]
    );
    assert_eq!(
        encode_widths(&vec![3u16, 5, 5]),
        vec![
            WidthRun { start: 0, end: 0, width: 3 },
            WidthRun { start: 1, end: 2, width: 5 },
        ]
    );
    assert_eq!(encode_widths(&vec![0u16, 0, 0]), vec![]);
}

#[test]
fn width_table_holds_each_advance_at_its_key() {
    let table = fill_width_table(10, &vec![2u16, 5, 9], &vec![300u16, 600, 0]);
    let mut expected = vec![0u16; 10];
    expected[2] = 300;
    expected[5] = 600;
    expected[9] = 0;
    assert_eq!(table, expected);
}

#[test]
fn width_table_skips_keys_beyond_the_glyph_count() {
    let table = fill_width_table(4, &vec![1u16, 9], &vec![100u16, 200]);
    assert_eq!(table, vec![0, 100, 0, 0]);
}

#[test]
fn glyph_set_keeps_first_seen_and_sorts_keys() {
    let pairs = vec![
        ('C', Some(9u16)),
        ('A', Some(5)),
        ('B', Some(9)),
        ('D', Some(5)),
    ];
    let gs = build_glyph_set(&pairs);
    assert_eq!(
        gs.entries,
        vec![(5u16, String::from("A")), (9u16, String::from("C"))]
    );
}

#[test]
fn glyph_set_skips_unmapped_and_missing_glyph() {
    let pairs = vec![('A', None), ('B', Some(0u16)), ('C', Some(3))];
    let gs = build_glyph_set(&pairs);
    assert_eq!(gs.entries, vec![(3u16, String::from("C"))]);
}

#[test]
fn display_sequence_keeps_every_character() {
    let pairs = vec![('A', Some(5u16)), ('B', Some(9)), ('A', Some(5))];
    let seq = display_sequence(&pairs).unwrap();
    assert_eq!(seq, vec![5, 9, 5]);
}

#[test]
fn display_sequence_fails_on_first_unmappable_character() {
    let pairs = vec![('A', Some(5u16)), ('B', None), ('C', None)];
    match display_sequence(&pairs) {
        Err(PipelineError::UnmappableCharacter(c)) => assert_eq!(c, 'B'),
        other => panic!("expected UnmappableCharacter, got {:?}", other),
    }
    let pairs0 = vec![('A', Some(5u16)), ('Z', Some(0))];
    match display_sequence(&pairs0) {
        Err(PipelineError::UnmappableCharacter(c)) => assert_eq!(c, 'Z'),
        other => panic!("expected UnmappableCharacter, got {:?}", other),
    }
}

#[test]
fn hello_world_distinct_glyphs_dedup() {
    let text = "Hello World from Rust!";
    // map every distinct character to a distinct glyph id
    let mut seen: Vec<char> = Vec::new();
    let mut pairs: Vec<(char, Option<u16>)> = Vec::new();
    for ch in text.chars() {
        let id = match seen.iter().position(|&c| c == ch) {
            Some(i) => i as u16 + 1,
            None => {
                seen.push(ch);
                seen.len() as u16
            }
        };
        pairs.push((ch, Some(id)));
    }
    let gs = build_glyph_set(&pairs);
    assert_eq!(seen.len(), 15);
    assert_eq!(gs.len(), 15);
    let display = display_sequence(&pairs).unwrap();
    assert_eq!(display.len(), text.chars().count());
}

#[test]
fn subset_tag_is_six_uppercase_letters_and_pure() {
    let pairs = vec![('A', Some(5u16)), ('B', Some(9))];
    let gs1 = build_glyph_set(&pairs);
    let gs2 = build_glyph_set(&pairs);
    let t1 = subset_tag(&gs1);
    let t2 = subset_tag(&gs2);
    assert_eq!(t1, t2);
    assert_eq!(t1.len(), 6);
    assert!(t1.chars().all(|c| c.is_ascii_uppercase()));
    assert_eq!(hash128(&gs1), hash128(&gs2));
}

#[test]
fn subset_tag_ignores_insertion_order() {
    let gs1 = build_glyph_set(&vec![('A', Some(5u16)), ('B', Some(9))]);
    let gs2 = build_glyph_set(&vec![('B', Some(9u16)), ('A', Some(5))]);
    assert_eq!(gs1.entries, gs2.entries);
    assert_eq!(subset_tag(&gs1), subset_tag(&gs2));
}

#[test]
fn same_glyph_set_from_different_texts_gives_same_tag() {
    // "AA" and "A" both yield the glyph set {5 -> "A"}
    let gs_aa = build_glyph_set(&vec![('A', Some(5u16)), ('A', Some(5))]);
    let gs_a = build_glyph_set(&vec![('A', Some(5u16))]);
    assert_eq!(gs_aa.entries, gs_a.entries);
    assert_eq!(subset_tag(&gs_aa), subset_tag(&gs_a));
}

#[test]
fn reverse_cmap_preserves_code_point_order() {
    let gs = GlyphSet {
        entries: vec![(3u16, String::from("fi")), (7u16, String::from("A"))],
    };
    let cmap = build_reverse_cmap(&gs);
    assert_eq!(
        cmap,
        vec![(3u16, vec!['f', 'i']), (7u16, vec!['A'])]
    );
}

#[test]
fn reverse_cmap_drops_empty_fragments() {
    let gs = GlyphSet {
        entries: vec![(2u16, String::new()), (3u16, String::from("x"))],
    };
    let cmap = build_reverse_cmap(&gs);
    assert_eq!(cmap, vec![(3u16, vec!['x'])]);
}

#[test]
fn reverse_cmap_round_trips_first_seen_text() {
    let pairs = vec![('A', Some(5u16)), ('B', Some(9)), ('C', Some(5))];
    let gs = build_glyph_set(&pairs);
    let cmap = build_reverse_cmap(&gs);
    assert_eq!(cmap.len(), gs.entries.len());
    for (g, text) in &cmap {
        // the entry's text is the first character that produced the glyph
        let first = pairs.iter().find(|p| p.1 == Some(*g)).unwrap().0;
        assert_eq!(text, &vec![first]);
    }
}

#[test]
fn encode_display_is_big_endian() {
    let glyphs = vec![0x0102u16, 0x00ff, 0xabcd];
    let bytes = encode_display(&glyphs);
    assert_eq!(bytes, vec![0x01, 0x02, 0x00, 0xff, 0xab, 0xcd]);
}

#[test]
fn deflate_round_trips_through_zlib() {
    let data: Vec<u8> = (0u16..600).map(|i| (i % 251) as u8).collect();
    let compressed = deflate(&data);
    assert_ne!(compressed, data);
    let restored = miniz_oxide::inflate::decompress_to_vec_zlib(&compressed).unwrap();
    assert_eq!(restored, data);
}

#[test]
fn embed_font_falls_back_to_full_bytes_when_subsetting_fails() {
    // not a font: the subsetting collaborator declines, the full bytes are
    // embedded, compressed
    let data: Vec<u8> = vec![1, 2, 3, 4, 5, 6, 7, 8];
    let stream = embed_font(&data, 0, &vec![1u16, 2]);
    let restored = miniz_oxide::inflate::decompress_to_vec_zlib(&stream).unwrap();
    assert_eq!(restored, data);
}

fn raw_metrics() -> RawFontMetrics {
    RawFontMetrics {
        ascender: 800,
        descender: -200,
        typographic_ascender: None,
        typographic_descender: None,
        capital_height: None,
        x_min: -100,
        y_min: -250,
        x_max: 1100,
        y_max: 950,
        weight_class: 400,
        is_italic: false,
        is_monospaced: false,
    }
}

#[test]
fn derive_metrics_applies_fallbacks_and_stem_width() {
    let raw = raw_metrics();
    let d = derive_metrics(&raw, "Helvetica");
    assert_eq!(d.ascent, 800);
    assert_eq!(d.descent, -200);
    assert_eq!(d.cap_height, 800);
    // 10 + 0.244 * (400 - 50) PDF units, in thousandths
    assert_eq!(d.stem_v_milli, 95400);
    assert_eq!((d.x_min, d.y_min, d.x_max, d.y_max), (-100, -250, 1100, 950));
    assert!(!d.flags.serif);
    assert!(!d.flags.fixed_pitch);
    assert!(!d.flags.italic);
    assert!(d.flags.symbolic);
    assert!(d.flags.small_cap);

    let mut raw2 = raw_metrics();
    raw2.typographic_ascender = Some(760);
    raw2.typographic_descender = Some(-180);
    raw2.capital_height = Some(700);
    raw2.is_italic = true;
    raw2.is_monospaced = true;
    let d2 = derive_metrics(&raw2, "NotoSerif-Italic");
    assert_eq!(d2.ascent, 760);
    assert_eq!(d2.descent, -180);
    assert_eq!(d2.cap_height, 700);
    assert!(d2.flags.serif);
    assert!(d2.flags.fixed_pitch);
    assert!(d2.flags.italic);
}

#[test]
fn serif_heuristic_is_case_sensitive_substring() {
    let raw = raw_metrics();
    assert!(derive_metrics(&raw, "XSerifY").flags.serif);
    assert!(!derive_metrics(&raw, "serif").flags.serif);
    assert!(!derive_metrics(&raw, "Seri").flags.serif);
}
