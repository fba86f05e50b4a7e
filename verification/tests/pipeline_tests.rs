use pdf_font_core::{PipelineError, WidthRun, build_pdf_font, subset_tag};

// A minimal TrueType face: cmap maps 'A' to glyph 5 and 'B' to glyph 9,
// hmtx gives glyph 5 the advance 600 and glyph 9 the advance 0, hhea and
// head carry the vertical metrics and the bounding box. There is no glyf
// table, so the subsetting collaborator declines and the pipeline embeds
// the full bytes.
fn minimal_font() -> Vec<u8> {
    let mut cmap: Vec<u8> = Vec::new();
    cmap.extend(0u16.to_be_bytes()); // table version
    cmap.extend(1u16.to_be_bytes()); // one encoding record
    cmap.extend(3u16.to_be_bytes()); // Windows platform
    cmap.extend(1u16.to_be_bytes()); // Unicode BMP encoding
    cmap.extend(12u32.to_be_bytes()); // subtable offset
    cmap.extend(4u16.to_be_bytes()); // format 4
    cmap.extend(40u16.to_be_bytes()); // subtable length
    cmap.extend(0u16.to_be_bytes()); // language
    cmap.extend(6u16.to_be_bytes()); // segCountX2: three segments
    cmap.extend(0u16.to_be_bytes()); // searchRange (unused here)
    cmap.extend(0u16.to_be_bytes()); // entrySelector
    cmap.extend(0u16.to_be_bytes()); // rangeShift
    for end in [0x41u16, 0x42, 0xffff] {
        cmap.extend(end.to_be_bytes());
    }
    cmap.extend(0u16.to_be_bytes()); // reservedPad
    for start in [0x41u16, 0x42, 0xffff] {
        cmap.extend(start.to_be_bytes());
    }
    for delta in [5i16 - 0x41, 9 - 0x42, 1] {
        cmap.extend(delta.to_be_bytes());
    }
    for range_offset in [0u16, 0, 0] {
        cmap.extend(range_offset.to_be_bytes());
    }

    let mut head: Vec<u8> = Vec::new();
    head.extend(0x00010000u32.to_be_bytes()); // version
    head.extend(0u32.to_be_bytes()); // font revision
    head.extend(0u32.to_be_bytes()); // checksum adjustment
    head.extend(0x5f0f3cf5u32.to_be_bytes()); // magic
    head.extend(0u16.to_be_bytes()); // flags
    head.extend(1000u16.to_be_bytes()); // units per em
    head.extend(0u64.to_be_bytes()); // created
    head.extend(0u64.to_be_bytes()); // modified
    head.extend((-10i16).to_be_bytes()); // x min
    head.extend((-200i16).to_be_bytes()); // y min
    head.extend(1000i16.to_be_bytes()); // x max
    head.extend(900i16.to_be_bytes()); // y max
    head.extend(0u16.to_be_bytes()); // mac style
    head.extend(0u16.to_be_bytes()); // lowest rec ppem
    head.extend(0i16.to_be_bytes()); // font direction hint
    head.extend(0u16.to_be_bytes()); // index to location format
    head.extend(0i16.to_be_bytes()); // glyph data format

    let mut hhea: Vec<u8> = Vec::new();
    hhea.extend(0x00010000u32.to_be_bytes()); // version
    hhea.extend(800i16.to_be_bytes()); // ascender
    hhea.extend((-200i16).to_be_bytes()); // descender
    hhea.extend(0i16.to_be_bytes()); // line gap
    hhea.extend([0u8; 24]); // caret and reserved fields
    hhea.extend(10u16.to_be_bytes()); // number of h-metrics

    let mut hmtx: Vec<u8> = Vec::new();
    let mut advances = [0u16; 10];
    advances[0] = 500; // an unused glyph's advance must not leak out
    advances[5] = 600;
    advances[9] = 0;
    for advance in advances {
        hmtx.extend(advance.to_be_bytes());
        hmtx.extend(0i16.to_be_bytes()); // left side bearing
    }

    let mut maxp: Vec<u8> = Vec::new();
    maxp.extend(0x00005000u32.to_be_bytes()); // version 0.5
    maxp.extend(10u16.to_be_bytes()); // number of glyphs

    let tables: [(&[u8; 4], &Vec<u8>); 5] = [
        (b"cmap", &cmap),
        (b"head", &head),
        (b"hhea", &hhea),
        (b"hmtx", &hmtx),
        (b"maxp", &maxp),
    ];
    let mut font: Vec<u8> = Vec::new();
    font.extend(0x00010000u32.to_be_bytes()); // sfnt version
    font.extend((tables.len() as u16).to_be_bytes());
    font.extend(0u16.to_be_bytes()); // searchRange (unused by the parser)
    font.extend(0u16.to_be_bytes()); // entrySelector
    font.extend(0u16.to_be_bytes()); // rangeShift
    let mut offset = 12 + 16 * tables.len();
    for (tag, data) in &tables {
        font.extend(*tag);
        font.extend(0u32.to_be_bytes()); // checksum (not verified)
        font.extend((offset as u32).to_be_bytes());
        font.extend((data.len() as u32).to_be_bytes());
        offset += data.len();
    }
    for (_, data) in &tables {
        font.extend(data.iter());
    }
    font
}

#[test]
fn pipeline_derives_all_artifacts() {
    let font = minimal_font();
    let face = ttf_parser::Face::parse(&font, 0).unwrap();
    let artifacts = build_pdf_font(&face, &font, 0, "AB", "TestSans").unwrap();

    assert_eq!(artifacts.display_glyphs, vec![5, 9]);
    assert_eq!(artifacts.encoded_text, vec![0, 5, 0, 9]);
    assert_eq!(
        artifacts.glyph_set.entries,
        vec![(5u16, String::from("A")), (9u16, String::from("B"))]
    );
    assert_eq!(artifacts.num_glyphs, 10);
    // glyph 9 has width 0, so exactly one run is emitted
    assert_eq!(
        artifacts.width_runs,
        vec![WidthRun { start: 5, end: 5, width: 600 }]
    );
    assert_eq!(
        artifacts.reverse_cmap,
        vec![(5u16, vec!['A']), (9u16, vec!['B'])]
    );

    let tag = subset_tag(&artifacts.glyph_set);
    assert_eq!(artifacts.base_font, format!("{tag}+TestSans"));

    let d = &artifacts.descriptor;
    assert_eq!(d.ascent, 800);
    assert_eq!(d.descent, -200);
    assert_eq!(d.cap_height, 800); // falls back to the ascender
    assert_eq!((d.x_min, d.y_min, d.x_max, d.y_max), (-10, -200, 1000, 900));
    assert_eq!(d.stem_v_milli, 95400); // default weight class 400
    assert!(!d.flags.serif);
    assert!(!d.flags.fixed_pitch);
    assert!(!d.flags.italic);
    assert!(d.flags.symbolic);
    assert!(d.flags.small_cap);

    // no glyf table: subsetting declines, the full bytes are embedded
    let restored =
        miniz_oxide::inflate::decompress_to_vec_zlib(&artifacts.font_stream).unwrap();
    assert_eq!(restored, font);
}

#[test]
fn pipeline_fails_on_unmappable_character() {
    let font = minimal_font();
    let face = ttf_parser::Face::parse(&font, 0).unwrap();
    match build_pdf_font(&face, &font, 0, "A!", "TestSans") {
        Err(PipelineError::UnmappableCharacter(c)) => assert_eq!(c, '!'),
        other => panic!("expected UnmappableCharacter, got {:?}", other.map(|_| ())),
    }
}
