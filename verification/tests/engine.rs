use docstyle::analyze::{analyze_document_bytes, validate_document_path};
use docstyle::extract::{Alignment, FontWeight};
use docstyle::headerfooter::is_just_page_number;
use docstyle::labels::extract_text_from_xml;
use docstyle::record::AnalysisError;

fn docx_bytes(parts: &[(&str, &str)]) -> Vec<u8> {
    let cursor = std::io::Cursor::new(Vec::new());
    let mut writer = zip::ZipWriter::new(cursor);
    let options = zip::write::SimpleFileOptions::default()
        .compression_method(zip::CompressionMethod::Stored);
    for (name, content) in parts {
        writer.start_file(*name, options).unwrap();
        std::io::Write::write_all(&mut writer, content.as_bytes()).unwrap();
    }
    writer.finish().unwrap().into_inner()
}

fn chars(s: &str) -> Vec<char> {
    s.chars().collect()
}

fn to_string(v: &Vec<char>) -> String {
    v.iter().collect()
}

#[test]
fn font_size_normalization() {
    // a declared size of 24 half-points is 12 points
    let doc = r#"<w:document><w:body><w:p><w:r><w:rPr><w:sz w:val="24"/></w:rPr><w:t>x</w:t></w:r></w:p></w:body></w:document>"#;
    let bytes = docx_bytes(&[("word/document.xml", doc)]);
    let rec = analyze_document_bytes(bytes, "d1").unwrap();
    assert_eq!(rec.font_size_half_points, 24);
    assert_eq!(rec.font_size_half_points as f32 / 2.0, 12.0);
}

#[test]
fn line_spacing_normalization() {
    let doc = r#"<w:document><w:body><w:p><w:pPr><w:spacing w:line="360"/></w:pPr></w:p></w:body></w:document>"#;
    let bytes = docx_bytes(&[("word/document.xml", doc)]);
    let rec = analyze_document_bytes(bytes, "d2").unwrap();
    assert_eq!(rec.line_spacing_twentieths, 360);
    assert_eq!(rec.line_spacing_twentieths as f32 / 240.0, 1.5);

    let doc2 = r#"<w:document><w:body><w:p><w:pPr><w:spacing w:line="240"/></w:pPr></w:p></w:body></w:document>"#;
    let bytes2 = docx_bytes(&[("word/document.xml", doc2)]);
    let rec2 = analyze_document_bytes(bytes2, "d3").unwrap();
    assert_eq!(rec2.line_spacing_twentieths, 240);
    assert_eq!(rec2.line_spacing_twentieths as f32 / 240.0, 1.0);
}

#[test]
fn line_spacing_defaults() {
    // the automatic-spacing marker means single spacing
    let doc = r#"<w:document><w:body><w:p><w:pPr><w:spacing w:lineRule="auto"/></w:pPr></w:p></w:body></w:document>"#;
    let bytes = docx_bytes(&[("word/document.xml", doc)]);
    let rec = analyze_document_bytes(bytes, "d4").unwrap();
    assert_eq!(rec.line_spacing_twentieths, 240);

    // no spacing information at all: the 1.15 default
    let bytes2 = docx_bytes(&[("word/document.xml", "<w:document/>")]);
    let rec2 = analyze_document_bytes(bytes2, "d5").unwrap();
    assert_eq!(rec2.line_spacing_twentieths, 276);
    assert_eq!(rec2.line_spacing_twentieths as f32 / 240.0, 1.15);
}

#[test]
fn placeholder_classification() {
    assert!(is_just_page_number(&chars("12")));
    assert!(is_just_page_number(&chars("Seite 3")));
    assert!(is_just_page_number(&chars("- 7 -")));
    assert!(is_just_page_number(&chars("Page 42")));
    assert!(is_just_page_number(&chars("p. 9")));
    assert!(!is_just_page_number(&chars("Vertraulich")));
    assert!(!is_just_page_number(&chars("Seite drei")));
    assert!(!is_just_page_number(&chars("")));
}

#[test]
fn placeholder_footers_are_not_footers() {
    let doc = "<w:document><w:body/></w:document>";
    for text in ["12", "Seite 3", "- 7 -"] {
        let footer = format!("<w:ftr><w:p><w:r><w:t>{}</w:t></w:r></w:p></w:ftr>", text);
        let bytes = docx_bytes(&[("word/document.xml", doc), ("word/footer1.xml", &footer)]);
        let rec = analyze_document_bytes(bytes, "f1").unwrap();
        assert!(!rec.header_footer_info.has_footer, "{} must not count", text);
    }
    let footer = "<w:ftr><w:p><w:r><w:t>Vertraulich</w:t></w:r></w:p></w:ftr>";
    let bytes = docx_bytes(&[("word/document.xml", doc), ("word/footer1.xml", footer)]);
    let rec = analyze_document_bytes(bytes, "f2").unwrap();
    assert!(rec.header_footer_info.has_footer);
    assert_eq!(rec.header_footer_info.footer_content, "Vertraulich");
}

#[test]
fn header_priority() {
    // a rank-one header part beats a loosely matching one, whatever the
    // enumeration order
    let doc = "<w:document><w:body/></w:document>";
    let low = "<w:hdr><w:p><w:r><w:t>B</w:t></w:r></w:p></w:hdr>";
    let high = "<w:hdr><w:p><w:r><w:t>A</w:t></w:r></w:p></w:hdr>";
    let bytes = docx_bytes(&[
        ("word/document.xml", doc),
        ("word/headerZZ.xml", low),
        ("word/header1.xml", high),
    ]);
    let rec = analyze_document_bytes(bytes, "h1").unwrap();
    assert!(rec.header_footer_info.has_header);
    assert_eq!(rec.header_footer_info.header_content, "A");
}

#[test]
fn header_with_style() {
    let doc = "<w:document><w:body/></w:document>";
    let hdr = r#"<w:hdr><w:p><w:pPr><w:jc w:val="center"/></w:pPr><w:r><w:rPr><w:rFonts w:ascii="Arial"/><w:sz w:val="18"/><w:color w:val="FF0000"/><w:b/></w:rPr><w:t>Klinik</w:t></w:r></w:p></w:hdr>"#;
    let bytes = docx_bytes(&[("word/document.xml", doc), ("word/header1.xml", hdr)]);
    let rec = analyze_document_bytes(bytes, "h2").unwrap();
    let style = rec.header_footer_info.header_style.unwrap();
    assert_eq!(style.font_family, "Arial");
    assert_eq!(style.font_size_half_points, 18);
    assert_eq!(style.font_weight, FontWeight::Bold);
    assert_eq!(style.color, "#FF0000");
    assert_eq!(style.alignment, Alignment::Center);
}

#[test]
fn color_auto_falls_back_to_black() {
    let doc = "<w:document><w:body/></w:document>";
    let hdr = r#"<w:hdr><w:p><w:r><w:rPr><w:color w:val="auto"/></w:rPr><w:t>Kopf</w:t></w:r></w:p></w:hdr>"#;
    let bytes = docx_bytes(&[("word/document.xml", doc), ("word/header1.xml", hdr)]);
    let rec = analyze_document_bytes(bytes, "h3").unwrap();
    let style = rec.header_footer_info.header_style.unwrap();
    assert_eq!(style.color, "#000000");
}

#[test]
fn missing_styles_part_still_succeeds() {
    let bytes = docx_bytes(&[("word/document.xml", "<w:document><w:body/></w:document>")]);
    let rec = analyze_document_bytes(bytes, "d6").unwrap();
    assert_eq!(rec.font_family, "Times New Roman");
    assert_eq!(rec.font_size_half_points, 24);
    assert_eq!(rec.text_alignment, Alignment::Left);
    assert!(rec.heading_styles.is_empty());
    assert!(!rec.header_footer_info.has_header);
    assert!(!rec.header_footer_info.has_footer);
}

#[test]
fn end_to_end_minimal_document() {
    let doc = r#"<w:document><w:body><w:p><w:pPr><w:pStyle w:val="Heading1"/></w:pPr><w:r><w:rPr><w:rFonts w:ascii="Calibri"/><w:sz w:val="22"/><w:b/></w:rPr><w:t>EINLEITUNG</w:t></w:r></w:p></w:body></w:document>"#;
    let bytes = docx_bytes(&[("word/document.xml", doc)]);
    let rec = analyze_document_bytes(bytes, "doc-1").unwrap();
    assert_eq!(rec.font_family, "Calibri");
    assert_eq!(rec.font_size_half_points, 22);
    assert_eq!(rec.font_size_half_points as f32 / 2.0, 11.0);
    assert_eq!(rec.heading_styles.len(), 1);
    assert_eq!(rec.heading_styles[0].level, 1);
    assert_eq!(rec.heading_styles[0].font_weight, FontWeight::Bold);
    assert_eq!(rec.heading_styles[0].font_family, "Calibri");
    assert!(rec.headers_found.iter().any(|h| h == "EINLEITUNG"));
    assert_eq!(rec.document_id, "doc-1");
    assert_eq!(rec.filename, "Document_doc-1");
}

#[test]
fn analysis_is_deterministic() {
    let doc = r#"<w:document><w:body><w:p><w:pPr><w:pStyle w:val="Heading2"/><w:jc w:val="both"/><w:spacing w:line="300"/></w:pPr><w:r><w:rPr><w:rFonts w:ascii="Georgia"/><w:sz w:val="20"/></w:rPr><w:t>BEFUND</w:t></w:r></w:p></w:body></w:document>"#;
    let sty = r#"<w:styles><w:style w:styleId="Heading2"><w:rPr><w:b/></w:rPr></w:style></w:styles>"#;
    let bytes = docx_bytes(&[("word/document.xml", doc), ("word/styles.xml", sty)]);
    let r1 = analyze_document_bytes(bytes.clone(), "same").unwrap();
    let r2 = analyze_document_bytes(bytes, "same").unwrap();
    assert_eq!(r1.document_id, r2.document_id);
    assert_eq!(r1.filename, r2.filename);
    assert_eq!(r1.font_family, r2.font_family);
    assert_eq!(r1.font_size_half_points, r2.font_size_half_points);
    assert_eq!(r1.line_spacing_twentieths, r2.line_spacing_twentieths);
    assert_eq!(r1.text_alignment, r2.text_alignment);
    assert_eq!(r1.heading_styles.len(), r2.heading_styles.len());
    for (a, b) in r1.heading_styles.iter().zip(r2.heading_styles.iter()) {
        assert_eq!(a.level, b.level);
        assert_eq!(a.font_family, b.font_family);
        assert_eq!(a.font_size_half_points, b.font_size_half_points);
        assert_eq!(a.font_weight, b.font_weight);
    }
    assert_eq!(r1.headers_found, r2.headers_found);
    assert_eq!(r1.style_summary, r2.style_summary);
    assert_eq!(r1.header_footer_info.has_header, r2.header_footer_info.has_header);
    assert_eq!(r1.header_footer_info.has_footer, r2.header_footer_info.has_footer);
}

#[test]
fn heading_levels_unique_and_sorted() {
    // Heading1 and Title both map to level one; Subtitle maps to level two.
    let sty = r#"<w:styles><w:style w:styleId="Subtitle"><w:rPr><w:sz w:val="26"/></w:rPr></w:style><w:style w:styleId="Heading1"><w:rPr><w:rFonts w:ascii="Cambria"/></w:rPr></w:style><w:style w:styleId="Title"><w:rPr><w:rFonts w:ascii="Impact"/></w:rPr></w:style></w:styles>"#;
    let bytes = docx_bytes(&[
        ("word/document.xml", "<w:document><w:body/></w:document>"),
        ("word/styles.xml", sty),
    ]);
    let rec = analyze_document_bytes(bytes, "h4").unwrap();
    let levels: Vec<u8> = rec.heading_styles.iter().map(|h| h.level).collect();
    assert_eq!(levels, vec![1, 2]);
    // the first candidate per level wins: Heading1, not Title
    assert_eq!(rec.heading_styles[0].font_family, "Cambria");
    assert_eq!(rec.heading_styles[1].font_size_half_points, 26);
}

#[test]
fn style_definitions_beat_paragraph_scan() {
    let sty = r#"<w:styles><w:style w:styleId="Heading3"><w:rPr><w:rFonts w:ascii="Verdana"/><w:sz w:val="28"/><w:b/></w:rPr></w:style></w:styles>"#;
    let doc = r#"<w:document><w:body><w:p><w:pPr><w:pStyle w:val="Heading1"/></w:pPr><w:r><w:t>Kapitel</w:t></w:r></w:p></w:body></w:document>"#;
    let bytes = docx_bytes(&[("word/document.xml", doc), ("word/styles.xml", sty)]);
    let rec = analyze_document_bytes(bytes, "h5").unwrap();
    // phase one found a candidate, so the paragraph scan never runs
    assert_eq!(rec.heading_styles.len(), 1);
    assert_eq!(rec.heading_styles[0].level, 3);
    assert_eq!(rec.heading_styles[0].font_family, "Verdana");
    assert_eq!(rec.heading_styles[0].font_size_half_points, 28);
    assert_eq!(rec.heading_styles[0].font_weight, FontWeight::Bold);
}

#[test]
fn alignment_precedence() {
    // the centre pattern is tried before the right pattern, whatever the
    // order inside the document
    let doc = r#"<w:document><w:body><w:p><w:pPr><w:jc w:val="right"/></w:pPr></w:p><w:p><w:pPr><w:jc w:val="center"/></w:pPr></w:p></w:body></w:document>"#;
    let bytes = docx_bytes(&[("word/document.xml", doc)]);
    let rec = analyze_document_bytes(bytes, "a1").unwrap();
    assert_eq!(rec.text_alignment, Alignment::Center);

    let doc2 = r#"<w:document><w:body><w:p><w:pPr><w:jc w:val="both"/></w:pPr></w:p></w:body></w:document>"#;
    let bytes2 = docx_bytes(&[("word/document.xml", doc2)]);
    let rec2 = analyze_document_bytes(bytes2, "a2").unwrap();
    assert_eq!(rec2.text_alignment, Alignment::Justify);
}

#[test]
fn known_labels_found_case_insensitively() {
    let doc = r#"<w:document><w:body><w:p><w:r><w:t>Befund</w:t></w:r></w:p><w:p><w:r><w:t>BEFUND</w:t></w:r></w:p><w:p><w:r><w:t>irgendein langer Text ohne Bedeutung</w:t></w:r></w:p></w:body></w:document>"#;
    let bytes = docx_bytes(&[("word/document.xml", doc)]);
    let rec = analyze_document_bytes(bytes, "l1").unwrap();
    // the first spelling wins; the case-folded duplicate is not added again
    assert_eq!(rec.headers_found, vec!["Befund".to_string()]);
}

#[test]
fn all_caps_runs_count_as_labels() {
    let doc = r#"<w:document><w:body><w:p><w:r><w:t>ZWISCHENBERICHT</w:t></w:r></w:p><w:p><w:r><w:t>abc</w:t></w:r></w:p></w:body></w:document>"#;
    let bytes = docx_bytes(&[("word/document.xml", doc)]);
    let rec = analyze_document_bytes(bytes, "l2").unwrap();
    assert_eq!(rec.headers_found, vec!["ZWISCHENBERICHT".to_string()]);
}

#[test]
fn text_extraction_joins_runs() {
    let v = chars("<w:p><w:r><w:t> Erster </w:t></w:r><w:r><w:t>Teil</w:t></w:r></w:p>");
    let out = extract_text_from_xml(&v);
    assert_eq!(to_string(&out), "Erster Teil");
}

#[test]
fn summary_for_sparse_document() {
    let bytes = docx_bytes(&[("word/document.xml", "<w:document><w:body/></w:document>")]);
    let rec = analyze_document_bytes(bytes, "s1").unwrap();
    assert_eq!(
        rec.style_summary,
        "Hauptschrift: Times New Roman (12pt), Zeilenabstand: 1.15, Ausrichtung: left, 0 \u{dc}berschriftenebenen erkannt"
    );
}

#[test]
fn path_validation() {
    assert!(matches!(
        validate_document_path(""),
        Err(AnalysisError::EmptyPath)
    ));
    assert!(matches!(
        validate_document_path("notes/report.pdf"),
        Err(AnalysisError::UnsupportedFormat { .. })
    ));
    if let Err(AnalysisError::UnsupportedFormat { extension }) =
        validate_document_path("notes/report.PDF")
    {
        assert_eq!(extension, "pdf");
    } else {
        panic!("expected an unsupported-format error");
    }
    assert!(matches!(
        validate_document_path("old/brief.doc"),
        Err(AnalysisError::LegacyDocFormat)
    ));
    assert!(validate_document_path("C:\\reports\\Gutachten.DOCX").is_ok());
    assert!(validate_document_path("bericht.docx").is_ok());
    assert!(matches!(
        validate_document_path("no_extension"),
        Err(AnalysisError::UnsupportedFormat { .. })
    ));
}

#[test]
fn container_errors() {
    let r = analyze_document_bytes(b"this is not a zip container".to_vec(), "e1");
    assert!(matches!(r, Err(AnalysisError::NotAZipContainer { .. })));

    let bytes = docx_bytes(&[("word/styles.xml", "<w:styles/>")]);
    let r2 = analyze_document_bytes(bytes, "e2");
    assert!(matches!(r2, Err(AnalysisError::DocumentPartMissing)));
    if let Err(e) = r2 {
        assert_eq!(e.message(), "document.xml not found in DOCX file");
    }
}

#[test]
fn error_messages() {
    let e = AnalysisError::UnsupportedFormat {
        extension: "pdf".to_string(),
    };
    assert_eq!(
        e.message(),
        "Unsupported document format: pdf. Only .docx and .doc files are supported."
    );
    assert_eq!(
        AnalysisError::EmptyPath.message(),
        "File path cannot be empty"
    );
    assert_eq!(
        AnalysisError::LegacyDocFormat.message(),
        "Legacy .doc files are not yet supported. Please convert to .docx format."
    );
}

#[test]
fn header_reference_alone_is_not_a_header() {
    // a headerReference in the body without any header part with content
    let doc = r#"<w:document><w:body><w:sectPr><w:headerReference r:id="rId1"/></w:sectPr></w:body></w:document>"#;
    let bytes = docx_bytes(&[("word/document.xml", doc)]);
    let rec = analyze_document_bytes(bytes, "h6").unwrap();
    assert!(!rec.header_footer_info.has_header);

    // an empty header part does not count either
    let bytes2 = docx_bytes(&[
        ("word/document.xml", doc),
        ("word/header1.xml", "<w:hdr><w:p/></w:hdr>"),
    ]);
    let rec2 = analyze_document_bytes(bytes2, "h7").unwrap();
    assert!(!rec2.header_footer_info.has_header);
}

#[test]
fn margins_are_fixed_default() {
    let bytes = docx_bytes(&[("word/document.xml", "<w:document><w:body/></w:document>")]);
    let rec = analyze_document_bytes(bytes, "m1").unwrap();
    assert_eq!(rec.page_margins.top, 254);
    assert_eq!(rec.page_margins.bottom, 254);
    assert_eq!(rec.page_margins.left, 254);
    assert_eq!(rec.page_margins.right, 254);
    assert_eq!(rec.page_margins.top as f32 / 100.0, 2.54);
    assert_eq!(rec.paragraph_spacing_before, 0);
    assert_eq!(rec.paragraph_spacing_after, 0);
}

#[test]
fn oversized_numeric_values_are_skipped() {
    // a ten-digit size is not a usable numeric value; the cascade moves on
    let doc = r#"<w:document><w:body><w:p><w:r><w:rPr><w:sz w:val="4294967295"/></w:rPr></w:p><w:p><w:r><w:rPr><w:sz w:val="28"/></w:rPr></w:p></w:body></w:document>"#;
    let bytes = docx_bytes(&[("word/document.xml", doc)]);
    let rec = analyze_document_bytes(bytes, "n1").unwrap();
    assert_eq!(rec.font_size_half_points, 28);

    // nine digits are the widest accepted value
    let doc2 = r#"<w:document><w:body><w:p><w:pPr><w:spacing w:line="999999999"/></w:pPr></w:p></w:body></w:document>"#;
    let bytes2 = docx_bytes(&[("word/document.xml", doc2)]);
    let rec2 = analyze_document_bytes(bytes2, "n2").unwrap();
    assert_eq!(rec2.line_spacing_twentieths, 999999999);
}

#[test]
fn malformed_attributes_fall_through() {
    // no closing quote on the first candidate: the scan moves to the next
    let doc = r#"<w:document><w:body><w:r><w:rPr><w:rFonts w:ascii="broken<w:rFonts w:ascii="Georgia"/></w:rPr></w:r></w:body></w:document>"#;
    let bytes = docx_bytes(&[("word/document.xml", doc)]);
    let rec = analyze_document_bytes(bytes, "n3").unwrap();
    // the first candidate's value runs to the next quote and is non-empty,
    // so the scan accepts it; what matters is that nothing panics and the
    // result is deterministic
    assert!(!rec.font_family.is_empty());

    // an empty font value is rejected and the cascade falls back
    let doc2 = r#"<w:document><w:body><w:r><w:rPr><w:rFonts w:ascii=""/></w:rPr></w:r></w:body></w:document>"#;
    let bytes2 = docx_bytes(&[("word/document.xml", doc2)]);
    let rec2 = analyze_document_bytes(bytes2, "n4").unwrap();
    assert_eq!(rec2.font_family, "Times New Roman");
}

#[test]
fn secondary_source_used_when_primary_silent() {
    let doc = "<w:document><w:body/></w:document>";
    let sty = r#"<w:styles><w:docDefaults><w:rPr><w:rFonts w:ascii="Book Antiqua"/><w:sz w:val="21"/></w:rPr></w:docDefaults></w:styles>"#;
    let bytes = docx_bytes(&[("word/document.xml", doc), ("word/styles.xml", sty)]);
    let rec = analyze_document_bytes(bytes, "n5").unwrap();
    assert_eq!(rec.font_family, "Book Antiqua");
    assert_eq!(rec.font_size_half_points, 21);
    assert_eq!(rec.font_size_half_points as f32 / 2.0, 10.5);
    // an odd half-point count renders with a .5 fraction in the summary
    assert!(rec.style_summary.contains("Book Antiqua (10.5pt)"));
}

#[test]
fn equal_rank_headers_first_wins() {
    // two rank-2 candidates, no rank-1 part: the earlier one is kept
    let doc = "<w:document><w:body/></w:document>";
    let first = "<w:hdr><w:p><w:r><w:t>Erste</w:t></w:r></w:p></w:hdr>";
    let second = "<w:hdr><w:p><w:r><w:t>Zweite</w:t></w:r></w:p></w:hdr>";
    let bytes = docx_bytes(&[
        ("word/document.xml", doc),
        ("word/header10.xml", first),
        ("word/header11.xml", second),
    ]);
    let rec = analyze_document_bytes(bytes, "h8").unwrap();
    assert!(rec.header_footer_info.has_header);
    assert_eq!(rec.header_footer_info.header_content, "Erste");
}

#[test]
fn bare_alignment_values_do_not_count() {
    // an alignment value outside a justification element (here a tab stop)
    // must not set the document alignment
    let doc = r#"<w:document><w:body><w:p><w:pPr><w:tabs><w:tab w:val="center" w:pos="4536"/></w:tabs></w:pPr></w:p></w:body></w:document>"#;
    let bytes = docx_bytes(&[("word/document.xml", doc)]);
    let rec = analyze_document_bytes(bytes, "a3").unwrap();
    assert_eq!(rec.text_alignment, Alignment::Left);
}

#[test]
fn multiplier_display_drops_trailing_zeros() {
    let doc = r#"<w:document><w:body><w:p><w:pPr><w:spacing w:line="360"/></w:pPr></w:p></w:body></w:document>"#;
    let bytes = docx_bytes(&[("word/document.xml", doc)]);
    let rec = analyze_document_bytes(bytes, "m2").unwrap();
    assert!(rec.style_summary.contains("Zeilenabstand: 1.5,"));

    let doc2 = r#"<w:document><w:body><w:p><w:pPr><w:spacing w:line="240"/></w:pPr></w:p></w:body></w:document>"#;
    let bytes2 = docx_bytes(&[("word/document.xml", doc2)]);
    let rec2 = analyze_document_bytes(bytes2, "m3").unwrap();
    assert!(rec2.style_summary.contains("Zeilenabstand: 1,"));
}
