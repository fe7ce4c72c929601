//! The result data model: one immutable style record per analysis, and the
//! analysis error taxonomy.
//!
//! Measurements are integer-valued in the source format's native units:
//! font sizes in half-points (24 = 12pt), line spacing in twentieths of a
//! point (240 = single), paragraph spacing in points, page margins in
//! hundredths of a centimetre (254 = 2.54cm).

use vstd::prelude::*;
use crate::extract::{Alignment, FontWeight};
use crate::text::{spec_dec, digit_char, dec_append, append_chars, append_str, chars_to_string};
use vstd::string::StringExecFns;

verus! {

/// One resolved heading level.
#[derive(Debug, Clone)]
pub struct HeadingStyle {
    pub level: u8,
    pub font_family: String,
    pub font_size_half_points: u32,
    pub font_weight: FontWeight,
    pub color: String,
    pub spacing_before_points: u32,
    pub spacing_after_points: u32,
}

/// Ghost mirror of `HeadingStyle`.
pub ghost struct HeadingStyleView {
    pub level: u8,
    pub font_family: Seq<char>,
    pub font_size_half_points: u32,
    pub font_weight: FontWeight,
    pub color: Seq<char>,
    pub spacing_before_points: u32,
    pub spacing_after_points: u32,
}

impl View for HeadingStyle {
    type V = HeadingStyleView;

    open spec fn view(&self) -> HeadingStyleView {
        HeadingStyleView {
            level: self.level,
            font_family: self.font_family@,
            font_size_half_points: self.font_size_half_points,
            font_weight: self.font_weight,
            color: self.color@,
            spacing_before_points: self.spacing_before_points,
            spacing_after_points: self.spacing_after_points,
        }
    }
}

/// Page margins in hundredths of a centimetre.  The source format's margin
/// structure is not parsed; the record always carries the 2.54cm default.
#[derive(Debug, Clone, Copy, PartialEq, Eq, Structural)]
pub struct PageMargins {
    pub top: u32,
    pub bottom: u32,
    pub left: u32,
    pub right: u32,
}

/// The default margins: 2.54cm on every side.
pub open spec fn spec_default_margins() -> PageMargins {
    PageMargins { top: 254, bottom: 254, left: 254, right: 254 }
}

/// Exec: the default margins.
pub fn default_margins() -> (r: PageMargins)
    ensures
        r == spec_default_margins(),
{
    PageMargins { top: 254, bottom: 254, left: 254, right: 254 }
}

/// Style of an accepted header or footer part.
#[derive(Debug, Clone)]
pub struct HeaderFooterStyle {
    pub font_family: String,
    pub font_size_half_points: u32,
    pub font_weight: FontWeight,
    pub color: String,
    pub alignment: Alignment,
}

/// Ghost mirror of `HeaderFooterStyle`.
pub ghost struct HeaderFooterStyleView {
    pub font_family: Seq<char>,
    pub font_size_half_points: u32,
    pub font_weight: FontWeight,
    pub color: Seq<char>,
    pub alignment: Alignment,
}

impl View for HeaderFooterStyle {
    type V = HeaderFooterStyleView;

    open spec fn view(&self) -> HeaderFooterStyleView {
        HeaderFooterStyleView {
            font_family: self.font_family@,
            font_size_half_points: self.font_size_half_points,
            font_weight: self.font_weight,
            color: self.color@,
            alignment: self.alignment,
        }
    }
}

/// Header/footer presence and content.
#[derive(Debug, Clone)]
pub struct HeaderFooterInfo {
    pub has_header: bool,
    pub has_footer: bool,
    pub header_content: String,
    pub footer_content: String,
    pub header_style: Option<HeaderFooterStyle>,
    pub footer_style: Option<HeaderFooterStyle>,
}

/// Ghost mirror of `HeaderFooterInfo`.
pub ghost struct HeaderFooterInfoView {
    pub has_header: bool,
    pub has_footer: bool,
    pub header_content: Seq<char>,
    pub footer_content: Seq<char>,
    pub header_style: Option<HeaderFooterStyleView>,
    pub footer_style: Option<HeaderFooterStyleView>,
}

impl View for HeaderFooterInfo {
    type V = HeaderFooterInfoView;

    open spec fn view(&self) -> HeaderFooterInfoView {
        HeaderFooterInfoView {
            has_header: self.has_header,
            has_footer: self.has_footer,
            header_content: self.header_content@,
            footer_content: self.footer_content@,
            header_style: match self.header_style {
                Some(s) => Some(s@),
                None => None,
            },
            footer_style: match self.footer_style {
                Some(s) => Some(s@),
                None => None,
            },
        }
    }
}

/// The complete style record of one analysed document.
#[derive(Debug, Clone)]
pub struct DocumentStyleInfo {
    pub document_id: String,
    pub filename: String,
    pub analysis_date: String,
    pub font_family: String,
    pub font_size_half_points: u32,
    pub line_spacing_twentieths: u32,
    pub paragraph_spacing_before: u32,
    pub paragraph_spacing_after: u32,
    pub heading_styles: Vec<HeadingStyle>,
    pub text_alignment: Alignment,
    pub page_margins: PageMargins,
    pub header_footer_info: HeaderFooterInfo,
    pub style_summary: String,
    pub headers_found: Vec<String>,
}

/// Ghost mirror of `DocumentStyleInfo`.
pub ghost struct DocumentStyleInfoView {
    pub document_id: Seq<char>,
    pub filename: Seq<char>,
    pub analysis_date: Seq<char>,
    pub font_family: Seq<char>,
    pub font_size_half_points: u32,
    pub line_spacing_twentieths: u32,
    pub paragraph_spacing_before: u32,
    pub paragraph_spacing_after: u32,
    pub heading_styles: Seq<HeadingStyleView>,
    pub text_alignment: Alignment,
    pub page_margins: PageMargins,
    pub header_footer_info: HeaderFooterInfoView,
    pub style_summary: Seq<char>,
    pub headers_found: Seq<Seq<char>>,
}

impl View for DocumentStyleInfo {
    type V = DocumentStyleInfoView;

    open spec fn view(&self) -> DocumentStyleInfoView {
        DocumentStyleInfoView {
            document_id: self.document_id@,
            filename: self.filename@,
            analysis_date: self.analysis_date@,
            font_family: self.font_family@,
            font_size_half_points: self.font_size_half_points,
            line_spacing_twentieths: self.line_spacing_twentieths,
            paragraph_spacing_before: self.paragraph_spacing_before,
            paragraph_spacing_after: self.paragraph_spacing_after,
            heading_styles: Seq::new(
                self.heading_styles@.len(),
                |i: int| self.heading_styles@[i]@,
            ),
            text_alignment: self.text_alignment,
            page_margins: self.page_margins,
            header_footer_info: self.header_footer_info@,
            style_summary: self.style_summary@,
            headers_found: Seq::new(self.headers_found@.len(), |i: int| self.headers_found@[i]@),
        }
    }
}

/// Why an analysis failed.
///
/// Per-property extraction failures never surface here: they fall back to
/// defaults.  Only a rejected input, a container that does not open, or a
/// missing mandatory document part abort the analysis.
#[derive(Debug, Clone)]
pub enum AnalysisError {
    /// The supplied path was empty.
    EmptyPath,
    /// The file extension is neither `docx` nor `doc`.
    UnsupportedFormat { extension: String },
    /// The legacy binary format is explicitly unsupported.
    LegacyDocFormat,
    /// The container did not open as a ZIP archive.
    NotAZipContainer { reason: String },
    /// The mandatory document part is absent.
    DocumentPartMissing,
}

/// The message text of an analysis error.
pub open spec fn spec_error_message(e: AnalysisError) -> Seq<char> {
    match e {
        AnalysisError::EmptyPath => "File path cannot be empty"@,
        AnalysisError::UnsupportedFormat { extension } => "Unsupported document format: "@
            + extension@ + ". Only .docx and .doc files are supported."@,
        AnalysisError::LegacyDocFormat =>
            "Legacy .doc files are not yet supported. Please convert to .docx format."@,
        AnalysisError::NotAZipContainer { reason } =>
            "Failed to read DOCX archive (file may be corrupted or not a valid DOCX): "@ + reason@,
        AnalysisError::DocumentPartMissing => "document.xml not found in DOCX file"@,
    }
}

impl AnalysisError {
    /// A human-readable description of the failure.
    pub fn message(&self) -> (r: String)
        ensures
            r@ == spec_error_message(*self),
    {
        let mut out: Vec<char> = Vec::new();
        match self {
            AnalysisError::EmptyPath => {
                append_str(&mut out, "File path cannot be empty");
            },
            AnalysisError::UnsupportedFormat { extension } => {
                append_str(&mut out, "Unsupported document format: ");
                let ext = crate::text::str_to_chars(extension.as_str());
                append_chars(&mut out, &ext);
                append_str(&mut out, ". Only .docx and .doc files are supported.");
            },
            AnalysisError::LegacyDocFormat => {
                append_str(
                    &mut out,
                    "Legacy .doc files are not yet supported. Please convert to .docx format.",
                );
            },
            AnalysisError::NotAZipContainer { reason } => {
                append_str(
                    &mut out,
                    "Failed to read DOCX archive (file may be corrupted or not a valid DOCX): ",
                );
                let rs = crate::text::str_to_chars(reason.as_str());
                append_chars(&mut out, &rs);
            },
            AnalysisError::DocumentPartMissing => {
                append_str(&mut out, "document.xml not found in DOCX file");
            },
        }
        chars_to_string(&out)
    }
}

/// Half-points rendered as points: the integer part, and `.5` when the
/// half-point count is odd.
pub open spec fn fmt_points(half: u32) -> Seq<char> {
    if half % 2 == 1 {
        spec_dec(half / 2) + ".5"@
    } else {
        spec_dec(half / 2)
    }
}

/// Exec: append a half-point count rendered as points.
pub fn append_points(out: &mut Vec<char>, half: u32)
    ensures
        final(out)@ == old(out)@ + fmt_points(half),
{
    proof {
        reveal_strlit(".5");
    }
    dec_append(half / 2, out);
    if half % 2 == 1 {
        append_str(out, ".5");
    }
}

/// Twentieths of a point rendered as a spacing multiplier: at most two
/// decimal places (truncated), trailing zeros and a bare decimal point
/// dropped, as a float display would show them.  276 renders as `1.15`,
/// 360 as `1.5`, 240 as `1`.
pub open spec fn fmt_multiplier(tw: u32) -> Seq<char> {
    let v = (tw * 100) / 240;
    let whole = spec_dec((v / 100) as u32);
    let frac = v % 100;
    if frac == 0 {
        whole
    } else if frac % 10 == 0 {
        whole + seq!['.'] + seq![digit_char((frac / 10) as u32)]
    } else {
        whole + seq!['.'] + seq![digit_char((frac / 10) as u32), digit_char(frac as u32)]
    }
}

/// Exec: append a spacing multiplier.
pub fn append_multiplier(out: &mut Vec<char>, tw: u32)
    ensures
        final(out)@ == old(out)@ + fmt_multiplier(tw),
{
    let v64: u64 = (tw as u64) * 100 / 240;
    assert(v64 == (tw * 100) / 240);
    let whole: u32 = (v64 / 100) as u32;
    let frac: u32 = (v64 % 100) as u32;
    dec_append(whole, out);
    proof {
        let v = (tw * 100) / 240;
        assert(whole == (v / 100) as u32);
        assert(frac == (v % 100) as u32);
    }
    if frac != 0 {
        out.push('.');
        let tens = 48 + frac / 10;
        assert(tens < 128);
        out.push((tens as u8) as char);
        assert((tens as u8) as char == digit_char((frac / 10) as u32));
        if frac % 10 != 0 {
            let ones = 48 + frac % 10;
            assert(ones < 128);
            out.push((ones as u8) as char);
            assert((ones as u8) as char == digit_char(frac));
        }
    }
    proof {
        assert(out@ =~= old(out)@ + fmt_multiplier(tw));
    }
}

/// The display name of an alignment.
pub open spec fn spec_alignment_name(a: Alignment) -> Seq<char> {
    match a {
        Alignment::Left => "left"@,
        Alignment::Right => "right"@,
        Alignment::Center => "center"@,
        Alignment::Justify => "justify"@,
    }
}

/// Exec: the display name of an alignment.
pub fn alignment_name(a: Alignment) -> (r: String)
    ensures
        r@ == spec_alignment_name(a),
{
    match a {
        Alignment::Left => String::from_str("left"),
        Alignment::Right => String::from_str("right"),
        Alignment::Center => String::from_str("center"),
        Alignment::Justify => String::from_str("justify"),
    }
}

/// The human-readable style summary: main font, line spacing, alignment,
/// the number of recognised heading levels, and the accepted header and
/// footer, if any.
pub open spec fn spec_summary(
    font: Seq<char>,
    size_half: u32,
    line_tw: u32,
    align: Alignment,
    heading_count: u32,
    hf: HeaderFooterInfoView,
) -> Seq<char> {
    let base = "Hauptschrift: "@ + font + " ("@ + fmt_points(size_half) + "pt)"@ + ", "@
        + "Zeilenabstand: "@ + fmt_multiplier(line_tw) + ", "@ + "Ausrichtung: "@
        + spec_alignment_name(align) + ", "@ + spec_dec(heading_count)
        + " \u{dc}berschriftenebenen erkannt"@;
    let with_header = if hf.has_header {
        match hf.header_style {
            Some(s) => base + ", "@ + "Kopfzeile: "@ + s.font_family + " ("@ + fmt_points(
                s.font_size_half_points,
            ) + "pt)"@,
            None => base + ", "@ + "Kopfzeile vorhanden"@,
        }
    } else {
        base
    };
    if hf.has_footer {
        match hf.footer_style {
            Some(s) => with_header + ", "@ + "Fu\u{df}zeile: "@ + s.font_family + " ("@
                + fmt_points(s.font_size_half_points) + "pt)"@,
            None => with_header + ", "@ + "Fu\u{df}zeile vorhanden"@,
        }
    } else {
        with_header
    }
}

/// Exec: build the style summary.
pub fn build_summary(
    font: &Vec<char>,
    size_half: u32,
    line_tw: u32,
    align: Alignment,
    heading_count: u32,
    hf: &HeaderFooterInfo,
) -> (r: Vec<char>)
    ensures
        r@ == spec_summary(font@, size_half, line_tw, align, heading_count, hf@),
{
    let mut out: Vec<char> = Vec::new();
    append_str(&mut out, "Hauptschrift: ");
    append_chars(&mut out, font);
    append_str(&mut out, " (");
    append_points(&mut out, size_half);
    append_str(&mut out, "pt)");
    append_str(&mut out, ", ");
    append_str(&mut out, "Zeilenabstand: ");
    append_multiplier(&mut out, line_tw);
    append_str(&mut out, ", ");
    append_str(&mut out, "Ausrichtung: ");
    let an = alignment_name(align);
    let anv = crate::text::str_to_chars(an.as_str());
    append_chars(&mut out, &anv);
    append_str(&mut out, ", ");
    dec_append(heading_count, &mut out);
    append_str(&mut out, " \u{dc}berschriftenebenen erkannt");
    if hf.has_header {
        append_str(&mut out, ", ");
        match &hf.header_style {
            Some(s) => {
                append_str(&mut out, "Kopfzeile: ");
                let fv = crate::text::str_to_chars(s.font_family.as_str());
                append_chars(&mut out, &fv);
                append_str(&mut out, " (");
                append_points(&mut out, s.font_size_half_points);
                append_str(&mut out, "pt)");
            },
            None => {
                append_str(&mut out, "Kopfzeile vorhanden");
            },
        }
    }
    if hf.has_footer {
        append_str(&mut out, ", ");
        match &hf.footer_style {
            Some(s) => {
                append_str(&mut out, "Fu\u{df}zeile: ");
                let fv = crate::text::str_to_chars(s.font_family.as_str());
                append_chars(&mut out, &fv);
                append_str(&mut out, " (");
                append_points(&mut out, s.font_size_half_points);
                append_str(&mut out, "pt)");
            },
            None => {
                append_str(&mut out, "Fu\u{df}zeile vorhanden");
            },
        }
    }
    proof {
        assert(out@ =~= spec_summary(font@, size_half, line_tw, align, heading_count, hf@));
    }
    out
}

} // verus!
