//! The analysis pipeline: input validation, the result aggregator, and the
//! end-to-end entry points over an opened archive or raw container bytes.

use vstd::prelude::*;
use std::io::Cursor;
use zip::ZipArchive;
use crate::archive::{
    archive_names, archive_texts, archive_open, archive_part_names, archive_read_part, now_rfc3339,
    zip_contents_of,
};
use crate::extract::{
    spec_font_family, spec_font_size_half, spec_line_twentieths, spec_text_alignment,
    extract_font_family, extract_font_size, extract_line_spacing, extract_text_alignment,
};
use crate::headings::{
    spec_heading_styles, extract_heading_styles, seq_views, lemma_heading_styles_sorted,
};
use crate::labels::{spec_headers_found, extract_header_text_content};
use crate::headerfooter::{
    spec_header_footer_info, extract_header_footer_info, parts_view, is_header_name,
    is_footer_name,
};
use crate::record::{
    DocumentStyleInfo, DocumentStyleInfoView, AnalysisError, spec_default_margins,
    default_margins, spec_summary, build_summary,
};
use crate::text::{
    str_to_chars, chars_to_string, chars_eq, append_str, append_chars, subvec,
};
use crate::scan::contains_exec;

verus! {

/// Start of the file-name component: the position just after the last path
/// separator before `j`.
pub open spec fn name_start(p: Seq<char>, j: int) -> int
    decreases j,
{
    if j <= 0 {
        0
    } else if p[j - 1] == '/' || p[j - 1] == '\\' {
        j
    } else {
        name_start(p, j - 1)
    }
}

/// The position of the last `.` in `p` strictly before `j` and at or after
/// `start`.
pub open spec fn last_dot(p: Seq<char>, j: int, start: int) -> Option<int>
    decreases j,
{
    if j <= start || j <= 0 {
        None
    } else if p[j - 1] == '.' {
        Some(j - 1)
    } else {
        last_dot(p, j - 1, start)
    }
}

/// The extension of a path: what follows the last dot of the file-name
/// component, empty when the name has no dot or only a leading one.
pub open spec fn spec_extension(p: Seq<char>) -> Seq<char> {
    let s = name_start(p, p.len() as int);
    match last_dot(p, p.len() as int, s) {
        Some(d) => if d > s {
            p.subrange(d + 1, p.len() as int)
        } else {
            Seq::empty()
        },
        None => Seq::empty(),
    }
}

/// ASCII lower-casing of one character.
pub open spec fn lower_char(c: char) -> char {
    if 65 <= c as u32 <= 90 {
        (((c as u32) + 32) as u8) as char
    } else {
        c
    }
}

/// ASCII lower-casing of a character sequence.
pub open spec fn lower_ascii(s: Seq<char>) -> Seq<char> {
    Seq::new(s.len(), |i: int| lower_char(s[i]))
}

fn name_start_exec(p: &Vec<char>) -> (r: usize)
    ensures
        r == name_start(p@, p@.len() as int),
        r <= p@.len(),
{
    let mut j: usize = p.len();
    loop
        invariant
            j <= p@.len(),
            name_start(p@, p@.len() as int) == name_start(p@, j as int),
        decreases j,
    {
        if j == 0 {
            return 0;
        }
        if p[j - 1] == '/' || p[j - 1] == '\\' {
            return j;
        }
        j = j - 1;
    }
}

fn last_dot_exec(p: &Vec<char>, start: usize) -> (r: Option<usize>)
    requires
        start <= p@.len(),
    ensures
        match r {
            Some(d) => last_dot(p@, p@.len() as int, start as int) == Some(d as int) && d
                < p@.len(),
            None => last_dot(p@, p@.len() as int, start as int) is None,
        },
{
    let mut j: usize = p.len();
    loop
        invariant
            j <= p@.len(),
            last_dot(p@, p@.len() as int, start as int) == last_dot(p@, j as int, start as int),
        decreases j,
    {
        if j <= start || j == 0 {
            return None;
        }
        if p[j - 1] == '.' {
            return Some(j - 1);
        }
        j = j - 1;
    }
}

/// Exec: the ASCII-lower-cased extension of a path.
pub fn path_extension_lower(p: &Vec<char>) -> (r: Vec<char>)
    ensures
        r@ == lower_ascii(spec_extension(p@)),
{
    let n = p.len();
    let s = name_start_exec(p);
    let ghost ext = spec_extension(p@);
    let raw: Vec<char> = match last_dot_exec(p, s) {
        Some(d) => {
            if d > s {
                subvec(p, d + 1, n)
            } else {
                Vec::new()
            }
        },
        None => Vec::new(),
    };
    proof {
        assert(raw@ =~= ext);
    }
    let mut out: Vec<char> = Vec::new();
    let mut i: usize = 0;
    while i < raw.len()
        invariant
            i <= raw@.len(),
            raw@ == ext,
            out@ =~= lower_ascii(ext).subrange(0, i as int),
        decreases raw.len() - i,
    {
        let c = raw[i];
        let u = c as u32;
        if 65 <= u && u <= 90 {
            out.push(((u + 32) as u8) as char);
        } else {
            out.push(c);
        }
        assert(out@ =~= lower_ascii(ext).subrange(0, i + 1));
        i = i + 1;
    }
    proof {
        assert(lower_ascii(ext).subrange(0, lower_ascii(ext).len() as int) =~= lower_ascii(ext));
    }
    out
}

/// Exec: validate a document path before any file is touched.
///
/// The path must be non-empty and carry a `docx` extension
/// (case-insensitive); `doc` names the unsupported legacy format, and any
/// other extension is rejected as unsupported.
pub fn validate_document_path(path: &str) -> (r: Result<(), AnalysisError>)
    ensures
        r is Ok <==> path@.len() > 0 && lower_ascii(spec_extension(path@)) == "docx"@,
        match r {
            Ok(()) => true,
            Err(e) => match e {
                AnalysisError::EmptyPath => path@.len() == 0,
                AnalysisError::UnsupportedFormat { extension } => path@.len() > 0 && extension@
                    == lower_ascii(spec_extension(path@)) && extension@ != "docx"@ && extension@
                    != "doc"@,
                AnalysisError::LegacyDocFormat => path@.len() > 0 && lower_ascii(
                    spec_extension(path@),
                ) == "doc"@,
                _ => false,
            },
        },
{
    let pv = str_to_chars(path);
    if pv.len() == 0 {
        return Err(AnalysisError::EmptyPath);
    }
    let ext = path_extension_lower(&pv);
    let docx = str_to_chars("docx");
    let doc = str_to_chars("doc");
    if chars_eq(&ext, &docx) {
        Ok(())
    } else if chars_eq(&ext, &doc) {
        Err(AnalysisError::LegacyDocFormat)
    } else {
        Err(AnalysisError::UnsupportedFormat { extension: chars_to_string(&ext) })
    }
}

/// The complete record computed from the document part, the
/// style-definitions part, the header/footer parts, the document
/// identifier and the analysis timestamp.
pub open spec fn spec_analyze(
    doc: Seq<char>,
    sty: Seq<char>,
    parts: Seq<(Seq<char>, Option<Seq<char>>)>,
    id: Seq<char>,
    date: Seq<char>,
) -> DocumentStyleInfoView {
    let font = spec_font_family(doc, sty);
    let size = spec_font_size_half(doc, sty);
    let line = spec_line_twentieths(doc);
    let align = spec_text_alignment(doc);
    let heads = spec_heading_styles(doc, sty);
    let labels = spec_headers_found(doc);
    let hf = spec_header_footer_info(parts);
    DocumentStyleInfoView {
        document_id: id,
        filename: "Document_"@ + id,
        analysis_date: date,
        font_family: font,
        font_size_half_points: size,
        line_spacing_twentieths: line,
        paragraph_spacing_before: 0,
        paragraph_spacing_after: 0,
        heading_styles: heads,
        text_alignment: align,
        page_margins: spec_default_margins(),
        header_footer_info: hf,
        style_summary: spec_summary(font, size, line, align, heads.len() as u32, hf),
        headers_found: labels,
    }
}

/// The analysis is a pure function of its inputs: two analyses of
/// byte-identical parts with the same identifier and timestamp produce the
/// same record.  The timestamp is supplied from outside, so records of two
/// runs agree on everything but it.
pub proof fn lemma_analyze_deterministic(
    doc: Seq<char>,
    sty: Seq<char>,
    parts: Seq<(Seq<char>, Option<Seq<char>>)>,
    id: Seq<char>,
    date: Seq<char>,
    r1: DocumentStyleInfoView,
    r2: DocumentStyleInfoView,
)
    requires
        r1 == spec_analyze(doc, sty, parts, id, date),
        r2 == spec_analyze(doc, sty, parts, id, date),
    ensures
        r1 == r2,
{
}

/// The resolved heading list of any analysis never repeats a level and is
/// sorted strictly ascending by level.
pub proof fn lemma_record_headings_sorted(
    doc: Seq<char>,
    sty: Seq<char>,
    parts: Seq<(Seq<char>, Option<Seq<char>>)>,
    id: Seq<char>,
    date: Seq<char>,
)
    ensures
        forall|i: int, j: int|
            0 <= i < j < spec_analyze(doc, sty, parts, id, date).heading_styles.len()
                ==> #[trigger] spec_analyze(doc, sty, parts, id, date).heading_styles[i].level
                < #[trigger] spec_analyze(doc, sty, parts, id, date).heading_styles[j].level,
{
    lemma_heading_styles_sorted(doc, sty);
}

fn labels_to_strings(v: &Vec<Vec<char>>) -> (r: Vec<String>)
    ensures
        Seq::new(r@.len(), |i: int| r@[i]@) == v.deep_view(),
{
    let mut r: Vec<String> = Vec::new();
    let mut i: usize = 0;
    while i < v.len()
        invariant
            i <= v@.len(),
            r@.len() == i,
            forall|j: int| 0 <= j < i ==> #[trigger] r@[j]@ == v@[j]@,
        decreases v.len() - i,
    {
        r.push(chars_to_string(&v[i]));
        i = i + 1;
    }
    proof {
        assert forall|j: int| 0 <= j < r@.len() implies Seq::new(r@.len(), |i: int| r@[i]@)[j]
            == v.deep_view()[j] by {
            assert(r@[j]@ == v@[j]@);
        }
        assert(Seq::new(r@.len(), |i: int| r@[i]@) =~= v.deep_view());
    }
    r
}

/// Exec: the result aggregator.  Runs every extractor over the supplied
/// parts and composes the immutable style record.
pub fn analyze_document_content(
    doc_xml: &str,
    styles_xml: &str,
    hf_parts: &Vec<(String, Option<String>)>,
    document_id: &str,
    analysis_date: String,
) -> (r: DocumentStyleInfo)
    ensures
        r@ == spec_analyze(
            doc_xml@,
            styles_xml@,
            parts_view(hf_parts@),
            document_id@,
            analysis_date@,
        ),
{
    let doc = str_to_chars(doc_xml);
    let sty = str_to_chars(styles_xml);
    let font = extract_font_family(&doc, &sty);
    let size = extract_font_size(&doc, &sty);
    let line = extract_line_spacing(&doc);
    let align = extract_text_alignment(&doc);
    let heads = extract_heading_styles(&doc, &sty);
    let labels = extract_header_text_content(&doc);
    let hf = extract_header_footer_info(hf_parts);
    proof {
        if heads@.len() >= 7 {
            assert(heads@[0].level < heads@[1].level);
            assert(heads@[1].level < heads@[2].level);
            assert(heads@[2].level < heads@[3].level);
            assert(heads@[3].level < heads@[4].level);
            assert(heads@[4].level < heads@[5].level);
            assert(heads@[5].level < heads@[6].level);
            assert(1 <= heads@[0].level);
            assert(heads@[6].level <= 6);
            assert(false);
        }
    }
    let heading_count: u32 = heads.len() as u32;
    let summary = build_summary(&font, size, line, align, heading_count, &hf);
    let mut filename: Vec<char> = Vec::new();
    append_str(&mut filename, "Document_");
    let idv = str_to_chars(document_id);
    append_chars(&mut filename, &idv);
    let rec = DocumentStyleInfo {
        document_id: chars_to_string(&idv),
        filename: chars_to_string(&filename),
        analysis_date: analysis_date,
        font_family: chars_to_string(&font),
        font_size_half_points: size,
        line_spacing_twentieths: line,
        paragraph_spacing_before: 0,
        paragraph_spacing_after: 0,
        heading_styles: heads,
        text_alignment: align,
        page_margins: default_margins(),
        header_footer_info: hf,
        style_summary: chars_to_string(&summary),
        headers_found: labels_to_strings(&labels),
    };
    proof {
        let sv = spec_analyze(
            doc_xml@,
            styles_xml@,
            parts_view(hf_parts@),
            document_id@,
            analysis_date@,
        );
        assert(rec@.heading_styles =~= seq_views(rec.heading_styles@));
        assert(rec@.heading_styles =~= sv.heading_styles);
        assert(rec@.headers_found =~= sv.headers_found);
        assert(sv.heading_styles.len() == heading_count);
        assert(rec@ == sv);
    }
    rec
}

/// The header/footer parts of the archive: every part whose name looks
/// like a header or a footer, in order, paired with its text where it
/// reads as text.
pub open spec fn hf_parts_from(
    names: Seq<Seq<char>>,
    texts: Map<Seq<char>, Seq<char>>,
    i: int,
) -> Seq<(Seq<char>, Option<Seq<char>>)>
    decreases names.len() - i,
{
    if i < 0 || i >= names.len() {
        Seq::empty()
    } else {
        let rest = hf_parts_from(names, texts, i + 1);
        if is_header_name(names[i]) || is_footer_name(names[i]) {
            let entry = (
                names[i],
                if texts.dom().contains(names[i]) {
                    Some(texts[names[i]])
                } else {
                    None
                },
            );
            seq![entry] + rest
        } else {
            rest
        }
    }
}

/// The style-definitions text the analysis works with: the part's text, or
/// empty when the optional part is absent.
pub open spec fn styles_or_empty(texts: Map<Seq<char>, Seq<char>>) -> Seq<char> {
    if texts.dom().contains("word/styles.xml"@) {
        texts["word/styles.xml"@]
    } else {
        Seq::empty()
    }
}

/// Exec: analyse an opened archive.  Succeeds exactly when the mandatory
/// document part is present and readable; the optional style-definitions
/// part and the header/footer parts degrade to defaults when absent.
pub fn analyze_archive(a: &mut ZipArchive<Cursor<Vec<u8>>>, document_id: &str) -> (r: Result<
    DocumentStyleInfo,
    AnalysisError,
>)
    ensures
        r is Ok <==> archive_texts(*old(a)).dom().contains("word/document.xml"@),
        match r {
            Ok(rec) => rec@ == spec_analyze(
                archive_texts(*old(a))["word/document.xml"@],
                styles_or_empty(archive_texts(*old(a))),
                hf_parts_from(archive_names(*old(a)), archive_texts(*old(a)), 0),
                document_id@,
                rec@.analysis_date,
            ),
            Err(e) => e is DocumentPartMissing,
        },
{
    let ghost nv = archive_names(*a);
    let ghost tx = archive_texts(*a);
    let doc_xml = match archive_read_part(a, "word/document.xml") {
        Some(s) => s,
        None => {
            return Err(AnalysisError::DocumentPartMissing);
        },
    };
    let styles_xml = match archive_read_part(a, "word/styles.xml") {
        Some(s) => s,
        None => String::new(),
    };
    let names = archive_part_names(a);
    let mut hf_parts: Vec<(String, Option<String>)> = Vec::new();
    let ghost pv0 = parts_view(hf_parts@);
    proof {
        assert(pv0 =~= Seq::<(Seq<char>, Option<Seq<char>>)>::empty());
    }
    let hdr = str_to_chars("header");
    let ftr = str_to_chars("footer");
    let mut i: usize = 0;
    while i < names.len()
        invariant
            i <= names@.len(),
            hdr@ == "header"@,
            ftr@ == "footer"@,
            names.deep_view() == nv,
            nv.len() == names@.len(),
            archive_names(*a) == nv,
            archive_texts(*a) == tx,
            hf_parts_from(nv, tx, 0) =~= parts_view(hf_parts@) + hf_parts_from(nv, tx, i as int),
        decreases names.len() - i,
    {
        let name_chars = str_to_chars(names[i].as_str());
        proof {
            assert(nv[i as int] == names@[i as int]@);
        }
        let is_hf = contains_exec(&name_chars, &hdr) || contains_exec(&name_chars, &ftr);
        if is_hf {
            let text = archive_read_part(a, names[i].as_str());
            let ghost old_pv = parts_view(hf_parts@);
            let name_copy = chars_to_string(&name_chars);
            hf_parts.push((name_copy, text));
            proof {
                let entry = (
                    nv[i as int],
                    if tx.dom().contains(nv[i as int]) {
                        Some(tx[nv[i as int]])
                    } else {
                        None
                    },
                );
                assert(parts_view(hf_parts@) =~= old_pv + seq![entry]);
                assert(hf_parts_from(nv, tx, i as int) =~= seq![entry] + hf_parts_from(
                    nv,
                    tx,
                    i + 1,
                ));
                assert(hf_parts_from(nv, tx, 0) =~= parts_view(hf_parts@) + hf_parts_from(
                    nv,
                    tx,
                    i + 1,
                ));
            }
        } else {
            proof {
                assert(hf_parts_from(nv, tx, i as int) =~= hf_parts_from(nv, tx, i + 1));
            }
        }
        i = i + 1;
    }
    proof {
        assert(hf_parts_from(nv, tx, nv.len() as int) =~= Seq::<
            (Seq<char>, Option<Seq<char>>),
        >::empty());
        assert(hf_parts_from(nv, tx, 0) =~= parts_view(hf_parts@));
    }
    let date = now_rfc3339();
    let rec = analyze_document_content(
        doc_xml.as_str(),
        styles_xml.as_str(),
        &hf_parts,
        document_id,
        date,
    );
    Ok(rec)
}

/// The bytes open as a ZIP container.
pub open spec fn zip_opens(b: Seq<u8>) -> bool {
    zip_contents_of(b) is Some
}

/// The part names of the container the bytes hold (empty when they do not
/// open).
pub open spec fn zip_names_of(b: Seq<u8>) -> Seq<Seq<char>> {
    match zip_contents_of(b) {
        Some(c) => c.0,
        None => Seq::empty(),
    }
}

/// The readable parts' text of the container the bytes hold (empty when
/// they do not open).
pub open spec fn zip_texts_of(b: Seq<u8>) -> Map<Seq<char>, Seq<char>> {
    match zip_contents_of(b) {
        Some(c) => c.1,
        None => Map::empty(),
    }
}

/// Exec: analyse a document supplied as raw container bytes.
///
/// Succeeds exactly when the bytes open as a ZIP container that holds the
/// mandatory document part; the container error carries the underlying
/// open failure reason, and everything optional degrades to defaults.
pub fn analyze_document_bytes(bytes: Vec<u8>, document_id: &str) -> (r: Result<
    DocumentStyleInfo,
    AnalysisError,
>)
    ensures
        r is Ok <==> zip_opens(bytes@) && zip_texts_of(bytes@).dom().contains(
            "word/document.xml"@,
        ),
        match r {
            Ok(rec) => rec@ == spec_analyze(
                zip_texts_of(bytes@)["word/document.xml"@],
                styles_or_empty(zip_texts_of(bytes@)),
                hf_parts_from(zip_names_of(bytes@), zip_texts_of(bytes@), 0),
                document_id@,
                rec@.analysis_date,
            ),
            Err(e) => match e {
                AnalysisError::NotAZipContainer { .. } => !zip_opens(bytes@),
                AnalysisError::DocumentPartMissing => zip_opens(bytes@) && !zip_texts_of(
                    bytes@,
                ).dom().contains("word/document.xml"@),
                _ => false,
            },
        },
{
    let ghost b = bytes@;
    let mut archive = match archive_open(bytes) {
        Ok(a) => a,
        Err(reason) => {
            return Err(AnalysisError::NotAZipContainer { reason });
        },
    };
    let ghost a0 = archive;
    proof {
        assert(zip_names_of(b) == archive_names(a0));
        assert(zip_texts_of(b) == archive_texts(a0));
    }
    match analyze_archive(&mut archive, document_id) {
        Ok(rec) => Ok(rec),
        Err(e) => Err(e),
    }
}

/// Two analyses of byte-identical container bytes with the same document
/// identifier produce identical records apart from the analysis timestamp,
/// which is supplied by the clock: end-to-end determinism of the pipeline.
pub proof fn lemma_bytes_analysis_deterministic(
    b: Seq<u8>,
    id: Seq<char>,
    r1: DocumentStyleInfoView,
    r2: DocumentStyleInfoView,
)
    requires
        r1 == spec_analyze(
            zip_texts_of(b)["word/document.xml"@],
            styles_or_empty(zip_texts_of(b)),
            hf_parts_from(zip_names_of(b), zip_texts_of(b), 0),
            id,
            r1.analysis_date,
        ),
        r2 == spec_analyze(
            zip_texts_of(b)["word/document.xml"@],
            styles_or_empty(zip_texts_of(b)),
            hf_parts_from(zip_names_of(b), zip_texts_of(b), 0),
            id,
            r2.analysis_date,
        ),
    ensures
        r1.document_id == r2.document_id,
        r1.filename == r2.filename,
        r1.font_family == r2.font_family,
        r1.font_size_half_points == r2.font_size_half_points,
        r1.line_spacing_twentieths == r2.line_spacing_twentieths,
        r1.paragraph_spacing_before == r2.paragraph_spacing_before,
        r1.paragraph_spacing_after == r2.paragraph_spacing_after,
        r1.heading_styles == r2.heading_styles,
        r1.text_alignment == r2.text_alignment,
        r1.page_margins == r2.page_margins,
        r1.header_footer_info == r2.header_footer_info,
        r1.style_summary == r2.style_summary,
        r1.headers_found == r2.headers_found,
{
}

} // verus!
