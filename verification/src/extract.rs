//! The property extractor: one ordered cascade of structural patterns per
//! style property.
//!
//! Each cascade is tried first against the primary source (the document
//! body part) and only then against the secondary source (the
//! style-definitions part); the first matching pattern wins, and a property
//! whose cascade is exhausted falls back to its documented default.

use vstd::prelude::*;
use crate::scan::{
    scan_attr, scan_bare, scan_elem_lit, contains_pat, scan_attr_exec, scan_bare_exec,
    scan_elem_lit_exec, contains_exec, lemma_first_match_some, first_match_from, value_ok,
    attr_value_in_region, tag_limit,
};
use crate::text::{
    digits_val, all_digits, str_to_chars, subvec, parse_digits, is_numeric_vec, chars_eq,
};

verus! {

/// Document-wide text alignment.
#[derive(Clone, Copy, Debug, PartialEq, Eq, Structural)]
pub enum Alignment {
    Left,
    Right,
    Center,
    Justify,
}

/// Font weight of a heading or a header/footer.
#[derive(Clone, Copy, Debug, PartialEq, Eq, Structural)]
pub enum FontWeight {
    Normal,
    Bold,
}

/// The first of two optional findings.
pub open spec fn or_opt<A>(a: Option<A>, b: Option<A>) -> Option<A> {
    if a is Some {
        a
    } else {
        b
    }
}

/// Quoted value of `attr` on the first occurrence of `elem` that carries
/// one.
pub open spec fn attr_value(
    t: Seq<char>,
    elem: Seq<char>,
    attr: Seq<char>,
    allow_empty: bool,
) -> Option<Seq<char>> {
    match scan_attr(t, elem, attr, allow_empty, false, 0) {
        Some((i, vs, q)) => Some(t.subrange(vs, q)),
        None => None,
    }
}

/// Numeric value of `attr` on the first occurrence of `elem` that carries
/// a numeric one.
pub open spec fn attr_num(t: Seq<char>, elem: Seq<char>, attr: Seq<char>) -> Option<u32> {
    match scan_attr(t, elem, attr, false, true, 0) {
        Some((i, vs, q)) => Some(digits_val(t.subrange(vs, q)) as u32),
        None => None,
    }
}

/// Quoted value of the first bare occurrence of `attr` with a non-empty
/// value.
pub open spec fn bare_value(t: Seq<char>, attr: Seq<char>) -> Option<Seq<char>> {
    match scan_bare(t, attr, false, 0) {
        Some((vs, q)) => Some(t.subrange(vs, q)),
        None => None,
    }
}

/// Numeric value of the first bare occurrence of `attr` with a numeric
/// value.
pub open spec fn bare_num(t: Seq<char>, attr: Seq<char>) -> Option<u32> {
    match scan_bare(t, attr, true, 0) {
        Some((vs, q)) => Some(digits_val(t.subrange(vs, q)) as u32),
        None => None,
    }
}

/// A successful attribute scan yields a value satisfying the demands it
/// was made under.
pub proof fn lemma_scan_attr_ok(
    t: Seq<char>,
    elem: Seq<char>,
    attr: Seq<char>,
    allow_empty: bool,
    numeric: bool,
    from: int,
    i: int,
    vs: int,
    q: int,
)
    requires
        scan_attr(t, elem, attr, allow_empty, numeric, from) == Some((i, vs, q)),
    ensures
        0 <= vs <= q <= t.len(),
        value_ok(t.subrange(vs, q), allow_empty, numeric),
    decreases t.len() - from,
{
    match first_match_from(t, elem, from) {
        None => {
            assert(false);
        },
        Some(i0) => {
            let rs = i0 + elem.len();
            match attr_value_in_region(t, attr, rs, allow_empty, numeric) {
                Some((vs0, q0)) => {
                    let limit = tag_limit(t, rs);
                    match first_match_from(t, attr, rs) {
                        Some(a) => {
                            lemma_first_match_some(t, attr, rs, a);
                            match first_match_from(t, seq!['"'], a + attr.len()) {
                                Some(qq) => {
                                    lemma_first_match_some(t, seq!['"'], a + attr.len(), qq);
                                },
                                None => {},
                            }
                        },
                        None => {},
                    }
                },
                None => {
                    lemma_scan_attr_ok(
                        t,
                        elem,
                        attr,
                        allow_empty,
                        numeric,
                        i0 + 1,
                        i,
                        vs,
                        q,
                    );
                },
            }
        },
    }
}

/// A successful bare scan yields a value satisfying the demands it was
/// made under.
pub proof fn lemma_scan_bare_ok(t: Seq<char>, attr: Seq<char>, numeric: bool, from: int, vs: int, q: int)
    requires
        scan_bare(t, attr, numeric, from) == Some((vs, q)),
    ensures
        0 <= vs <= q <= t.len(),
        value_ok(t.subrange(vs, q), false, numeric),
    decreases t.len() - from,
{
    match first_match_from(t, attr, from) {
        None => {
            assert(false);
        },
        Some(a) => {
            lemma_first_match_some(t, attr, from, a);
            let vs0 = a + attr.len();
            match first_match_from(t, seq!['"'], vs0) {
                Some(qq) => {
                    lemma_first_match_some(t, seq!['"'], vs0, qq);
                    if value_ok(t.subrange(vs0, qq), false, numeric) {
                    } else {
                        lemma_scan_bare_ok(t, attr, numeric, a + 1, vs, q);
                    }
                },
                None => {
                    lemma_scan_bare_ok(t, attr, numeric, a + 1, vs, q);
                },
            }
        },
    }
}

/// Exec: quoted attribute value on an element, as a fresh vector.
pub fn attr_value_exec(t: &Vec<char>, elem: &str, attr: &str, allow_empty: bool) -> (r: Option<
    Vec<char>,
>)
    ensures
        match r {
            Some(v) => attr_value(t@, elem@, attr@, allow_empty) == Some(v@),
            None => attr_value(t@, elem@, attr@, allow_empty) is None,
        },
{
    let ev = str_to_chars(elem);
    let av = str_to_chars(attr);
    match scan_attr_exec(t, &ev, &av, allow_empty, false, 0) {
        Some((i, vs, q)) => Some(subvec(t, vs, q)),
        None => None,
    }
}

/// Exec: numeric attribute value on an element.
pub fn attr_num_exec(t: &Vec<char>, elem: &str, attr: &str) -> (r: Option<u32>)
    ensures
        r == attr_num(t@, elem@, attr@),
{
    let ev = str_to_chars(elem);
    let av = str_to_chars(attr);
    match scan_attr_exec(t, &ev, &av, false, true, 0) {
        Some((i, vs, q)) => {
            proof {
                lemma_scan_attr_ok(
                    t@,
                    elem@,
                    attr@,
                    false,
                    true,
                    0,
                    i as int,
                    vs as int,
                    q as int,
                );
            }
            let v = subvec(t, vs, q);
            Some(parse_digits(&v))
        },
        None => None,
    }
}

/// Exec: bare quoted attribute value.
pub fn bare_value_exec(t: &Vec<char>, attr: &str) -> (r: Option<Vec<char>>)
    ensures
        match r {
            Some(v) => bare_value(t@, attr@) == Some(v@),
            None => bare_value(t@, attr@) is None,
        },
{
    let av = str_to_chars(attr);
    match scan_bare_exec(t, &av, false, 0) {
        Some((vs, q)) => Some(subvec(t, vs, q)),
        None => None,
    }
}

/// Exec: bare numeric attribute value.
pub fn bare_num_exec(t: &Vec<char>, attr: &str) -> (r: Option<u32>)
    ensures
        r == bare_num(t@, attr@),
{
    let av = str_to_chars(attr);
    match scan_bare_exec(t, &av, true, 0) {
        Some((vs, q)) => {
            proof {
                lemma_scan_bare_ok(t@, attr@, true, 0, vs as int, q as int);
            }
            let v = subvec(t, vs, q);
            Some(parse_digits(&v))
        },
        None => None,
    }
}

/// Font-family cascade over one source: ascii font, high-ANSI font,
/// complex-script font, style display name, bare ascii attribute.
pub open spec fn font_in(t: Seq<char>) -> Option<Seq<char>> {
    or_opt(
        attr_value(t, "<w:rFonts"@, "w:ascii=\""@, false),
        or_opt(
            attr_value(t, "<w:rFonts"@, "w:hAnsi=\""@, false),
            or_opt(
                attr_value(t, "<w:rFonts"@, "w:cs=\""@, false),
                or_opt(
                    attr_value(t, "<w:name"@, "w:val=\""@, false),
                    bare_value(t, "w:ascii=\""@),
                ),
            ),
        ),
    )
}

/// The document's primary font family: the cascade over the document part,
/// then over the style-definitions part, then the serif default.
pub open spec fn spec_font_family(doc: Seq<char>, sty: Seq<char>) -> Seq<char> {
    match font_in(doc) {
        Some(v) => v,
        None => match font_in(sty) {
            Some(v) => v,
            None => "Times New Roman"@,
        },
    }
}

fn font_in_exec(t: &Vec<char>) -> (r: Option<Vec<char>>)
    ensures
        match r {
            Some(v) => font_in(t@) == Some(v@),
            None => font_in(t@) is None,
        },
{
    match attr_value_exec(t, "<w:rFonts", "w:ascii=\"", false) {
        Some(v) => Some(v),
        None => match attr_value_exec(t, "<w:rFonts", "w:hAnsi=\"", false) {
            Some(v) => Some(v),
            None => match attr_value_exec(t, "<w:rFonts", "w:cs=\"", false) {
                Some(v) => Some(v),
                None => match attr_value_exec(t, "<w:name", "w:val=\"", false) {
                    Some(v) => Some(v),
                    None => match bare_value_exec(t, "w:ascii=\"") {
                        Some(v) => Some(v),
                        None => None,
                    },
                },
            },
        },
    }
}

/// Exec: the document's primary font family.
pub fn extract_font_family(doc: &Vec<char>, sty: &Vec<char>) -> (r: Vec<char>)
    ensures
        r@ == spec_font_family(doc@, sty@),
{
    match font_in_exec(doc) {
        Some(v) => v,
        None => match font_in_exec(sty) {
            Some(v) => v,
            None => str_to_chars("Times New Roman"),
        },
    }
}

/// Font-size cascade over one source, in half-points: run-size element,
/// complex-script size element, bare size attribute.
pub open spec fn size_in(t: Seq<char>) -> Option<u32> {
    or_opt(
        attr_num(t, "<w:sz"@, "w:val=\""@),
        or_opt(attr_num(t, "<w:szCs"@, "w:val=\""@), bare_num(t, "w:sz=\""@)),
    )
}

/// The document's primary font size in half-points; the default is 24
/// (12 points).
pub open spec fn spec_font_size_half(doc: Seq<char>, sty: Seq<char>) -> u32 {
    match size_in(doc) {
        Some(v) => v,
        None => match size_in(sty) {
            Some(v) => v,
            None => 24,
        },
    }
}

fn size_in_exec(t: &Vec<char>) -> (r: Option<u32>)
    ensures
        r == size_in(t@),
{
    match attr_num_exec(t, "<w:sz", "w:val=\"") {
        Some(v) => Some(v),
        None => match attr_num_exec(t, "<w:szCs", "w:val=\"") {
            Some(v) => Some(v),
            None => bare_num_exec(t, "w:sz=\""),
        },
    }
}

/// Exec: the document's primary font size in half-points.
pub fn extract_font_size(doc: &Vec<char>, sty: &Vec<char>) -> (r: u32)
    ensures
        r == spec_font_size_half(doc@, sty@),
{
    match size_in_exec(doc) {
        Some(v) => v,
        None => match size_in_exec(sty) {
            Some(v) => v,
            None => 24,
        },
    }
}

/// The document's line spacing in twentieths of a point (240 = single
/// spacing): the numeric `line` value of a spacing element, a bare `line`
/// attribute, the automatic-spacing marker (240), or the default 276
/// (a 1.15 multiplier).
pub open spec fn spec_line_twentieths(doc: Seq<char>) -> u32 {
    match attr_num(doc, "<w:spacing"@, "w:line=\""@) {
        Some(v) => v,
        None => match bare_num(doc, "w:line=\""@) {
            Some(v) => v,
            None => if contains_pat(doc, "w:lineRule=\"auto\""@) {
                240
            } else {
                276
            },
        },
    }
}

/// Exec: the document's line spacing in twentieths of a point.
pub fn extract_line_spacing(doc: &Vec<char>) -> (r: u32)
    ensures
        r == spec_line_twentieths(doc@),
{
    match attr_num_exec(doc, "<w:spacing", "w:line=\"") {
        Some(v) => v,
        None => match bare_num_exec(doc, "w:line=\"") {
            Some(v) => v,
            None => {
                let auto = str_to_chars("w:lineRule=\"auto\"");
                if contains_exec(doc, &auto) {
                    240
                } else {
                    276
                }
            },
        },
    }
}

/// A justification element whose attribute region carries the literal.
pub open spec fn has_jc(t: Seq<char>, lit: Seq<char>) -> bool {
    scan_elem_lit(t, "<w:jc"@, lit, 0) is Some
}

/// The document's text alignment: exact-value matches on a justification
/// element in a fixed precedence, and left when no justification element
/// matches.
pub open spec fn spec_text_alignment(doc: Seq<char>) -> Alignment {
    if has_jc(doc, "w:val=\"center\""@) {
        Alignment::Center
    } else if has_jc(doc, "w:val=\"right\""@) {
        Alignment::Right
    } else if has_jc(doc, "w:val=\"both\""@) {
        Alignment::Justify
    } else if has_jc(doc, "w:val=\"distribute\""@) {
        Alignment::Justify
    } else if has_jc(doc, "w:val=\"left\""@) {
        Alignment::Left
    } else {
        Alignment::Left
    }
}

fn has_jc_exec(t: &Vec<char>, lit: &str) -> (r: bool)
    ensures
        r == has_jc(t@, lit@),
{
    let ev = str_to_chars("<w:jc");
    let lv = str_to_chars(lit);
    scan_elem_lit_exec(t, &ev, &lv, 0).is_some()
}

/// Exec: the document's text alignment.
pub fn extract_text_alignment(doc: &Vec<char>) -> (r: Alignment)
    ensures
        r == spec_text_alignment(doc@),
{
    if has_jc_exec(doc, "w:val=\"center\"") {
        Alignment::Center
    } else if has_jc_exec(doc, "w:val=\"right\"") {
        Alignment::Right
    } else if has_jc_exec(doc, "w:val=\"both\"") {
        Alignment::Justify
    } else if has_jc_exec(doc, "w:val=\"distribute\"") {
        Alignment::Justify
    } else if has_jc_exec(doc, "w:val=\"left\"") {
        Alignment::Left
    } else {
        Alignment::Left
    }
}

/// Colour stated on a colour element; `auto` and the empty value mean "no
/// colour specified" and fall back to black.
pub open spec fn spec_color(t: Seq<char>) -> Seq<char> {
    match attr_value(t, "<w:color"@, "w:val=\""@, true) {
        Some(v) => if v == "auto"@ || v.len() == 0 {
            "#000000"@
        } else {
            seq!['#'] + v
        },
        None => "#000000"@,
    }
}

/// Exec: the colour stated on a colour element, as `#RRGGBB`.
pub fn extract_color(t: &Vec<char>) -> (r: Vec<char>)
    ensures
        r@ == spec_color(t@),
{
    match attr_value_exec(t, "<w:color", "w:val=\"", true) {
        Some(v) => {
            let auto = str_to_chars("auto");
            if chars_eq(&v, &auto) || v.len() == 0 {
                str_to_chars("#000000")
            } else {
                let mut out = crate::scan::one_char_vec('#');
                let mut tail = v;
                let ghost tv = tail@;
                out.append(&mut tail);
                assert(out@ =~= seq!['#'] + tv);
                out
            }
        },
        None => str_to_chars("#000000"),
    }
}

/// Font family scoped to a style block or paragraph: ascii font on a
/// font-declaration element, then a style display name, then the
/// sans-serif fallback.
pub open spec fn spec_block_font(b: Seq<char>) -> Seq<char> {
    match attr_value(b, "<w:rFonts"@, "w:ascii=\""@, false) {
        Some(v) => v,
        None => match attr_value(b, "<w:name"@, "w:val=\""@, false) {
            Some(v) => v,
            None => "Arial"@,
        },
    }
}

/// Exec: font family scoped to a style block or paragraph.
pub fn extract_font_from_style(b: &Vec<char>) -> (r: Vec<char>)
    ensures
        r@ == spec_block_font(b@),
{
    match attr_value_exec(b, "<w:rFonts", "w:ascii=\"", false) {
        Some(v) => v,
        None => match attr_value_exec(b, "<w:name", "w:val=\"", false) {
            Some(v) => v,
            None => str_to_chars("Arial"),
        },
    }
}

/// Exec: font family scoped to a paragraph (the same patterns as for a
/// style block).
pub fn extract_font_from_paragraph(b: &Vec<char>) -> (r: Vec<char>)
    ensures
        r@ == spec_block_font(b@),
{
    extract_font_from_style(b)
}

/// Font size scoped to a style block, in half-points: the first size
/// element's value where it is numeric, else the 32 half-point (16 point)
/// fallback.
pub open spec fn spec_block_size_half(b: Seq<char>) -> u32 {
    match attr_value(b, "<w:sz"@, "w:val=\""@, false) {
        Some(v) => if 1 <= v.len() <= 9 && all_digits(v) {
            digits_val(v) as u32
        } else {
            32
        },
        None => 32,
    }
}

/// Exec: font size scoped to a style block.
pub fn extract_size_from_style(b: &Vec<char>) -> (r: u32)
    ensures
        r == spec_block_size_half(b@),
{
    match attr_value_exec(b, "<w:sz", "w:val=\"", false) {
        Some(v) => {
            if is_numeric_vec(&v) {
                parse_digits(&v)
            } else {
                32
            }
        },
        None => 32,
    }
}

/// A bold marker anywhere in the block.
pub open spec fn spec_block_bold(b: Seq<char>) -> FontWeight {
    if contains_pat(b, "<w:b"@) {
        FontWeight::Bold
    } else {
        FontWeight::Normal
    }
}

/// Exec: bold detection in a block.
pub fn extract_weight_from_style(b: &Vec<char>) -> (r: FontWeight)
    ensures
        r == spec_block_bold(b@),
{
    let m = str_to_chars("<w:b");
    if contains_exec(b, &m) {
        FontWeight::Bold
    } else {
        FontWeight::Normal
    }
}

/// Alignment scoped to a header or footer part: the first justification
/// value, mapped; anything unknown falls back to left.
pub open spec fn spec_hf_alignment(t: Seq<char>) -> Alignment {
    match attr_value(t, "<w:jc"@, "w:val=\""@, true) {
        Some(v) => if v == "center"@ {
            Alignment::Center
        } else if v == "right"@ {
            Alignment::Right
        } else if v == "both"@ || v == "distribute"@ {
            Alignment::Justify
        } else {
            Alignment::Left
        },
        None => Alignment::Left,
    }
}

/// Exec: alignment scoped to a header or footer part.
pub fn extract_alignment_from_xml(t: &Vec<char>) -> (r: Alignment)
    ensures
        r == spec_hf_alignment(t@),
{
    match attr_value_exec(t, "<w:jc", "w:val=\"", true) {
        Some(v) => {
            let c = str_to_chars("center");
            let rr = str_to_chars("right");
            let b = str_to_chars("both");
            let d = str_to_chars("distribute");
            if chars_eq(&v, &c) {
                Alignment::Center
            } else if chars_eq(&v, &rr) {
                Alignment::Right
            } else if chars_eq(&v, &b) || chars_eq(&v, &d) {
                Alignment::Justify
            } else {
                Alignment::Left
            }
        },
        None => Alignment::Left,
    }
}

} // verus!
