//! The header/footer resolver.
//!
//! Header candidates are the archive parts whose names contain `header`,
//! ranked by naming convention: rank one for the canonical primary header,
//! rank two for any `header1` name, rank three for a bare `header.xml`,
//! rank nine for the rest.  Candidates are processed in ascending rank
//! order (stable within a rank); the first candidate with non-empty
//! extracted text is accepted, and a rank-one acceptance stops the scan.
//! Footer candidates are
//! unranked: the first footer part whose extracted text is non-empty and
//! not placeholder-only content (a bare page number) is accepted.

use vstd::prelude::*;
use crate::scan::{contains_pat, contains_exec};
use crate::extract::{
    spec_block_font, spec_block_size_half, spec_block_bold, spec_color, spec_hf_alignment,
    extract_font_from_style, extract_size_from_style, extract_weight_from_style, extract_color,
    extract_alignment_from_xml,
};
use crate::labels::{spec_extract_text, extract_text_from_xml};
use crate::record::{HeaderFooterStyle, HeaderFooterStyleView, HeaderFooterInfo, HeaderFooterInfoView};
use crate::text::{
    trim, trim_exec, all_digits, is_digit_char, is_space_char, eq_fold, eq_fold_exec, is_digit,
    is_space, str_to_chars, subvec, chars_eq, chars_to_string,
};

verus! {

/// First position at or after `i` that does not hold whitespace.
pub open spec fn skip_ws_idx(t: Seq<char>, i: int) -> int
    decreases t.len() - i,
{
    if 0 <= i < t.len() && is_space_char(t[i]) {
        skip_ws_idx(t, i + 1)
    } else {
        i
    }
}

/// First position at or after `i` that does not hold a digit.
pub open spec fn skip_digits_idx(t: Seq<char>, i: int) -> int
    decreases t.len() - i,
{
    if 0 <= i < t.len() && is_digit_char(t[i]) {
        skip_digits_idx(t, i + 1)
    } else {
        i
    }
}

/// From position `i` on: optional whitespace, then one or more digits, then
/// the end of the text.
pub open spec fn page_num_after(t: Seq<char>, i: int) -> bool {
    let a = skip_ws_idx(t, i);
    let d = skip_digits_idx(t, a);
    d > a && d == t.len()
}

/// The text begins with `p`, compared up to case folding.
pub open spec fn starts_fold(t: Seq<char>, p: Seq<char>) -> bool {
    t.len() >= p.len() && eq_fold(t.subrange(0, p.len() as int), p)
}

/// Placeholder-only content: a bare decimal number, a `page N` / `seite N`
/// / `p. N` phrase (case-insensitive), or a `- N -` pattern.
pub open spec fn spec_is_placeholder(s: Seq<char>) -> bool {
    let t = trim(s);
    (t.len() > 0 && all_digits(t)) || (starts_fold(t, "page"@) && page_num_after(t, 4)) || (
    starts_fold(t, "seite"@) && page_num_after(t, 5)) || (starts_fold(t, "p."@) && page_num_after(
        t,
        2,
    )) || (t.len() >= 2 && t[0] == '-' && t[t.len() - 1] == '-' && {
        let a = skip_ws_idx(t, 1);
        let d = skip_digits_idx(t, a);
        d > a && d <= t.len() - 1 && skip_ws_idx(t, d) == t.len() - 1
    })
}

fn skip_ws_exec(t: &Vec<char>, from: usize) -> (r: usize)
    ensures
        r == skip_ws_idx(t@, from as int),
        from <= r <= t@.len() || r == from,
{
    let mut i: usize = from;
    loop
        invariant
            from <= i,
            skip_ws_idx(t@, from as int) == skip_ws_idx(t@, i as int),
            i <= t@.len() || i == from,
        decreases t@.len() + 1 - i,
    {
        if i < t.len() && is_space(t[i]) {
            i = i + 1;
        } else {
            assert(skip_ws_idx(t@, i as int) == i);
            return i;
        }
    }
}

fn skip_digits_exec(t: &Vec<char>, from: usize) -> (r: usize)
    ensures
        r == skip_digits_idx(t@, from as int),
        from <= r,
{
    let mut i: usize = from;
    loop
        invariant
            from <= i,
            skip_digits_idx(t@, from as int) == skip_digits_idx(t@, i as int),
            i <= t@.len() || i == from,
        decreases t@.len() + 1 - i,
    {
        if i < t.len() && is_digit(t[i]) {
            i = i + 1;
        } else {
            assert(skip_digits_idx(t@, i as int) == i);
            return i;
        }
    }
}

fn starts_fold_exec(t: &Vec<char>, p: &str) -> (r: bool)
    ensures
        r == starts_fold(t@, p@),
{
    let pv = str_to_chars(p);
    if t.len() < pv.len() {
        return false;
    }
    let pre = subvec(t, 0, pv.len());
    eq_fold_exec(&pre, &pv)
}

fn page_num_after_exec(t: &Vec<char>, i: usize) -> (r: bool)
    ensures
        r == page_num_after(t@, i as int),
{
    let a = skip_ws_exec(t, i);
    let d = skip_digits_exec(t, a);
    d > a && d == t.len()
}

/// Exec: placeholder-only classification.
pub fn is_just_page_number(s: &Vec<char>) -> (r: bool)
    ensures
        r == spec_is_placeholder(s@),
{
    let t = trim_exec(s);
    // a bare decimal number
    if t.len() > 0 {
        let mut alldig = true;
        let mut i: usize = 0;
        while i < t.len()
            invariant
                i <= t@.len(),
                alldig == (forall|j: int| 0 <= j < i ==> is_digit_char(t@[j])),
            decreases t.len() - i,
        {
            if !is_digit(t[i]) {
                alldig = false;
            }
            i = i + 1;
        }
        if alldig {
            return true;
        }
    }
    // page / seite / p. followed by a number
    if starts_fold_exec(&t, "page") && page_num_after_exec(&t, 4) {
        return true;
    }
    if starts_fold_exec(&t, "seite") && page_num_after_exec(&t, 5) {
        return true;
    }
    if starts_fold_exec(&t, "p.") && page_num_after_exec(&t, 2) {
        return true;
    }
    // - N -
    if t.len() >= 2 && t[0] == '-' && t[t.len() - 1] == '-' {
        let a = skip_ws_exec(&t, 1);
        let d = skip_digits_exec(&t, a);
        if d > a && d <= t.len() - 1 {
            let e = skip_ws_exec(&t, d);
            if e == t.len() - 1 {
                return true;
            }
        }
    }
    false
}

/// The priority rank of a header part name.
pub open spec fn rank_of(name: Seq<char>) -> u8 {
    if name == "word/header1.xml"@ {
        1
    } else if contains_pat(name, "header1"@) {
        2
    } else if contains_pat(name, "header.xml"@) {
        3
    } else {
        9
    }
}

/// Exec: the priority rank of a header part name.
pub fn rank_of_exec(name: &Vec<char>) -> (r: u8)
    ensures
        r == rank_of(name@),
{
    let canonical = str_to_chars("word/header1.xml");
    if chars_eq(name, &canonical) {
        1
    } else {
        let h1 = str_to_chars("header1");
        if contains_exec(name, &h1) {
            2
        } else {
            let hx = str_to_chars("header.xml");
            if contains_exec(name, &hx) {
                3
            } else {
                9
            }
        }
    }
}

/// A part name that looks like a header part.
pub open spec fn is_header_name(name: Seq<char>) -> bool {
    contains_pat(name, "header"@)
}

/// A part name that looks like a footer part.
pub open spec fn is_footer_name(name: Seq<char>) -> bool {
    contains_pat(name, "footer"@)
}

/// The style read from a header or footer part.
pub open spec fn hf_style_of(xml: Seq<char>) -> HeaderFooterStyleView {
    HeaderFooterStyleView {
        font_family: spec_block_font(xml),
        font_size_half_points: spec_block_size_half(xml),
        font_weight: spec_block_bold(xml),
        color: spec_color(xml),
        alignment: spec_hf_alignment(xml),
    }
}

/// Exec: the style read from a header or footer part.
pub fn extract_header_footer_style(xml: &Vec<char>) -> (r: HeaderFooterStyle)
    ensures
        r@ == hf_style_of(xml@),
{
    let font = extract_font_from_style(xml);
    let color = extract_color(xml);
    HeaderFooterStyle {
        font_family: chars_to_string(&font),
        font_size_half_points: extract_size_from_style(xml),
        font_weight: extract_weight_from_style(xml),
        color: chars_to_string(&color),
        alignment: extract_alignment_from_xml(xml),
    }
}

/// The archive parts as name/text pairs.
pub open spec fn parts_view(v: Seq<(String, Option<String>)>) -> Seq<
    (Seq<char>, Option<Seq<char>>),
> {
    Seq::new(
        v.len(),
        |i: int|
            (
                v[i].0@,
                match v[i].1 {
                    Some(s) => Some(s@),
                    None => None,
                },
            ),
    )
}

/// Header resolution state.
pub ghost struct HeaderState {
    pub has: bool,
    pub done: bool,
    pub content: Seq<char>,
    pub style: Option<HeaderFooterStyleView>,
}

/// One pass over the parts for one rank: the first header part of that
/// rank whose extracted text is non-empty is accepted; a rank-one
/// acceptance ends the whole scan.  Ranks run in ascending passes, so
/// equal ranks resolve first-wins and a stronger rank always comes first.
pub open spec fn header_pass(
    parts: Seq<(Seq<char>, Option<Seq<char>>)>,
    i: int,
    rank: u8,
    st: HeaderState,
) -> HeaderState
    decreases parts.len() - i,
{
    if i < 0 || i >= parts.len() || st.done {
        st
    } else {
        let name = parts[i].0;
        let topt = parts[i].1;
        let st2 = if is_header_name(name) && rank_of(name) == rank {
            match topt {
                Some(xml) => {
                    let content = spec_extract_text(xml);
                    if content.len() > 0 && !st.has {
                        HeaderState {
                            has: true,
                            done: rank == 1,
                            content: content,
                            style: Some(hf_style_of(xml)),
                        }
                    } else {
                        st
                    }
                },
                None => st,
            }
        } else {
            st
        };
        header_pass(parts, i + 1, rank, st2)
    }
}

/// The resolved header: the four rank passes in ascending order.
pub open spec fn resolve_header(parts: Seq<(Seq<char>, Option<Seq<char>>)>) -> HeaderState {
    let st0 = HeaderState { has: false, done: false, content: Seq::empty(), style: None };
    let st1 = header_pass(parts, 0, 1, st0);
    let st2 = header_pass(parts, 0, 2, st1);
    let st3 = header_pass(parts, 0, 3, st2);
    header_pass(parts, 0, 9, st3)
}

/// The resolved footer: the first footer part, in enumeration order, whose
/// extracted text is non-empty and not placeholder-only.
pub open spec fn resolve_footer(parts: Seq<(Seq<char>, Option<Seq<char>>)>, i: int) -> Option<
    (Seq<char>, HeaderFooterStyleView),
>
    decreases parts.len() - i,
{
    if i < 0 || i >= parts.len() {
        None
    } else {
        let name = parts[i].0;
        let topt = parts[i].1;
        let hit = if is_footer_name(name) {
            match topt {
                Some(xml) => {
                    let content = spec_extract_text(xml);
                    if content.len() > 0 && !spec_is_placeholder(content) {
                        Some((content, hf_style_of(xml)))
                    } else {
                        None
                    }
                },
                None => None,
            }
        } else {
            None
        };
        match hit {
            Some(h) => Some(h),
            None => resolve_footer(parts, i + 1),
        }
    }
}

/// Header/footer presence, content and style, resolved from the archive
/// parts.  A reference inside the document body alone never counts:
/// presence demands a part with real extracted text.
pub open spec fn spec_header_footer_info(parts: Seq<(Seq<char>, Option<Seq<char>>)>)
    -> HeaderFooterInfoView {
    let h = resolve_header(parts);
    let f = resolve_footer(parts, 0);
    HeaderFooterInfoView {
        has_header: h.has,
        has_footer: f is Some,
        header_content: h.content,
        footer_content: match f {
            Some((c, _)) => c,
            None => Seq::empty(),
        },
        header_style: h.style,
        footer_style: match f {
            Some((_, s)) => Some(s),
            None => None,
        },
    }
}

/// An accepted footer always carries non-empty extracted text that is not
/// placeholder-only: a footer part holding nothing but a page number never
/// sets the footer flag.
pub proof fn lemma_footer_never_placeholder(
    parts: Seq<(Seq<char>, Option<Seq<char>>)>,
    i: int,
)
    ensures
        match resolve_footer(parts, i) {
            Some(f) => f.0.len() > 0 && !spec_is_placeholder(f.0),
            None => true,
        },
    decreases parts.len() - i,
{
    if i < 0 || i >= parts.len() {
    } else {
        let name = parts[i].0;
        let topt = parts[i].1;
        let hit = if is_footer_name(name) {
            match topt {
                Some(xml) => {
                    let content = spec_extract_text(xml);
                    if content.len() > 0 && !spec_is_placeholder(content) {
                        Some((content, hf_style_of(xml)))
                    } else {
                        None
                    }
                },
                None => None,
            }
        } else {
            None
        };
        if hit is None {
            lemma_footer_never_placeholder(parts, i + 1);
        }
    }
}

/// Part `j` qualifies as a footer: its name looks like a footer part, it
/// reads as text, and its extracted text is non-empty and not
/// placeholder-only.
pub open spec fn footer_accepts(parts: Seq<(Seq<char>, Option<Seq<char>>)>, j: int) -> bool {
    0 <= j < parts.len() && is_footer_name(parts[j].0) && match parts[j].1 {
        Some(xml) => spec_extract_text(xml).len() > 0 && !spec_is_placeholder(
            spec_extract_text(xml),
        ),
        None => false,
    }
}

proof fn lemma_resolve_footer_iff(parts: Seq<(Seq<char>, Option<Seq<char>>)>, i: int)
    requires
        0 <= i,
    ensures
        resolve_footer(parts, i) is Some <==> exists|j: int|
            i <= j && #[trigger] footer_accepts(parts, j),
    decreases parts.len() - i,
{
    if i >= parts.len() {
        assert(resolve_footer(parts, i) is None);
        if exists|j: int| i <= j && #[trigger] footer_accepts(parts, j) {
            let j = choose|j: int| i <= j && #[trigger] footer_accepts(parts, j);
            assert(false);
        }
    } else {
        if footer_accepts(parts, i) {
            assert(resolve_footer(parts, i) is Some);
        } else {
            lemma_resolve_footer_iff(parts, i + 1);
            assert(resolve_footer(parts, i) == resolve_footer(parts, i + 1));
            if resolve_footer(parts, i) is Some {
                let j = choose|j: int| i + 1 <= j && #[trigger] footer_accepts(parts, j);
                assert(i <= j && footer_accepts(parts, j));
            }
            if exists|j: int| i <= j && #[trigger] footer_accepts(parts, j) {
                let j = choose|j: int| i <= j && #[trigger] footer_accepts(parts, j);
                assert(j != i);
                assert(i + 1 <= j && footer_accepts(parts, j));
            }
        }
    }
}

/// The footer flag is set exactly when some footer-like part carries real
/// extracted text: non-empty after trimming and not placeholder-only.  A
/// part holding only a page number, and a reference inside the document
/// body without such a part, never set it.
pub proof fn lemma_has_footer_iff(parts: Seq<(Seq<char>, Option<Seq<char>>)>)
    ensures
        spec_header_footer_info(parts).has_footer <==> exists|j: int|
            #[trigger] footer_accepts(parts, j),
{
    lemma_resolve_footer_iff(parts, 0);
    if exists|j: int| #[trigger] footer_accepts(parts, j) {
        let j = choose|j: int| #[trigger] footer_accepts(parts, j);
        assert(0 <= j && footer_accepts(parts, j));
    }
}

proof fn lemma_header_pass_content(
    parts: Seq<(Seq<char>, Option<Seq<char>>)>,
    i: int,
    rank: u8,
    st: HeaderState,
)
    requires
        st.has ==> st.content.len() > 0,
    ensures
        header_pass(parts, i, rank, st).has ==> header_pass(parts, i, rank, st).content.len() > 0,
        !header_pass(parts, i, rank, st).has ==> header_pass(parts, i, rank, st) == st,
    decreases parts.len() - i,
{
    if i < 0 || i >= parts.len() || st.done {
    } else {
        let name = parts[i].0;
        let topt = parts[i].1;
        let st2 = if is_header_name(name) && rank_of(name) == rank {
            match topt {
                Some(xml) => {
                    let content = spec_extract_text(xml);
                    if content.len() > 0 && !st.has {
                        HeaderState {
                            has: true,
                            done: rank == 1,
                            content: content,
                            style: Some(hf_style_of(xml)),
                        }
                    } else {
                        st
                    }
                },
                None => st,
            }
        } else {
            st
        };
        lemma_header_pass_content(parts, i + 1, rank, st2);
    }
}

/// An accepted header always carries non-empty extracted text, and where
/// no header part yields real text the resolver reports no header at all:
/// a reference inside the document body alone is never evidence.
pub proof fn lemma_header_content_nonempty(parts: Seq<(Seq<char>, Option<Seq<char>>)>)
    ensures
        resolve_header(parts).has ==> resolve_header(parts).content.len() > 0,
        !resolve_header(parts).has ==> resolve_header(parts).content.len() == 0,
{
    let st0 = HeaderState { has: false, done: false, content: Seq::empty(), style: None };
    let st1 = header_pass(parts, 0, 1, st0);
    let st2 = header_pass(parts, 0, 2, st1);
    let st3 = header_pass(parts, 0, 3, st2);
    lemma_header_pass_content(parts, 0, 1, st0);
    lemma_header_pass_content(parts, 0, 2, st1);
    lemma_header_pass_content(parts, 0, 3, st2);
    lemma_header_pass_content(parts, 0, 9, st3);
}

/// Exec header resolution state.
pub struct HeaderResolve {
    pub has: bool,
    pub done: bool,
    pub content: Vec<char>,
    pub style: Option<HeaderFooterStyle>,
}

impl View for HeaderResolve {
    type V = HeaderState;

    open spec fn view(&self) -> HeaderState {
        HeaderState {
            has: self.has,
            done: self.done,
            content: self.content@,
            style: match self.style {
                Some(s) => Some(s@),
                None => None,
            },
        }
    }
}

fn header_pass_exec(parts: &Vec<(String, Option<String>)>, rank: u8, st: HeaderResolve) -> (r:
    HeaderResolve)
    ensures
        r@ == header_pass(parts_view(parts@), 0, rank, st@),
{
    let ghost pv = parts_view(parts@);
    let mut cur = st;
    let mut i: usize = 0;
    loop
        invariant_except_break
            i <= parts@.len(),
            pv == parts_view(parts@),
            pv.len() == parts@.len(),
            header_pass(pv, 0, rank, st@) == header_pass(pv, i as int, rank, cur@),
        ensures
            cur@ == header_pass(pv, 0, rank, st@),
            pv == parts_view(parts@),
        decreases parts@.len() - i,
    {
        if i >= parts.len() {
            assert(header_pass(pv, i as int, rank, cur@) == cur@);
            break;
        }
        if cur.done {
            assert(header_pass(pv, i as int, rank, cur@) == cur@);
            break;
        }
        let name = str_to_chars(parts[i].0.as_str());
        proof {
            assert(pv[i as int].0 == parts@[i as int].0@);
        }
        let hdr = str_to_chars("header");
        let is_hdr = contains_exec(&name, &hdr);
        if is_hdr && rank_of_exec(&name) == rank {
            match &parts[i].1 {
                Some(xml_str) => {
                    let xml = str_to_chars(xml_str.as_str());
                    proof {
                        assert(pv[i as int].1 == Some(parts@[i as int].1->0@));
                    }
                    let content = extract_text_from_xml(&xml);
                    if content.len() > 0 && !cur.has {
                        let style = extract_header_footer_style(&xml);
                        cur = HeaderResolve {
                            has: true,
                            done: rank == 1,
                            content: content,
                            style: Some(style),
                        };
                    }
                },
                None => {
                    proof {
                        assert(pv[i as int].1 is None);
                    }
                },
            }
        }
        i = i + 1;
    }
    cur
}

/// Exec: resolve header and footer from the archive parts.
pub fn extract_header_footer_info(parts: &Vec<(String, Option<String>)>) -> (r: HeaderFooterInfo)
    ensures
        r@ == spec_header_footer_info(parts_view(parts@)),
{
    let ghost pv = parts_view(parts@);
    let st0 = HeaderResolve { has: false, done: false, content: Vec::new(), style: None };
    proof {
        assert(st0@ == (HeaderState {
            has: false,
            done: false,
            content: Seq::<char>::empty(),
            style: None,
        }));
        assert(st0@.content =~= Seq::<char>::empty());
    }
    let st1 = header_pass_exec(parts, 1, st0);
    let st2 = header_pass_exec(parts, 2, st1);
    let st3 = header_pass_exec(parts, 3, st2);
    let st9 = header_pass_exec(parts, 9, st3);
    // footer: first acceptable candidate in enumeration order
    let mut footer: Option<(Vec<char>, HeaderFooterStyle)> = None;
    let mut i: usize = 0;
    loop
        invariant_except_break
            i <= parts@.len(),
            pv == parts_view(parts@),
            pv.len() == parts@.len(),
            footer is None,
            resolve_footer(pv, 0) == resolve_footer(pv, i as int),
        ensures
            pv == parts_view(parts@),
            match footer {
                Some((c, s)) => resolve_footer(pv, 0) == Some((c@, s@)),
                None => resolve_footer(pv, 0) is None,
            },
        decreases parts@.len() - i,
    {
        if i >= parts.len() {
            assert(resolve_footer(pv, i as int) is None);
            break;
        }
        let name = str_to_chars(parts[i].0.as_str());
        proof {
            assert(pv[i as int].0 == parts@[i as int].0@);
        }
        let ftr = str_to_chars("footer");
        if contains_exec(&name, &ftr) {
            match &parts[i].1 {
                Some(xml_str) => {
                    let xml = str_to_chars(xml_str.as_str());
                    proof {
                        assert(pv[i as int].1 == Some(parts@[i as int].1->0@));
                    }
                    let content = extract_text_from_xml(&xml);
                    if content.len() > 0 && !is_just_page_number(&content) {
                        let style = extract_header_footer_style(&xml);
                        footer = Some((content, style));
                        assert(resolve_footer(pv, i as int) == Some(
                            (spec_extract_text(parts@[i as int].1->0@), hf_style_of(
                                parts@[i as int].1->0@,
                            )),
                        ));
                        break;
                    }
                },
                None => {
                    proof {
                        assert(pv[i as int].1 is None);
                    }
                },
            }
        }
        i = i + 1;
    }
    let (has_footer, footer_content, footer_style) = match footer {
        Some((c, s)) => (true, c, Some(s)),
        None => (false, Vec::new(), None),
    };
    proof {
        if footer_content@.len() == 0 {
        }
    }
    let r = HeaderFooterInfo {
        has_header: st9.has,
        has_footer: has_footer,
        header_content: chars_to_string(&st9.content),
        footer_content: chars_to_string(&footer_content),
        header_style: st9.style,
        footer_style: footer_style,
    };
    proof {
        assert(r@.header_content == resolve_header(pv).content);
        match resolve_footer(pv, 0) {
            Some((c, s)) => {},
            None => {
                assert(r@.footer_content =~= Seq::<char>::empty());
            },
        }
    }
    r
}

} // verus!
