//! The heading style resolver.
//!
//! Phase one looks in the style-definitions part for a style block carrying
//! one of a fixed set of known heading-style identifiers (levels one to
//! six, `Title`, `Subtitle`, and the locale spellings of the same levels).
//! Phase two, entered only when phase one yields nothing, scans the
//! document body for a paragraph whose style reference names one of the
//! same identifiers.  The first candidate per level wins and the result is
//! sorted ascending by level.

use vstd::prelude::*;
use crate::scan::{
    scan_elem_lit, scan_elem_lit_exec, tag_limit, tag_limit_exec, first_match_from, find_from,
    lemma_first_match_some, lemma_scan_elem_lit_ok,
};
use crate::extract::{
    spec_block_font, spec_block_size_half, spec_block_bold, extract_font_from_style,
    extract_size_from_style, extract_weight_from_style,
};
use crate::record::{HeadingStyle, HeadingStyleView};
use crate::text::{str_to_chars, subvec, chars_to_string};

verus! {

/// The views of a sequence's elements.
pub open spec fn seq_views<T: View>(s: Seq<T>) -> Seq<T::V> {
    Seq::new(s.len(), |i: int| s[i]@)
}

/// A style block in `t`: the first occurrence of `elem` carrying `lit` in
/// its attribute region, extended to the end of the first `close` after
/// the tag.  The result is the block's character range.
pub open spec fn find_block(
    t: Seq<char>,
    elem: Seq<char>,
    lit: Seq<char>,
    close: Seq<char>,
) -> Option<(int, int)> {
    match scan_elem_lit(t, elem, lit, 0) {
        None => None,
        Some(i) => {
            let limit = tag_limit(t, i + elem.len());
            if limit == t.len() {
                None
            } else {
                match first_match_from(t, close, limit + 1) {
                    Some(c) => Some((i, c + close.len())),
                    None => None,
                }
            }
        },
    }
}

/// Exec: locate a style block.
pub fn find_block_exec(t: &Vec<char>, elem: &str, lit: &str, close: &str) -> (r: Option<
    (usize, usize),
>)
    ensures
        match r {
            Some((s, e)) => find_block(t@, elem@, lit@, close@) == Some((s as int, e as int)) && s
                <= e <= t@.len(),
            None => find_block(t@, elem@, lit@, close@) is None,
        },
{
    let ev = str_to_chars(elem);
    let lv = str_to_chars(lit);
    let cv = str_to_chars(close);
    match scan_elem_lit_exec(t, &ev, &lv, 0) {
        None => None,
        Some(i) => {
            let tl = t.len();
            proof {
                crate::scan::lemma_scan_elem_lit_ok(t@, elem@, lit@, 0, i as int);
            }
            let limit = tag_limit_exec(t, i + ev.len());
            if limit == t.len() {
                None
            } else {
                match find_from(t, &cv, limit + 1) {
                    Some(c) => {
                        proof {
                            lemma_first_match_some(t@, close@, limit + 1, c as int);
                        }
                        Some((i, c + cv.len()))
                    },
                    None => None,
                }
            }
        },
    }
}

/// The heading candidate read from one block: font and size scoped to the
/// block, bold from a bold marker, black colour, and the fixed
/// twelve-before / six-after point spacing.
pub open spec fn heading_from_block(b: Seq<char>, level: u8) -> HeadingStyleView {
    HeadingStyleView {
        level: level,
        font_family: spec_block_font(b),
        font_size_half_points: spec_block_size_half(b),
        font_weight: spec_block_bold(b),
        color: "#000000"@,
        spacing_before_points: 12,
        spacing_after_points: 6,
    }
}

/// Exec: build the heading candidate for one block.
fn heading_from_block_exec(b: &Vec<char>, level: u8) -> (r: HeadingStyle)
    ensures
        r@ == heading_from_block(b@, level),
{
    let font = extract_font_from_style(b);
    HeadingStyle {
        level: level,
        font_family: chars_to_string(&font),
        font_size_half_points: extract_size_from_style(b),
        font_weight: extract_weight_from_style(b),
        color: String::from_str("#000000"),
        spacing_before_points: 12,
        spacing_after_points: 6,
    }
}

/// The known heading-style identifiers of the style-definitions phase,
/// with their levels.
pub open spec fn spec_style_ids() -> Seq<(Seq<char>, u8)> {
    seq![
        ("w:styleId=\"Heading1\""@, 1u8),
        ("w:styleId=\"Heading2\""@, 2u8),
        ("w:styleId=\"Heading3\""@, 3u8),
        ("w:styleId=\"Heading4\""@, 4u8),
        ("w:styleId=\"Heading5\""@, 5u8),
        ("w:styleId=\"Heading6\""@, 6u8),
        ("w:styleId=\"berschrift1\""@, 1u8),
        ("w:styleId=\"berschrift2\""@, 2u8),
        ("w:styleId=\"berschrift3\""@, 3u8),
        ("w:styleId=\"berschrift4\""@, 4u8),
        ("w:styleId=\"berschrift5\""@, 5u8),
        ("w:styleId=\"berschrift6\""@, 6u8),
        ("w:styleId=\"Title\""@, 1u8),
        ("w:styleId=\"Subtitle\""@, 2u8),
    ]
}

/// The same identifiers as paragraph style references, for the
/// paragraph-scan phase.
pub open spec fn spec_para_ids() -> Seq<(Seq<char>, u8)> {
    seq![
        ("w:val=\"Heading1\""@, 1u8),
        ("w:val=\"Heading2\""@, 2u8),
        ("w:val=\"Heading3\""@, 3u8),
        ("w:val=\"Heading4\""@, 4u8),
        ("w:val=\"Heading5\""@, 5u8),
        ("w:val=\"Heading6\""@, 6u8),
        ("w:val=\"berschrift1\""@, 1u8),
        ("w:val=\"berschrift2\""@, 2u8),
        ("w:val=\"berschrift3\""@, 3u8),
        ("w:val=\"berschrift4\""@, 4u8),
        ("w:val=\"berschrift5\""@, 5u8),
        ("w:val=\"berschrift6\""@, 6u8),
        ("w:val=\"Title\""@, 1u8),
        ("w:val=\"Subtitle\""@, 2u8),
    ]
}

fn style_id_at(i: usize) -> (r: (&'static str, u8))
    requires
        i < 14,
    ensures
        r.0@ == spec_style_ids()[i as int].0,
        r.1 == spec_style_ids()[i as int].1,
{
    if i == 0 {
        ("w:styleId=\"Heading1\"", 1)
    } else if i == 1 {
        ("w:styleId=\"Heading2\"", 2)
    } else if i == 2 {
        ("w:styleId=\"Heading3\"", 3)
    } else if i == 3 {
        ("w:styleId=\"Heading4\"", 4)
    } else if i == 4 {
        ("w:styleId=\"Heading5\"", 5)
    } else if i == 5 {
        ("w:styleId=\"Heading6\"", 6)
    } else if i == 6 {
        ("w:styleId=\"berschrift1\"", 1)
    } else if i == 7 {
        ("w:styleId=\"berschrift2\"", 2)
    } else if i == 8 {
        ("w:styleId=\"berschrift3\"", 3)
    } else if i == 9 {
        ("w:styleId=\"berschrift4\"", 4)
    } else if i == 10 {
        ("w:styleId=\"berschrift5\"", 5)
    } else if i == 11 {
        ("w:styleId=\"berschrift6\"", 6)
    } else if i == 12 {
        ("w:styleId=\"Title\"", 1)
    } else {
        ("w:styleId=\"Subtitle\"", 2)
    }
}

fn para_id_at(i: usize) -> (r: (&'static str, u8))
    requires
        i < 14,
    ensures
        r.0@ == spec_para_ids()[i as int].0,
        r.1 == spec_para_ids()[i as int].1,
{
    if i == 0 {
        ("w:val=\"Heading1\"", 1)
    } else if i == 1 {
        ("w:val=\"Heading2\"", 2)
    } else if i == 2 {
        ("w:val=\"Heading3\"", 3)
    } else if i == 3 {
        ("w:val=\"Heading4\"", 4)
    } else if i == 4 {
        ("w:val=\"Heading5\"", 5)
    } else if i == 5 {
        ("w:val=\"Heading6\"", 6)
    } else if i == 6 {
        ("w:val=\"berschrift1\"", 1)
    } else if i == 7 {
        ("w:val=\"berschrift2\"", 2)
    } else if i == 8 {
        ("w:val=\"berschrift3\"", 3)
    } else if i == 9 {
        ("w:val=\"berschrift4\"", 4)
    } else if i == 10 {
        ("w:val=\"berschrift5\"", 5)
    } else if i == 11 {
        ("w:val=\"berschrift6\"", 6)
    } else if i == 12 {
        ("w:val=\"Title\"", 1)
    } else {
        ("w:val=\"Subtitle\"", 2)
    }
}

/// Phase-one candidates from identifier `idx` on, in identifier order.
pub open spec fn phase1_from(sty: Seq<char>, idx: int) -> Seq<HeadingStyleView>
    decreases 14 - idx,
{
    if idx < 0 || idx >= 14 {
        Seq::empty()
    } else {
        let lit = spec_style_ids()[idx].0;
        let lvl = spec_style_ids()[idx].1;
        let rest = phase1_from(sty, idx + 1);
        match find_block(sty, "<w:style"@, lit, "</w:style>"@) {
            Some((s, e)) => if 0 <= s <= e <= sty.len() {
                seq![heading_from_block(sty.subrange(s, e), lvl)] + rest
            } else {
                rest
            },
            None => rest,
        }
    }
}

/// Phase-two candidates from identifier `idx` on, in identifier order.
pub open spec fn phase2_from(doc: Seq<char>, idx: int) -> Seq<HeadingStyleView>
    decreases 14 - idx,
{
    if idx < 0 || idx >= 14 {
        Seq::empty()
    } else {
        let lit = spec_para_ids()[idx].0;
        let lvl = spec_para_ids()[idx].1;
        let rest = phase2_from(doc, idx + 1);
        match find_block(doc, "<w:pStyle"@, lit, "</w:p>"@) {
            Some((s, e)) => if 0 <= s <= e <= doc.len() {
                seq![heading_from_block(doc.subrange(s, e), lvl)] + rest
            } else {
                rest
            },
            None => rest,
        }
    }
}

/// All heading candidates: phase one when the style-definitions part is
/// non-empty; phase two only when phase one produced nothing.
pub open spec fn spec_heading_candidates(doc: Seq<char>, sty: Seq<char>) -> Seq<HeadingStyleView> {
    let p1 = if sty.len() > 0 {
        phase1_from(sty, 0)
    } else {
        Seq::empty()
    };
    if p1.len() == 0 {
        phase2_from(doc, 0)
    } else {
        p1
    }
}

/// First candidate with the given level, at or after index `k`.
pub open spec fn first_with_level(cs: Seq<HeadingStyleView>, lvl: u8, k: int) -> Option<
    HeadingStyleView,
>
    decreases cs.len() - k,
{
    if k < 0 || k >= cs.len() {
        None
    } else if cs[k].level == lvl {
        Some(cs[k])
    } else {
        first_with_level(cs, lvl, k + 1)
    }
}

/// The resolved headings for levels `lvl` to six: one entry per level that
/// has a candidate, ascending.
pub open spec fn levels_from(cs: Seq<HeadingStyleView>, lvl: u8) -> Seq<HeadingStyleView>
    decreases 7 - lvl,
{
    if lvl < 1 || lvl > 6 {
        Seq::empty()
    } else {
        let rest = levels_from(cs, (lvl + 1) as u8);
        match first_with_level(cs, lvl, 0) {
            Some(c) => seq![c] + rest,
            None => rest,
        }
    }
}

/// The document's heading styles: deduplicated (first candidate per level)
/// and sorted ascending by level.
pub open spec fn spec_heading_styles(doc: Seq<char>, sty: Seq<char>) -> Seq<HeadingStyleView> {
    levels_from(spec_heading_candidates(doc, sty), 1)
}

/// A found candidate carries the level it was picked for.
proof fn lemma_first_with_level_is_level(cs: Seq<HeadingStyleView>, lvl: u8, k: int)
    requires
        first_with_level(cs, lvl, k) is Some,
    ensures
        first_with_level(cs, lvl, k)->0.level == lvl,
    decreases cs.len() - k,
{
    if k < 0 || k >= cs.len() {
    } else if cs[k].level == lvl {
    } else {
        lemma_first_with_level_is_level(cs, lvl, k + 1);
    }
}

proof fn lemma_levels_from_sorted(cs: Seq<HeadingStyleView>, lvl: u8)
    ensures
        forall|i: int, j: int|
            0 <= i < j < levels_from(cs, lvl).len() ==> #[trigger] levels_from(cs, lvl)[i].level
                < #[trigger] levels_from(cs, lvl)[j].level,
        forall|i: int|
            0 <= i < levels_from(cs, lvl).len() ==> lvl <= #[trigger] levels_from(cs, lvl)[i].level
                <= 6,
    decreases 7 - lvl,
{
    if lvl < 1 || lvl > 6 {
    } else {
        lemma_levels_from_sorted(cs, (lvl + 1) as u8);
        let rest = levels_from(cs, (lvl + 1) as u8);
        match first_with_level(cs, lvl, 0) {
            Some(c) => {
                lemma_first_with_level_is_level(cs, lvl, 0);
                assert(levels_from(cs, lvl) =~= seq![c] + rest);
            },
            None => {},
        }
    }
}

/// The resolved heading list never repeats a level and is sorted strictly
/// ascending by level, with every level between one and six.
pub proof fn lemma_heading_styles_sorted(doc: Seq<char>, sty: Seq<char>)
    ensures
        forall|i: int, j: int|
            0 <= i < j < spec_heading_styles(doc, sty).len() ==> #[trigger] spec_heading_styles(
                doc,
                sty,
            )[i].level < #[trigger] spec_heading_styles(doc, sty)[j].level,
        forall|i: int|
            0 <= i < spec_heading_styles(doc, sty).len() ==> 1 <= #[trigger] spec_heading_styles(
                doc,
                sty,
            )[i].level <= 6,
{
    lemma_levels_from_sorted(spec_heading_candidates(doc, sty), 1);
}

fn copy_heading(h: &HeadingStyle) -> (r: HeadingStyle)
    ensures
        r@ == h@,
{
    HeadingStyle {
        level: h.level,
        font_family: h.font_family.clone(),
        font_size_half_points: h.font_size_half_points,
        font_weight: h.font_weight,
        color: h.color.clone(),
        spacing_before_points: h.spacing_before_points,
        spacing_after_points: h.spacing_after_points,
    }
}

/// Exec: resolve the document's heading styles.
pub fn extract_heading_styles(doc: &Vec<char>, sty: &Vec<char>) -> (r: Vec<HeadingStyle>)
    ensures
        seq_views(r@) == spec_heading_styles(doc@, sty@),
        forall|i: int, j: int|
            0 <= i < j < r@.len() ==> #[trigger] r@[i].level < #[trigger] r@[j].level,
        forall|i: int| 0 <= i < r@.len() ==> 1 <= #[trigger] r@[i].level <= 6,
{
    let mut cands: Vec<HeadingStyle> = Vec::new();
    if sty.len() > 0 {
        let mut idx: usize = 0;
        while idx < 14
            invariant
                idx <= 14,
                phase1_from(sty@, 0) =~= seq_views(cands@) + phase1_from(sty@, idx as int),
            decreases 14 - idx,
        {
            let (lit, lvl) = style_id_at(idx);
            match find_block_exec(sty, "<w:style", lit, "</w:style>") {
                Some((s, e)) => {
                    let block = subvec(sty, s, e);
                    let cand = heading_from_block_exec(&block, lvl);
                    let ghost old_views = seq_views(cands@);
                    cands.push(cand);
                    proof {
                        assert(seq_views(cands@) =~= old_views + seq![
                            heading_from_block(sty@.subrange(s as int, e as int), lvl),
                        ]);
                        assert(phase1_from(sty@, idx as int) =~= seq![
                            heading_from_block(sty@.subrange(s as int, e as int), lvl),
                        ] + phase1_from(sty@, idx + 1));
                        assert(phase1_from(sty@, 0) =~= seq_views(cands@) + phase1_from(
                            sty@,
                            idx + 1,
                        ));
                    }
                },
                None => {
                    proof {
                        assert(phase1_from(sty@, idx as int) =~= phase1_from(sty@, idx + 1));
                    }
                },
            }
            idx = idx + 1;
        }
        assert(phase1_from(sty@, 14) =~= Seq::<HeadingStyleView>::empty());
        assert(phase1_from(sty@, 0) =~= seq_views(cands@));
    }
    if cands.len() == 0 {
        proof {
            assert(seq_views(cands@) =~= Seq::<HeadingStyleView>::empty());
        }
        let mut idx: usize = 0;
        while idx < 14
            invariant
                idx <= 14,
                phase2_from(doc@, 0) =~= seq_views(cands@) + phase2_from(doc@, idx as int),
            decreases 14 - idx,
        {
            let (lit, lvl) = para_id_at(idx);
            match find_block_exec(doc, "<w:pStyle", lit, "</w:p>") {
                Some((s, e)) => {
                    let block = subvec(doc, s, e);
                    let cand = heading_from_block_exec(&block, lvl);
                    let ghost old_views = seq_views(cands@);
                    cands.push(cand);
                    proof {
                        assert(seq_views(cands@) =~= old_views + seq![
                            heading_from_block(doc@.subrange(s as int, e as int), lvl),
                        ]);
                        assert(phase2_from(doc@, idx as int) =~= seq![
                            heading_from_block(doc@.subrange(s as int, e as int), lvl),
                        ] + phase2_from(doc@, idx + 1));
                        assert(phase2_from(doc@, 0) =~= seq_views(cands@) + phase2_from(
                            doc@,
                            idx + 1,
                        ));
                    }
                },
                None => {
                    proof {
                        assert(phase2_from(doc@, idx as int) =~= phase2_from(doc@, idx + 1));
                    }
                },
            }
            idx = idx + 1;
        }
        assert(phase2_from(doc@, 14) =~= Seq::<HeadingStyleView>::empty());
        assert(phase2_from(doc@, 0) =~= seq_views(cands@));
    }
    let ghost cs = seq_views(cands@);
    proof {
        assert(cs =~= spec_heading_candidates(doc@, sty@));
    }
    let mut out: Vec<HeadingStyle> = Vec::new();
    let mut lvl: u8 = 1;
    while lvl <= 6
        invariant
            1 <= lvl <= 7,
            cs == seq_views(cands@),
            levels_from(cs, 1) =~= seq_views(out@) + levels_from(cs, lvl),
        decreases 7 - lvl,
    {
        let mut k: usize = 0;
        let mut picked: Option<usize> = None;
        while k < cands.len()
            invariant_except_break
                k <= cands@.len(),
                cs == seq_views(cands@),
                cs.len() == cands@.len(),
                picked is None,
                first_with_level(cs, lvl, 0) == first_with_level(cs, lvl, k as int),
            ensures
                cs == seq_views(cands@),
                cs.len() == cands@.len(),
                match picked {
                    Some(p) => p < cands@.len() && cands@[p as int]@.level == lvl
                        && first_with_level(cs, lvl, 0) == Some(cands@[p as int]@),
                    None => first_with_level(cs, lvl, 0) is None,
                },
            decreases cands.len() - k,
        {
            if cands[k].level == lvl {
                picked = Some(k);
                proof {
                    assert(cs[k as int] == cands@[k as int]@);
                    assert(first_with_level(cs, lvl, k as int) == Some(cands@[k as int]@));
                }
                break;
            }
            proof {
                assert(cs[k as int] == cands@[k as int]@);
                assert(first_with_level(cs, lvl, k as int) == first_with_level(cs, lvl, k + 1));
            }
            k = k + 1;
        }
        let ghost old_views = seq_views(out@);
        match picked {
            Some(p) => {
                let c = copy_heading(&cands[p]);
                out.push(c);
                proof {
                    assert(seq_views(out@) =~= old_views + seq![cands@[p as int]@]);
                    assert(levels_from(cs, lvl as u8) =~= seq![cands@[p as int]@] + levels_from(
                        cs,
                        (lvl + 1) as u8,
                    ));
                    assert(levels_from(cs, 1) =~= seq_views(out@) + levels_from(
                        cs,
                        (lvl + 1) as u8,
                    ));
                }
            },
            None => {
                proof {
                    assert(levels_from(cs, lvl as u8) =~= levels_from(cs, (lvl + 1) as u8));
                }
            },
        }
        lvl = lvl + 1;
    }
    proof {
        assert(levels_from(cs, 7) =~= Seq::<HeadingStyleView>::empty());
        assert(seq_views(out@) =~= levels_from(cs, 1));
        lemma_levels_from_sorted(cs, 1);
        assert forall|i: int| 0 <= i < out@.len() implies 1 <= #[trigger] out@[i].level <= 6 by {
            assert(seq_views(out@)[i] == out@[i]@);
            assert(1 <= levels_from(cs, 1)[i].level <= 6);
        }
        assert forall|i: int, j: int|
            0 <= i < j < out@.len() implies #[trigger] out@[i].level
                < #[trigger] out@[j].level by {
            assert(seq_views(out@)[i] == out@[i]@);
            assert(seq_views(out@)[j] == out@[j]@);
            assert(levels_from(cs, 1)[i].level < levels_from(cs, 1)[j].level);
        }
    }
    out
}

} // verus!
