//! The attribute-aware pattern scanner.
//!
//! Every style property is recovered by scanning raw XML text for structural
//! patterns.  The shapes supported here:
//!
//! * `first_match_from` - leftmost occurrence of a literal pattern;
//! * `scan_attr` - an element open tag (e.g. `<w:rFonts`) whose attribute
//!   region (up to the next `>`) carries a named attribute (e.g.
//!   `w:ascii="`), yielding the quoted value;
//! * `scan_bare` - a bare attribute anywhere in the text, yielding the
//!   quoted value;
//! * `scan_elem_lit` - an element open tag whose attribute region contains
//!   a given literal (e.g. `w:val="center"`);
//! * `next_text_run` - the next `<w:t ...>text</w:t>` text run.
//!
//! A candidate that fails (missing closing quote, empty or non-numeric value
//! where one is required) does not abort the scan: the scanner moves on just
//! past the candidate's start, as the cascade semantics demand.

use vstd::prelude::*;
use crate::text::{all_digits, trim, is_digit_char};

verus! {

/// Pattern `p` occurs in `t` at position `i`.
pub open spec fn match_at(t: Seq<char>, p: Seq<char>, i: int) -> bool {
    0 <= i && i + p.len() <= t.len() && t.subrange(i, i + p.len()) == p
}

/// Leftmost occurrence of `p` in `t` at or after `from`.
pub open spec fn first_match_from(t: Seq<char>, p: Seq<char>, from: int) -> Option<int>
    decreases t.len() - from,
{
    if from < 0 || from + p.len() > t.len() {
        None
    } else if match_at(t, p, from) {
        Some(from)
    } else if from < t.len() {
        first_match_from(t, p, from + 1)
    } else {
        None
    }
}

pub proof fn lemma_first_match_some(t: Seq<char>, p: Seq<char>, from: int, i: int)
    requires
        first_match_from(t, p, from) == Some(i),
    ensures
        from <= i,
        match_at(t, p, i),
        forall|j: int| from <= j < i ==> !match_at(t, p, j),
    decreases t.len() - from,
{
    if from < 0 || from + p.len() > t.len() {
    } else if match_at(t, p, from) {
    } else if from < t.len() {
        lemma_first_match_some(t, p, from + 1, i);
    }
}

/// Exec: does `p` occur at `i`?
pub fn match_at_exec(t: &Vec<char>, p: &Vec<char>, i: usize) -> (r: bool)
    requires
        i + p@.len() <= t@.len(),
    ensures
        r == match_at(t@, p@, i as int),
{
    let tl = t.len();
    let mut j: usize = 0;
    while j < p.len()
        invariant
            j <= p@.len(),
            i + p@.len() <= t@.len(),
            tl == t@.len(),
            forall|k: int| 0 <= k < j ==> t@[i + k] == p@[k],
        decreases p.len() - j,
    {
        if t[i + j] != p[j] {
            proof {
                let sub = t@.subrange(i as int, i + p@.len());
                assert(sub[j as int] == t@[i + j]);
            }
            return false;
        }
        j = j + 1;
    }
    proof {
        assert(t@.subrange(i as int, i + p@.len()) =~= p@);
    }
    true
}

/// `Option<usize>` seen as `Option<int>`, for stating results against specs.
pub open spec fn opt_int(o: Option<usize>) -> Option<int> {
    match o {
        Some(u) => Some(u as int),
        None => None,
    }
}

/// Exec: leftmost occurrence of `p` in `t` at or after `from`.
pub fn find_from(t: &Vec<char>, p: &Vec<char>, from: usize) -> (r: Option<usize>)
    ensures
        opt_int(r) == first_match_from(t@, p@, from as int),
{
    let tl = t.len();
    if from > tl {
        assert(first_match_from(t@, p@, from as int) is None);
        return None;
    }
    let mut i: usize = from;
    loop
        invariant
            from <= i <= t@.len() + 1,
            tl == t@.len(),
            first_match_from(t@, p@, from as int) == first_match_from(t@, p@, i as int),
        decreases t@.len() + 1 - i,
    {
        if p.len() > tl || i > tl - p.len() {
            assert(first_match_from(t@, p@, i as int) is None);
            return None;
        }
        if match_at_exec(t, p, i) {
            return Some(i);
        }
        proof {
            if p@.len() == 0 {
                assert(t@.subrange(i as int, i as int) =~= p@);
                assert(false);
            }
            assert(first_match_from(t@, p@, i as int) == first_match_from(t@, p@, i + 1));
        }
        i = i + 1;
    }
}

/// `p` occurs somewhere in `t`.
pub open spec fn contains_pat(t: Seq<char>, p: Seq<char>) -> bool {
    first_match_from(t, p, 0) is Some
}

/// Exec: does `p` occur in `t`?
pub fn contains_exec(t: &Vec<char>, p: &Vec<char>) -> (r: bool)
    ensures
        r == contains_pat(t@, p@),
{
    find_from(t, p, 0).is_some()
}

/// A vector holding one character.
pub fn one_char_vec(c: char) -> (r: Vec<char>)
    ensures
        r@ =~= seq![c],
{
    let mut v: Vec<char> = Vec::new();
    v.push(c);
    v
}

/// End of an open tag's attribute region that starts at `rs`: the position
/// of the next `>`, or the end of the text if none follows.
pub open spec fn tag_limit(t: Seq<char>, rs: int) -> int {
    match first_match_from(t, seq!['>'], rs) {
        Some(g) => g,
        None => t.len() as int,
    }
}

/// Exec: end of the attribute region that starts at `rs`.
pub fn tag_limit_exec(t: &Vec<char>, rs: usize) -> (r: usize)
    ensures
        r as int == tag_limit(t@, rs as int),
        r <= t@.len(),
        rs <= t@.len() ==> rs <= r,
{
    let gt = one_char_vec('>');
    match find_from(t, &gt, rs) {
        Some(g) => {
            proof {
                lemma_first_match_some(t@, seq!['>'], rs as int, g as int);
            }
            g
        },
        None => t.len(),
    }
}

/// Does a quoted value satisfy the scan's demands?  A value must be
/// non-empty unless `allow_empty`; a numeric value must be one to nine
/// decimal digits.
pub open spec fn value_ok(v: Seq<char>, allow_empty: bool, numeric: bool) -> bool {
    if numeric {
        1 <= v.len() <= 9 && all_digits(v)
    } else {
        allow_empty || v.len() > 0
    }
}

/// Exec: check a value range of `t` against the scan's demands.
fn value_ok_exec(t: &Vec<char>, vs: usize, q: usize, allow_empty: bool, numeric: bool) -> (r: bool)
    requires
        vs <= q <= t@.len(),
    ensures
        r == value_ok(t@.subrange(vs as int, q as int), allow_empty, numeric),
{
    let ghost v = t@.subrange(vs as int, q as int);
    if numeric {
        let n = q - vs;
        if 1 <= n && n <= 9 {
            let mut alldig = true;
            let mut k: usize = vs;
            while k < q
                invariant
                    vs <= k <= q <= t@.len(),
                    alldig == (forall|m: int| vs <= m < k ==> is_digit_char(t@[m])),
                decreases q - k,
            {
                if !crate::text::is_digit(t[k]) {
                    alldig = false;
                }
                k = k + 1;
            }
            proof {
                if alldig {
                    assert forall|m: int| 0 <= m < v.len() implies is_digit_char(v[m]) by {
                        assert(v[m] == t@[vs + m]);
                    }
                    assert(all_digits(v));
                } else {
                    let m = choose|m: int| vs <= m < q && !is_digit_char(t@[m]);
                    assert(v[m - vs] == t@[m]);
                    assert(!all_digits(v));
                }
            }
            alldig
        } else {
            false
        }
    } else {
        allow_empty || q > vs
    }
}

/// The quoted value of `attr` inside the attribute region starting at `rs`,
/// if the attribute sits before the region's closing `>` and its value,
/// ending at the next `"`, satisfies the demands.
pub open spec fn attr_value_in_region(
    t: Seq<char>,
    attr: Seq<char>,
    rs: int,
    allow_empty: bool,
    numeric: bool,
) -> Option<(int, int)> {
    let limit = tag_limit(t, rs);
    match first_match_from(t, attr, rs) {
        Some(a) => if a < limit {
            let vs = a + attr.len();
            match first_match_from(t, seq!['"'], vs) {
                Some(q) => if value_ok(t.subrange(vs, q), allow_empty, numeric) {
                    Some((vs, q))
                } else {
                    None
                },
                None => None,
            }
        } else {
            None
        },
        None => None,
    }
}

/// Exec helper: the value range for `attr` in the region starting at `rs`.
fn attr_value_in_region_exec(
    t: &Vec<char>,
    attr: &Vec<char>,
    rs: usize,
    allow_empty: bool,
    numeric: bool,
) -> (r: Option<(usize, usize)>)
    ensures
        match r {
            Some((vs, q)) => {
                &&& attr_value_in_region(t@, attr@, rs as int, allow_empty, numeric) == Some(
                    (vs as int, q as int),
                )
                &&& vs <= q <= t@.len()
            },
            None => attr_value_in_region(t@, attr@, rs as int, allow_empty, numeric) is None,
        },
{
    let tl = t.len();
    let limit = tag_limit_exec(t, rs);
    let quote = one_char_vec('"');
    match find_from(t, attr, rs) {
        Some(a) => {
            if a < limit {
                proof {
                    lemma_first_match_some(t@, attr@, rs as int, a as int);
                }
                let vs = a + attr.len();
                match find_from(t, &quote, vs) {
                    Some(q) => {
                        proof {
                            lemma_first_match_some(t@, seq!['"'], vs as int, q as int);
                        }
                        if value_ok_exec(t, vs, q, allow_empty, numeric) {
                            Some((vs, q))
                        } else {
                            None
                        }
                    },
                    None => None,
                }
            } else {
                None
            }
        },
        None => None,
    }
}

/// First occurrence of element `elem` whose attribute region yields a value
/// for `attr`; result is `(element position, value start, value end)`.
pub open spec fn scan_attr(
    t: Seq<char>,
    elem: Seq<char>,
    attr: Seq<char>,
    allow_empty: bool,
    numeric: bool,
    from: int,
) -> Option<(int, int, int)>
    decreases t.len() - from,
{
    match first_match_from(t, elem, from) {
        None => None,
        Some(i) => {
            match attr_value_in_region(t, attr, i + elem.len(), allow_empty, numeric) {
                Some((vs, q)) => Some((i, vs, q)),
                None => if from <= i && i + 1 <= t.len() {
                    scan_attr(t, elem, attr, allow_empty, numeric, i + 1)
                } else {
                    None
                },
            }
        },
    }
}

/// Exec: first element occurrence with an acceptable attribute value.
pub fn scan_attr_exec(
    t: &Vec<char>,
    elem: &Vec<char>,
    attr: &Vec<char>,
    allow_empty: bool,
    numeric: bool,
    from: usize,
) -> (r: Option<(usize, usize, usize)>)
    ensures
        match r {
            Some((i, vs, q)) => {
                &&& scan_attr(t@, elem@, attr@, allow_empty, numeric, from as int) == Some(
                    (i as int, vs as int, q as int),
                )
                &&& from <= i
                &&& vs <= q <= t@.len()
            },
            None => scan_attr(t@, elem@, attr@, allow_empty, numeric, from as int) is None,
        },
{
    let tl = t.len();
    if from > tl {
        assert(first_match_from(t@, elem@, from as int) is None);
        return None;
    }
    let mut pos: usize = from;
    loop
        invariant
            from <= pos <= t@.len(),
            tl == t@.len(),
            scan_attr(t@, elem@, attr@, allow_empty, numeric, from as int) == scan_attr(
                t@,
                elem@,
                attr@,
                allow_empty,
                numeric,
                pos as int,
            ),
        decreases t@.len() - pos,
    {
        match find_from(t, elem, pos) {
            None => {
                return None;
            },
            Some(i) => {
                proof {
                    lemma_first_match_some(t@, elem@, pos as int, i as int);
                }
                match attr_value_in_region_exec(t, attr, i + elem.len(), allow_empty, numeric) {
                    Some((vs, q)) => {
                        return Some((i, vs, q));
                    },
                    None => {
                        if i >= tl {
                            return None;
                        }
                        pos = i + 1;
                    },
                }
            },
        }
    }
}

/// First bare occurrence of `attr` anywhere, with an acceptable quoted
/// value; result is `(value start, value end)`.
pub open spec fn scan_bare(t: Seq<char>, attr: Seq<char>, numeric: bool, from: int) -> Option<
    (int, int),
>
    decreases t.len() - from,
{
    match first_match_from(t, attr, from) {
        None => None,
        Some(a) => {
            let vs = a + attr.len();
            let hit = match first_match_from(t, seq!['"'], vs) {
                Some(q) => if value_ok(t.subrange(vs, q), false, numeric) {
                    Some((vs, q))
                } else {
                    None
                },
                None => None,
            };
            match hit {
                Some(r) => Some(r),
                None => if from <= a && a + 1 <= t.len() {
                    scan_bare(t, attr, numeric, a + 1)
                } else {
                    None
                },
            }
        },
    }
}

/// Exec: first bare attribute occurrence with an acceptable value.
pub fn scan_bare_exec(t: &Vec<char>, attr: &Vec<char>, numeric: bool, from: usize) -> (r: Option<
    (usize, usize),
>)
    ensures
        match r {
            Some((vs, q)) => {
                &&& scan_bare(t@, attr@, numeric, from as int) == Some((vs as int, q as int))
                &&& vs <= q <= t@.len()
            },
            None => scan_bare(t@, attr@, numeric, from as int) is None,
        },
{
    let tl = t.len();
    if from > tl {
        assert(first_match_from(t@, attr@, from as int) is None);
        return None;
    }
    let quote = one_char_vec('"');
    let mut pos: usize = from;
    loop
        invariant
            from <= pos <= t@.len(),
            tl == t@.len(),
            quote@ =~= seq!['"'],
            scan_bare(t@, attr@, numeric, from as int) == scan_bare(t@, attr@, numeric, pos as int),
        decreases t@.len() - pos,
    {
        match find_from(t, attr, pos) {
            None => {
                return None;
            },
            Some(a) => {
                proof {
                    lemma_first_match_some(t@, attr@, pos as int, a as int);
                }
                let vs = a + attr.len();
                let mut hit: Option<(usize, usize)> = None;
                match find_from(t, &quote, vs) {
                    Some(q) => {
                        proof {
                            lemma_first_match_some(t@, seq!['"'], vs as int, q as int);
                        }
                        if value_ok_exec(t, vs, q, false, numeric) {
                            hit = Some((vs, q));
                        }
                    },
                    None => {},
                }
                match hit {
                    Some((vs2, q2)) => {
                        return Some((vs2, q2));
                    },
                    None => {
                        if a >= tl {
                            return None;
                        }
                        pos = a + 1;
                    },
                }
            },
        }
    }
}

/// First occurrence of element `elem` whose attribute region contains the
/// literal `lit`.
pub open spec fn scan_elem_lit(t: Seq<char>, elem: Seq<char>, lit: Seq<char>, from: int) -> Option<
    int,
>
    decreases t.len() - from,
{
    match first_match_from(t, elem, from) {
        None => None,
        Some(i) => {
            let rs = i + elem.len();
            let limit = tag_limit(t, rs);
            let hit = match first_match_from(t, lit, rs) {
                Some(a) => a < limit,
                None => false,
            };
            if hit {
                Some(i)
            } else if from <= i && i + 1 <= t.len() {
                scan_elem_lit(t, elem, lit, i + 1)
            } else {
                None
            }
        },
    }
}

/// Exec: first element occurrence carrying the literal in its attribute
/// region.
pub fn scan_elem_lit_exec(t: &Vec<char>, elem: &Vec<char>, lit: &Vec<char>, from: usize) -> (r:
    Option<usize>)
    ensures
        match r {
            Some(i) => scan_elem_lit(t@, elem@, lit@, from as int) == Some(i as int) && from <= i
                && i <= t@.len(),
            None => scan_elem_lit(t@, elem@, lit@, from as int) is None,
        },
{
    let tl = t.len();
    if from > tl {
        assert(first_match_from(t@, elem@, from as int) is None);
        return None;
    }
    let mut pos: usize = from;
    loop
        invariant
            from <= pos <= t@.len(),
            tl == t@.len(),
            scan_elem_lit(t@, elem@, lit@, from as int) == scan_elem_lit(
                t@,
                elem@,
                lit@,
                pos as int,
            ),
        decreases t@.len() - pos,
    {
        match find_from(t, elem, pos) {
            None => {
                return None;
            },
            Some(i) => {
                proof {
                    lemma_first_match_some(t@, elem@, pos as int, i as int);
                }
                let rs = i + elem.len();
                let limit = tag_limit_exec(t, rs);
                let mut hit = false;
                match find_from(t, lit, rs) {
                    Some(a) => {
                        if a < limit {
                            hit = true;
                        }
                    },
                    None => {},
                }
                if hit {
                    return Some(i);
                }
                if i >= tl {
                    return None;
                }
                pos = i + 1;
            },
        }
    }
}

/// A found element-with-literal position is a real element occurrence.
pub proof fn lemma_scan_elem_lit_ok(t: Seq<char>, elem: Seq<char>, lit: Seq<char>, from: int, i: int)
    requires
        scan_elem_lit(t, elem, lit, from) == Some(i),
    ensures
        match_at(t, elem, i),
    decreases t.len() - from,
{
    match first_match_from(t, elem, from) {
        None => {
            assert(false);
        },
        Some(i0) => {
            lemma_first_match_some(t, elem, from, i0);
            let rs = i0 + elem.len();
            let limit = tag_limit(t, rs);
            let hit = match first_match_from(t, lit, rs) {
                Some(a) => a < limit,
                None => false,
            };
            if hit {
            } else if from <= i0 && i0 + 1 <= t.len() {
                lemma_scan_elem_lit_ok(t, elem, lit, i0 + 1, i);
            }
        },
    }
}

/// The next text run `<w:t ...>text</w:t>` at or after `from`: the result
/// is `(text start, text end, position just past the closing tag)`.
pub open spec fn next_text_run(t: Seq<char>, from: int) -> Option<(int, int, int)>
    decreases t.len() - from,
{
    match first_match_from(t, "<w:t"@, from) {
        None => None,
        Some(i) => {
            match first_match_from(t, seq!['>'], i + 4) {
                None => None,
                Some(g) => {
                    match first_match_from(t, seq!['<'], g + 1) {
                        None => None,
                        Some(h) => {
                            if match_at(t, "</w:t>"@, h) {
                                Some((g + 1, h, h + 6))
                            } else if from <= i && i + 1 <= t.len() {
                                next_text_run(t, i + 1)
                            } else {
                                None
                            }
                        },
                    }
                },
            }
        },
    }
}

/// Exec: the next text run at or after `from`.
pub fn next_text_run_exec(t: &Vec<char>, from: usize) -> (r: Option<(usize, usize, usize)>)
    ensures
        match r {
            Some((ts, te, nf)) => {
                &&& next_text_run(t@, from as int) == Some((ts as int, te as int, nf as int))
                &&& ts <= te
                &&& te <= t@.len()
                &&& nf <= t@.len()
            },
            None => next_text_run(t@, from as int) is None,
        },
{
    let opener = crate::text::str_to_chars("<w:t");
    let closer = crate::text::str_to_chars("</w:t>");
    let gt = one_char_vec('>');
    let lt = one_char_vec('<');
    proof {
        reveal_strlit("<w:t");
        reveal_strlit("</w:t>");
    }
    let tl = t.len();
    if from > tl {
        assert(first_match_from(t@, "<w:t"@, from as int) is None);
        return None;
    }
    let mut pos: usize = from;
    loop
        invariant
            from <= pos <= t@.len(),
            tl == t@.len(),
            opener@ == "<w:t"@,
            closer@ == "</w:t>"@,
            opener@.len() == 4,
            closer@.len() == 6,
            gt@ =~= seq!['>'],
            lt@ =~= seq!['<'],
            next_text_run(t@, from as int) == next_text_run(t@, pos as int),
        decreases t@.len() - pos,
    {
        match find_from(t, &opener, pos) {
            None => {
                return None;
            },
            Some(i) => {
                proof {
                    lemma_first_match_some(t@, "<w:t"@, pos as int, i as int);
                }
                match find_from(t, &gt, i + 4) {
                    None => {
                        return None;
                    },
                    Some(g) => {
                        proof {
                            lemma_first_match_some(t@, seq!['>'], i + 4, g as int);
                        }
                        match find_from(t, &lt, g + 1) {
                            None => {
                                return None;
                            },
                            Some(h) => {
                                proof {
                                    lemma_first_match_some(t@, seq!['<'], g + 1, h as int);
                                }
                                let fits = h <= tl - 6 && 6 <= tl;
                                if fits && match_at_exec(t, &closer, h) {
                                    return Some((g + 1, h, h + 6));
                                }
                                proof {
                                    if !fits {
                                        assert(!match_at(t@, "</w:t>"@, h as int));
                                    }
                                }
                                if i >= tl {
                                    return None;
                                }
                                pos = i + 1;
                            },
                        }
                    },
                }
            },
        }
    }
}

/// The trimmed texts of all text runs from `from` on, in order.
pub open spec fn text_runs_from(t: Seq<char>, from: int) -> Seq<Seq<char>>
    decreases t.len() - from,
{
    match next_text_run(t, from) {
        None => Seq::empty(),
        Some((ts, te, nf)) => {
            if from < nf <= t.len() && 0 <= ts <= te <= t.len() {
                seq![trim(t.subrange(ts, te))] + text_runs_from(t, nf)
            } else {
                Seq::empty()
            }
        },
    }
}

/// Exec: the trimmed texts of all text runs, in order.
pub fn text_runs_exec(t: &Vec<char>) -> (r: Vec<Vec<char>>)
    ensures
        r.deep_view() == text_runs_from(t@, 0),
{
    let mut out: Vec<Vec<char>> = Vec::new();
    let mut pos: usize = 0;
    loop
        invariant
            pos <= t@.len(),
            text_runs_from(t@, 0) =~= out.deep_view() + text_runs_from(t@, pos as int),
        decreases t@.len() + 1 - pos,
    {
        match next_text_run_exec(t, pos) {
            None => {
                assert(text_runs_from(t@, pos as int) =~= Seq::<Seq<char>>::empty());
                assert(text_runs_from(t@, 0) =~= out.deep_view());
                return out;
            },
            Some((ts, te, nf)) => {
                if nf <= pos {
                    assert(text_runs_from(t@, pos as int) =~= Seq::<Seq<char>>::empty());
                    assert(text_runs_from(t@, 0) =~= out.deep_view());
                    return out;
                }
                let piece = crate::text::subvec(t, ts, te);
                let trimmed = crate::text::trim_exec(&piece);
                let ghost old_dv = out.deep_view();
                let ghost old_v = out@;
                out.push(trimmed);
                proof {
                    assert(out@ == old_v.push(trimmed));
                    assert forall|k: int| 0 <= k < out@.len() implies out.deep_view()[k] == (
                    old_dv + seq![trim(t@.subrange(ts as int, te as int))])[k] by {
                        if k < old_v.len() {
                            assert(out@[k] == old_v[k]);
                        } else {
                            assert(out@[k] == trimmed);
                        }
                    }
                    assert(out.deep_view() =~= old_dv + seq![
                        trim(t@.subrange(ts as int, te as int)),
                    ]);
                    assert(text_runs_from(t@, pos as int) =~= seq![
                        trim(t@.subrange(ts as int, te as int)),
                    ] + text_runs_from(t@, nf as int));
                    assert(text_runs_from(t@, 0) =~= out.deep_view() + text_runs_from(
                        t@,
                        nf as int,
                    ));
                }
                pos = nf;
            },
        }
    }
}

} // verus!
