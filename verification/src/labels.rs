//! The header-label scanner.
//!
//! Its primitive extracts the plain text of an XML blob: all text runs,
//! each trimmed, space-joined, and the whole trimmed again.  On top of it,
//! three passes over the document body collect section labels into one
//! case-insensitively deduplicated list: paragraphs referencing a heading
//! style contribute their first text run; every text run is matched
//! against a curated vocabulary of section labels, and all-caps runs of
//! heading-like length count as labels too; and text runs wrapped in a
//! bold marker are matched against the same vocabulary.

use vstd::prelude::*;
use crate::scan::{
    next_text_run, next_text_run_exec, text_runs_from, text_runs_exec, first_match_from,
    find_from, scan_attr, scan_attr_exec, lemma_first_match_some,
};
use crate::text::{
    trim, trim_exec, eq_fold, eq_fold_exec, is_upper_char, is_space_char, is_digit_char, is_digit,
    is_upper, is_space, str_to_chars, subvec, chars_eq,
};

verus! {

/// Trimmed parts joined with single spaces.
pub open spec fn join_space(parts: Seq<Seq<char>>) -> Seq<char>
    decreases parts.len(),
{
    if parts.len() == 0 {
        Seq::empty()
    } else if parts.len() == 1 {
        parts[0]
    } else {
        parts[0] + seq![' '] + join_space(parts.drop_first())
    }
}

proof fn lemma_join_push(parts: Seq<Seq<char>>, p: Seq<char>)
    ensures
        join_space(parts.push(p)) == if parts.len() == 0 {
            p
        } else {
            join_space(parts) + seq![' '] + p
        },
    decreases parts.len(),
{
    let w = parts.push(p);
    if parts.len() == 0 {
        assert(w.len() == 1);
        assert(w[0] == p);
    } else if parts.len() == 1 {
        assert(w.len() == 2);
        assert(w[0] == parts[0]);
        assert(w.drop_first() =~= seq![p]);
        assert(join_space(seq![p]) == p);
    } else {
        assert(w.drop_first() =~= parts.drop_first().push(p));
        lemma_join_push(parts.drop_first(), p);
        assert(join_space(w) == w[0] + seq![' '] + join_space(w.drop_first()));
        assert(w[0] == parts[0]);
        assert(join_space(w) =~= join_space(parts) + seq![' '] + p);
    }
}

/// The plain text of an XML blob: its text runs, trimmed, space-joined,
/// trimmed.
pub open spec fn spec_extract_text(t: Seq<char>) -> Seq<char> {
    trim(join_space(text_runs_from(t, 0)))
}

/// Exec: the plain text of an XML blob.
pub fn extract_text_from_xml(t: &Vec<char>) -> (r: Vec<char>)
    ensures
        r@ == spec_extract_text(t@),
{
    let runs = text_runs_exec(t);
    let ghost rv = runs.deep_view();
    let mut out: Vec<char> = Vec::new();
    let mut i: usize = 0;
    while i < runs.len()
        invariant
            i <= runs@.len(),
            rv == runs.deep_view(),
            rv.len() == runs@.len(),
            out@ == join_space(rv.subrange(0, i as int)),
        decreases runs.len() - i,
    {
        let ghost pre = rv.subrange(0, i as int);
        if i > 0 {
            out.push(' ');
        }
        crate::text::append_chars(&mut out, &runs[i]);
        proof {
            assert(runs@[i as int].deep_view() =~= runs@[i as int]@);
            assert(rv[i as int] == runs@[i as int]@);
            lemma_join_push(pre, rv[i as int]);
            assert(rv.subrange(0, i + 1) =~= pre.push(rv[i as int]));
        }
        i = i + 1;
    }
    proof {
        assert(rv.subrange(0, rv.len() as int) =~= rv);
    }
    trim_exec(&out)
}

/// The curated vocabulary of section labels.
pub open spec fn spec_vocab() -> Seq<Seq<char>> {
    seq![
        "FAMILIENANAMNESE"@,
        "EIGENANAMNESE"@,
        "AKTUELLE BESCHWERDEN"@,
        "BEFUND"@,
        "DIAGNOSE"@,
        "DIAGNOSEN"@,
        "THERAPIE"@,
        "EPIKRISE"@,
        "BEURTEILUNG"@,
        "SOZIALANAMNESE"@,
        "ARBEITSANAMNESE"@,
        "NEUROLOGISCHER BEFUND"@,
        "PSYCHIATRISCHER BEFUND"@,
        "PSYCHOPATHOLOGISCHER BEFUND"@,
        "K\u{d6}RPERLICHE UNTERSUCHUNG"@,
        "ZUSAMMENFASSUNG"@,
        "EMPFEHLUNG"@,
        "EMPFEHLUNGEN"@,
        "ANAMNESE"@,
        "VORGESCHICHTE"@,
        "MEDIKATION"@,
        "MEDIKAMENTE"@,
        "LABORWERTE"@,
        "APPARATIVE DIAGNOSTIK"@,
        "BILDGEBUNG"@,
        "PSYCHOLOGISCHE TESTUNG"@,
        "NEUROPSYCHOLOGISCHE TESTUNG"@,
        "SOZIALMEDIZINISCHE BEURTEILUNG"@,
        "LEISTUNGSBEURTEILUNG"@,
        "PROGNOSE"@,
        "VERLAUF"@,
        "KRANKHEITSVERLAUF"@,
        "Familienanamnese"@,
        "Eigenanamnese"@,
        "Aktuelle Beschwerden"@,
        "Befund"@,
        "Diagnose"@,
        "Diagnosen"@,
        "Therapie"@,
        "Epikrise"@,
        "Beurteilung"@,
        "Sozialanamnese"@,
        "Arbeitsanamnese"@,
    ]
}

fn vocab_at(i: usize) -> (r: &'static str)
    requires
        i < 43,
    ensures
        r@ == spec_vocab()[i as int],
{
    if i == 0 {
        "FAMILIENANAMNESE"
    } else if i == 1 {
        "EIGENANAMNESE"
    } else if i == 2 {
        "AKTUELLE BESCHWERDEN"
    } else if i == 3 {
        "BEFUND"
    } else if i == 4 {
        "DIAGNOSE"
    } else if i == 5 {
        "DIAGNOSEN"
    } else if i == 6 {
        "THERAPIE"
    } else if i == 7 {
        "EPIKRISE"
    } else if i == 8 {
        "BEURTEILUNG"
    } else if i == 9 {
        "SOZIALANAMNESE"
    } else if i == 10 {
        "ARBEITSANAMNESE"
    } else if i == 11 {
        "NEUROLOGISCHER BEFUND"
    } else if i == 12 {
        "PSYCHIATRISCHER BEFUND"
    } else if i == 13 {
        "PSYCHOPATHOLOGISCHER BEFUND"
    } else if i == 14 {
        "K\u{d6}RPERLICHE UNTERSUCHUNG"
    } else if i == 15 {
        "ZUSAMMENFASSUNG"
    } else if i == 16 {
        "EMPFEHLUNG"
    } else if i == 17 {
        "EMPFEHLUNGEN"
    } else if i == 18 {
        "ANAMNESE"
    } else if i == 19 {
        "VORGESCHICHTE"
    } else if i == 20 {
        "MEDIKATION"
    } else if i == 21 {
        "MEDIKAMENTE"
    } else if i == 22 {
        "LABORWERTE"
    } else if i == 23 {
        "APPARATIVE DIAGNOSTIK"
    } else if i == 24 {
        "BILDGEBUNG"
    } else if i == 25 {
        "PSYCHOLOGISCHE TESTUNG"
    } else if i == 26 {
        "NEUROPSYCHOLOGISCHE TESTUNG"
    } else if i == 27 {
        "SOZIALMEDIZINISCHE BEURTEILUNG"
    } else if i == 28 {
        "LEISTUNGSBEURTEILUNG"
    } else if i == 29 {
        "PROGNOSE"
    } else if i == 30 {
        "VERLAUF"
    } else if i == 31 {
        "KRANKHEITSVERLAUF"
    } else if i == 32 {
        "Familienanamnese"
    } else if i == 33 {
        "Eigenanamnese"
    } else if i == 34 {
        "Aktuelle Beschwerden"
    } else if i == 35 {
        "Befund"
    } else if i == 36 {
        "Diagnose"
    } else if i == 37 {
        "Diagnosen"
    } else if i == 38 {
        "Therapie"
    } else if i == 39 {
        "Epikrise"
    } else if i == 40 {
        "Beurteilung"
    } else if i == 41 {
        "Sozialanamnese"
    } else {
        "Arbeitsanamnese"
    }
}

/// The text matches a vocabulary entry up to case folding.
pub open spec fn in_vocab(s: Seq<char>) -> bool {
    exists|k: int| 0 <= k < 43 && eq_fold(#[trigger] spec_vocab()[k], s)
}

/// Exec: vocabulary matching.
pub fn in_vocab_exec(s: &Vec<char>) -> (r: bool)
    ensures
        r == in_vocab(s@),
{
    let mut k: usize = 0;
    while k < 43
        invariant
            k <= 43,
            forall|j: int| 0 <= j < k ==> !eq_fold(#[trigger] spec_vocab()[j], s@),
        decreases 43 - k,
    {
        let w = str_to_chars(vocab_at(k));
        if eq_fold_exec(&w, s) {
            assert(eq_fold(spec_vocab()[k as int], s@));
            return true;
        }
        k = k + 1;
    }
    false
}

/// The text is already present, up to case folding.
pub open spec fn contains_ci(acc: Seq<Seq<char>>, s: Seq<char>) -> bool {
    exists|k: int| 0 <= k < acc.len() && eq_fold(#[trigger] acc[k], s)
}

/// Exec: case-insensitive membership in the collected labels.
pub fn contains_ci_exec(acc: &Vec<Vec<char>>, s: &Vec<char>) -> (r: bool)
    ensures
        r == contains_ci(acc.deep_view(), s@),
{
    let ghost av = acc.deep_view();
    let mut k: usize = 0;
    while k < acc.len()
        invariant
            k <= acc@.len(),
            av == acc.deep_view(),
            av.len() == acc@.len(),
            forall|j: int| 0 <= j < k ==> !eq_fold(#[trigger] av[j], s@),
        decreases acc.len() - k,
    {
        proof {
            assert(av[k as int] =~= acc@[k as int]@);
        }
        if eq_fold_exec(&acc[k], s) {
            assert(eq_fold(av[k as int], s@));
            return true;
        }
        k = k + 1;
    }
    false
}

/// Generic heading-like text: four to fifty characters, all upper-case
/// letters or whitespace.
pub open spec fn is_caps_header(s: Seq<char>) -> bool {
    4 <= s.len() <= 50 && forall|i: int|
        0 <= i < s.len() ==> is_upper_char(#[trigger] s[i]) || is_space_char(s[i])
}

/// Exec: generic heading-like text.
pub fn is_caps_header_exec(s: &Vec<char>) -> (r: bool)
    ensures
        r == is_caps_header(s@),
{
    let n = s.len();
    if n < 4 || n > 50 {
        return false;
    }
    let mut i: usize = 0;
    while i < n
        invariant
            i <= n,
            n == s@.len(),
            forall|j: int| 0 <= j < i ==> is_upper_char(#[trigger] s@[j]) || is_space_char(s@[j]),
        decreases n - i,
    {
        if !is_upper(s[i]) && !is_space(s[i]) {
            return false;
        }
        i = i + 1;
    }
    true
}

/// A heading style reference: `Heading` or `berschrift` followed by one
/// digit, or `Title`.
pub open spec fn heading_ref_shape(v: Seq<char>) -> bool {
    (v.len() == 8 && v.subrange(0, 7) == "Heading"@ && is_digit_char(v[7])) || (v.len() == 11
        && v.subrange(0, 10) == "berschrift"@ && is_digit_char(v[10])) || v == "Title"@
}

/// Exec: heading style reference shape.
pub fn heading_ref_shape_exec(v: &Vec<char>) -> (r: bool)
    ensures
        r == heading_ref_shape(v@),
{
    let h = str_to_chars("Heading");
    let u = str_to_chars("berschrift");
    let ti = str_to_chars("Title");
    proof {
        reveal_strlit("Heading");
        reveal_strlit("berschrift");
    }
    if v.len() == 8 {
        let p = subvec(v, 0, 7);
        if chars_eq(&p, &h) && is_digit(v[7]) {
            return true;
        }
    }
    if v.len() == 11 {
        let p = subvec(v, 0, 10);
        if chars_eq(&p, &u) && is_digit(v[10]) {
            return true;
        }
    }
    if chars_eq(v, &ti) {
        return true;
    }
    proof {
        if heading_ref_shape(v@) {
            assert(false);
        }
    }
    false
}

/// The first text run with non-empty raw text whose end lies at or before
/// `end`; the result is `(text start, text end, resume position)`.
pub open spec fn first_nonempty_run(t: Seq<char>, from: int, end: int) -> Option<(int, int, int)>
    decreases t.len() - from,
{
    match next_text_run(t, from) {
        None => None,
        Some((ts, te, nf)) => {
            if !(from < nf <= t.len() && 0 <= ts <= te <= t.len()) {
                None
            } else if te > end {
                None
            } else if te > ts {
                Some((ts, te, nf))
            } else {
                first_nonempty_run(t, nf, end)
            }
        },
    }
}

/// Exec: the first non-empty text run in a range.
pub fn first_nonempty_run_exec(t: &Vec<char>, from: usize, end: usize) -> (r: Option<
    (usize, usize, usize),
>)
    ensures
        match r {
            Some((ts, te, nf)) => {
                &&& first_nonempty_run(t@, from as int, end as int) == Some(
                    (ts as int, te as int, nf as int),
                )
                &&& ts <= te <= t@.len()
                &&& from < nf <= t@.len()
            },
            None => first_nonempty_run(t@, from as int, end as int) is None,
        },
{
    let mut pos: usize = from;
    loop
        invariant
            from <= pos,
            first_nonempty_run(t@, from as int, end as int) == first_nonempty_run(
                t@,
                pos as int,
                end as int,
            ),
        decreases t@.len() + 1 - pos,
    {
        match next_text_run_exec(t, pos) {
            None => {
                return None;
            },
            Some((ts, te, nf)) => {
                if nf <= pos {
                    return None;
                }
                if te > end {
                    return None;
                }
                if te > ts {
                    return Some((ts, te, nf));
                }
                pos = nf;
            },
        }
    }
}

/// Pass one: paragraphs whose style reference names a heading identifier
/// contribute their first non-empty text run.
pub open spec fn pass_a(t: Seq<char>, from: int, acc: Seq<Seq<char>>) -> Seq<Seq<char>>
    decreases t.len() - from,
{
    match scan_attr(t, "<w:pStyle"@, "w:val=\""@, false, false, from) {
        None => acc,
        Some((i, vs, ve)) => {
            if heading_ref_shape(t.subrange(vs, ve)) {
                match first_match_from(t, "</w:p>"@, ve) {
                    None => acc,
                    Some(c) => {
                        match first_nonempty_run(t, ve, c) {
                            Some((ts, te, nf)) => {
                                let s = trim(t.subrange(ts, te));
                                let acc1 = if s.len() > 0 && !contains_ci(acc, s) {
                                    acc.push(s)
                                } else {
                                    acc
                                };
                                if from < c + 6 <= t.len() {
                                    pass_a(t, c + 6, acc1)
                                } else {
                                    acc1
                                }
                            },
                            None => {
                                if from <= i && i + 1 <= t.len() {
                                    pass_a(t, i + 1, acc)
                                } else {
                                    acc
                                }
                            },
                        }
                    },
                }
            } else {
                if from <= i && i + 1 <= t.len() {
                    pass_a(t, i + 1, acc)
                } else {
                    acc
                }
            }
        },
    }
}

/// Pass two: every text run, matched against the vocabulary and the
/// generic heading shape.
pub open spec fn pass_b(t: Seq<char>, from: int, acc: Seq<Seq<char>>) -> Seq<Seq<char>>
    decreases t.len() - from,
{
    match next_text_run(t, from) {
        None => acc,
        Some((ts, te, nf)) => {
            if !(from < nf <= t.len() && 0 <= ts <= te <= t.len()) {
                acc
            } else {
                let s = trim(t.subrange(ts, te));
                let acc1 = if in_vocab(s) && !contains_ci(acc, s) {
                    acc.push(s)
                } else {
                    acc
                };
                let acc2 = if is_caps_header(s) && !contains_ci(acc1, s) {
                    acc1.push(s)
                } else {
                    acc1
                };
                pass_b(t, nf, acc2)
            }
        },
    }
}

/// Pass three: text runs wrapped in a bold marker, matched against the
/// vocabulary, length-bounded.
pub open spec fn pass_c(t: Seq<char>, from: int, acc: Seq<Seq<char>>) -> Seq<Seq<char>>
    decreases t.len() - from,
{
    match first_match_from(t, "<w:b"@, from) {
        None => acc,
        Some(b) => {
            match first_nonempty_run(t, b, t.len() as int) {
                None => acc,
                Some((ts, te, nf)) => {
                    let s = trim(t.subrange(ts, te));
                    let acc1 = if 4 <= s.len() <= 50 && in_vocab(s) && !contains_ci(acc, s) {
                        acc.push(s)
                    } else {
                        acc
                    };
                    if from < nf <= t.len() {
                        pass_c(t, nf, acc1)
                    } else {
                        acc1
                    }
                },
            }
        },
    }
}

/// The labels found in the document body, in insertion order,
/// case-insensitively deduplicated.
pub open spec fn spec_headers_found(doc: Seq<char>) -> Seq<Seq<char>> {
    pass_c(doc, 0, pass_b(doc, 0, pass_a(doc, 0, Seq::empty())))
}

/// Exec: collect the labels found in the document body.
pub fn extract_header_text_content(doc: &Vec<char>) -> (r: Vec<Vec<char>>)
    ensures
        r.deep_view() == spec_headers_found(doc@),
{
    let dl = doc.len();
    let mut out: Vec<Vec<char>> = Vec::new();
    proof {
        assert(out.deep_view() =~= Seq::<Seq<char>>::empty());
    }
    // pass one: heading-styled paragraphs
    let mut pos: usize = 0;
    loop
        invariant_except_break
            dl == doc@.len(),
            pass_a(doc@, 0, Seq::empty()) == pass_a(doc@, pos as int, out.deep_view()),
        ensures
            out.deep_view() == pass_a(doc@, 0, Seq::empty()),
        decreases doc@.len() + 1 - pos,
    {
        match scan_attr_exec(doc, &str_to_chars("<w:pStyle"), &str_to_chars("w:val=\""), false, false, pos) {
            None => {
                break;
            },
            Some((i, vs, ve)) => {
                let val = subvec(doc, vs, ve);
                if heading_ref_shape_exec(&val) {
                    let closev = str_to_chars("</w:p>");
                    proof {
                        reveal_strlit("</w:p>");
                    }
                    match find_from(doc, &closev, ve) {
                        None => {
                            break;
                        },
                        Some(c) => {
                            proof {
                                lemma_first_match_some(doc@, "</w:p>"@, ve as int, c as int);
                            }
                            match first_nonempty_run_exec(doc, ve, c) {
                                Some((ts, te, nf)) => {
                                    let raw = subvec(doc, ts, te);
                                    let s = trim_exec(&raw);
                                    let ghost accg = out.deep_view();
                                    if s.len() > 0 && !contains_ci_exec(&out, &s) {
                                        push_label(&mut out, s);
                                        proof {
                                            assert(out.deep_view() =~= accg.push(
                                                trim(doc@.subrange(ts as int, te as int)),
                                            ));
                                        }
                                    }
                                    if pos < c + 6 && c + 6 <= dl {
                                        pos = c + 6;
                                    } else {
                                        break;
                                    }
                                },
                                None => {
                                    if pos <= i && i < dl {
                                        pos = i + 1;
                                    } else {
                                        break;
                                    }
                                },
                            }
                        },
                    }
                } else {
                    if pos <= i && i < dl {
                        pos = i + 1;
                    } else {
                        break;
                    }
                }
            },
        }
    }
    let ghost after_a = out.deep_view();
    proof {
        assert(after_a == pass_a(doc@, 0, Seq::empty()));
    }
    // pass two: every text run
    let mut pos2: usize = 0;
    loop
        invariant_except_break
            pass_b(doc@, 0, after_a) == pass_b(doc@, pos2 as int, out.deep_view()),
        ensures
            out.deep_view() == pass_b(doc@, 0, after_a),
        decreases doc@.len() + 1 - pos2,
    {
        match next_text_run_exec(doc, pos2) {
            None => {
                break;
            },
            Some((ts, te, nf)) => {
                if nf <= pos2 {
                    break;
                }
                let raw = subvec(doc, ts, te);
                let s = trim_exec(&raw);
                let ghost accg = out.deep_view();
                if in_vocab_exec(&s) && !contains_ci_exec(&out, &s) {
                    let s2 = copy_chars(&s);
                    push_label(&mut out, s2);
                    proof {
                        assert(out.deep_view() =~= accg.push(
                            trim(doc@.subrange(ts as int, te as int)),
                        ));
                    }
                }
                let ghost accg1 = out.deep_view();
                if is_caps_header_exec(&s) && !contains_ci_exec(&out, &s) {
                    push_label(&mut out, s);
                    proof {
                        assert(out.deep_view() =~= accg1.push(
                            trim(doc@.subrange(ts as int, te as int)),
                        ));
                    }
                }
                pos2 = nf;
            },
        }
    }
    let ghost after_b = out.deep_view();
    proof {
        assert(after_b == pass_b(doc@, 0, after_a));
    }
    // pass three: bold-marked runs
    let bold = str_to_chars("<w:b");
    proof {
        reveal_strlit("<w:b");
    }
    let mut pos3: usize = 0;
    loop
        invariant_except_break
            dl == doc@.len(),
            bold@ == "<w:b"@,
            pass_c(doc@, 0, after_b) == pass_c(doc@, pos3 as int, out.deep_view()),
        ensures
            out.deep_view() == pass_c(doc@, 0, after_b),
        decreases doc@.len() + 1 - pos3,
    {
        match find_from(doc, &bold, pos3) {
            None => {
                break;
            },
            Some(b) => {
                proof {
                    lemma_first_match_some(doc@, "<w:b"@, pos3 as int, b as int);
                }
                match first_nonempty_run_exec(doc, b, dl) {
                    None => {
                        break;
                    },
                    Some((ts, te, nf)) => {
                        let raw = subvec(doc, ts, te);
                        let s = trim_exec(&raw);
                        let ghost accg = out.deep_view();
                        if 4 <= s.len() && s.len() <= 50 && in_vocab_exec(&s) && !contains_ci_exec(
                            &out,
                            &s,
                        ) {
                            push_label(&mut out, s);
                            proof {
                                assert(out.deep_view() =~= accg.push(
                                    trim(doc@.subrange(ts as int, te as int)),
                                ));
                            }
                        }
                        if pos3 < nf && nf <= dl {
                            pos3 = nf;
                        } else {
                            break;
                        }
                    },
                }
            },
        }
    }
    proof {
        assert(out.deep_view() == pass_c(doc@, 0, after_b));
    }
    out
}

/// Append one collected label.
fn push_label(out: &mut Vec<Vec<char>>, s: Vec<char>)
    ensures
        final(out).deep_view() == old(out).deep_view().push(s@),
{
    let ghost old_dv = out.deep_view();
    let ghost old_v = out@;
    let ghost sv = s@;
    out.push(s);
    proof {
        assert(out@ == old_v.push(s));
        assert forall|k: int| 0 <= k < out@.len() implies out.deep_view()[k] == old_dv.push(sv)[k]
        by {
            if k < old_v.len() {
                assert(out@[k] == old_v[k]);
            } else {
                assert(out@[k]@ == sv);
            }
        }
        assert(out.deep_view() =~= old_dv.push(sv));
    }
}

/// A fresh copy of a character vector.
fn copy_chars(v: &Vec<char>) -> (r: Vec<char>)
    ensures
        r@ == v@,
{
    let r = subvec(v, 0, v.len());
    proof {
        assert(v@.subrange(0, v@.len() as int) =~= v@);
    }
    r
}

} // verus!
