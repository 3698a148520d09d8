//! The transposition engine: normalizes each token of a tab through the
//! tuning's duplicate-spelling map, shifts it by a semitone offset through
//! the two parallel note tables, and assembles the output text together
//! with the list of tokens that could not be mapped.

use vstd::prelude::*;
use crate::kalimba::{kalimba_layout, kalimba_layout_spec, TabStyle};
use crate::text::{chars_of, split_lines, split_lines_spec, split_tokens, strs_view, tokens_spec};
use crate::tuning::{pairs_view, resolve_tuning, tuning_enharmonics_spec, tuning_notes_spec};

verus! {

/// The canonical spelling of `tok`: the replacement of the first pair whose
/// key equals `tok`, or `tok` itself when no pair matches.
pub open spec fn normalize_spec(enh: Seq<(Seq<char>, Seq<char>)>, tok: Seq<char>) -> Seq<char>
    decreases enh.len(),
{
    if enh.len() == 0 {
        tok
    } else if enh[0].0 == tok {
        enh[0].1
    } else {
        normalize_spec(enh.drop_first(), tok)
    }
}

/// Index of the first occurrence of `tok` in `notes`, or `notes.len()` when
/// `tok` is not a note of the table.
pub open spec fn find_note_spec(notes: Seq<Seq<char>>, tok: Seq<char>) -> nat
    decreases notes.len(),
{
    if notes.len() == 0 {
        0
    } else if notes[0] == tok {
        0
    } else {
        1 + find_note_spec(notes.drop_first(), tok)
    }
}

/// What the pitch mapper returns: the target token standing `off` semitone
/// positions above `tok`'s position in the source table, or nothing when
/// `tok` is unrecognized or the shifted position leaves the target table.
pub open spec fn map_note_spec(
    source: Seq<Seq<char>>,
    target: Seq<Seq<char>>,
    tok: Seq<char>,
    off: int,
) -> Option<Seq<char>> {
    let i = find_note_spec(source, tok) as int;
    if i < source.len() && 0 <= i + off < target.len() {
        Some(target[i + off])
    } else {
        None
    }
}

/// The view of an optional string.
pub open spec fn opt_view(o: Option<String>) -> Option<Seq<char>> {
    match o {
        Some(s) => Some(s@),
        None => None,
    }
}

/// The canonical spelling of `tok` under the duplicate-spelling pairs.
pub fn normalize_note(enh: &Vec<(String, String)>, tok: &String) -> (r: String)
    ensures
        r@ == normalize_spec(pairs_view(enh@), tok@),
{
    let ghost pairs = pairs_view(enh@);
    let mut k: usize = 0;
    proof {
        assert(pairs.skip(0) =~= pairs);
    }
    while k < enh.len()
        invariant
            k <= enh.len(),
            pairs == pairs_view(enh@),
            normalize_spec(pairs, tok@) == normalize_spec(pairs.skip(k as int), tok@),
        decreases enh.len() - k,
    {
        if enh[k].0 == *tok {
            return enh[k].1.clone();
        }
        proof {
            assert(pairs.skip(k as int).drop_first() =~= pairs.skip(k as int + 1));
        }
        k += 1;
    }
    tok.clone()
}

/// Index of the first occurrence of `tok` in `notes`, or `notes.len()`.
pub fn find_note(notes: &Vec<String>, tok: &String) -> (r: usize)
    ensures
        r == find_note_spec(strs_view(notes@), tok@),
{
    let ghost ns = strs_view(notes@);
    let mut k: usize = 0;
    proof {
        assert(ns.skip(0) =~= ns);
    }
    while k < notes.len()
        invariant
            k <= notes.len(),
            ns == strs_view(notes@),
            find_note_spec(ns, tok@) == k + find_note_spec(ns.skip(k as int), tok@),
        decreases notes.len() - k,
    {
        if notes[k] == *tok {
            return k;
        }
        proof {
            assert(ns.skip(k as int).drop_first() =~= ns.skip(k as int + 1));
        }
        k += 1;
    }
    k
}

/// Maps one normalized token through the two parallel note tables.
pub fn map_note(
    source: &Vec<String>,
    target: &Vec<String>,
    tok: &String,
    semitones: i32,
) -> (r: Option<String>)
    ensures
        opt_view(r) == map_note_spec(
            strs_view(source@),
            strs_view(target@),
            tok@,
            semitones as int,
        ),
{
    let i: usize = find_note(source, tok);
    if i < source.len() {
        let pos: i128 = i as i128 + semitones as i128;
        if 0 <= pos && pos < target.len() as i128 {
            Some(target[pos as usize].clone())
        } else {
            None
        }
    } else {
        None
    }
}

/// The output text one line's tokens contribute: each mappable token's
/// image followed by a single space, unmappable tokens skipped.
pub open spec fn line_out_spec(
    toks: Seq<Seq<char>>,
    source: Seq<Seq<char>>,
    enh: Seq<(Seq<char>, Seq<char>)>,
    target: Seq<Seq<char>>,
    off: int,
) -> Seq<char>
    decreases toks.len(),
{
    if toks.len() == 0 {
        Seq::empty()
    } else {
        let rest = line_out_spec(toks.drop_first(), source, enh, target, off);
        match map_note_spec(source, target, normalize_spec(enh, toks[0]), off) {
            Some(t) => t + seq![' '] + rest,
            None => rest,
        }
    }
}

/// The tokens of one line that cannot be mapped, unnormalized, in order.
pub open spec fn line_errs_spec(
    toks: Seq<Seq<char>>,
    source: Seq<Seq<char>>,
    enh: Seq<(Seq<char>, Seq<char>)>,
    target: Seq<Seq<char>>,
    off: int,
) -> Seq<Seq<char>>
    decreases toks.len(),
{
    if toks.len() == 0 {
        Seq::empty()
    } else {
        let rest = line_errs_spec(toks.drop_first(), source, enh, target, off);
        match map_note_spec(source, target, normalize_spec(enh, toks[0]), off) {
            Some(t) => rest,
            None => seq![toks[0]] + rest,
        }
    }
}

/// Transposes the tokens of one line, appending each mapped token and a
/// space to `out` and each unmappable token to `errs`.
fn transpose_line(
    toks: &Vec<String>,
    source: &Vec<String>,
    enh: &Vec<(String, String)>,
    target: &Vec<String>,
    semitones: i32,
    out: &mut String,
    errs: &mut Vec<String>,
)
    ensures
        final(out)@ == old(out)@ + line_out_spec(
            strs_view(toks@),
            strs_view(source@),
            pairs_view(enh@),
            strs_view(target@),
            semitones as int,
        ),
        strs_view(final(errs)@) == strs_view(old(errs)@) + line_errs_spec(
            strs_view(toks@),
            strs_view(source@),
            pairs_view(enh@),
            strs_view(target@),
            semitones as int,
        ),
{
    let ghost tv = strs_view(toks@);
    let ghost sv = strs_view(source@);
    let ghost ev = pairs_view(enh@);
    let ghost gv = strs_view(target@);
    let ghost off = semitones as int;
    let mut k: usize = 0;
    proof {
        assert(tv.skip(0) =~= tv);
        assert(old(out)@ + Seq::<char>::empty() =~= old(out)@);
        assert(strs_view(old(errs)@) + Seq::<Seq<char>>::empty() =~= strs_view(old(errs)@));
    }
    while k < toks.len()
        invariant
            k <= toks.len(),
            tv == strs_view(toks@),
            sv == strs_view(source@),
            ev == pairs_view(enh@),
            gv == strs_view(target@),
            off == semitones as int,
            old(out)@ + line_out_spec(tv, sv, ev, gv, off) == out@ + line_out_spec(
                tv.skip(k as int),
                sv,
                ev,
                gv,
                off,
            ),
            strs_view(old(errs)@) + line_errs_spec(tv, sv, ev, gv, off) == strs_view(errs@)
                + line_errs_spec(tv.skip(k as int), sv, ev, gv, off),
        decreases toks.len() - k,
    {
        let ghost rest = tv.skip(k as int);
        proof {
            assert(rest[0] == tv[k as int]);
            assert(rest.drop_first() =~= tv.skip(k as int + 1));
        }
        let normalized = normalize_note(enh, &toks[k]);
        let mapped = map_note(source, target, &normalized, semitones);
        match mapped {
            Some(t) => {
                let ghost out0 = out@;
                out.append(t.as_str());
                out.append(" ");
                proof {
                    reveal_strlit(" ");
                    assert(" "@ =~= seq![' ']);
                    assert(out@ =~= out0 + (t@ + seq![' ']));
                    assert(line_out_spec(rest, sv, ev, gv, off) == t@ + seq![' ']
                        + line_out_spec(rest.drop_first(), sv, ev, gv, off));
                    assert(out0 + (t@ + seq![' '] + line_out_spec(rest.drop_first(), sv, ev, gv, off))
                        =~= (out0 + (t@ + seq![' '])) + line_out_spec(rest.drop_first(), sv, ev, gv, off));
                }
            },
            None => {
                let ghost errs0 = strs_view(errs@);
                errs.push(toks[k].clone());
                proof {
                    assert(strs_view(errs@) =~= errs0 + seq![tv[k as int]]);
                    assert(line_errs_spec(rest, sv, ev, gv, off) == seq![tv[k as int]]
                        + line_errs_spec(rest.drop_first(), sv, ev, gv, off));
                    assert(errs0 + (seq![tv[k as int]] + line_errs_spec(rest.drop_first(), sv, ev, gv, off))
                        =~= (errs0 + seq![tv[k as int]]) + line_errs_spec(rest.drop_first(), sv, ev, gv, off));
                }
            },
        }
        k += 1;
    }
    proof {
        assert(line_out_spec(tv.skip(k as int), sv, ev, gv, off) =~= Seq::<char>::empty());
        assert(line_errs_spec(tv.skip(k as int), sv, ev, gv, off) =~= Seq::<Seq<char>>::empty());
        assert(out@ + Seq::<char>::empty() =~= out@);
        assert(strs_view(errs@) + Seq::<Seq<char>>::empty() =~= strs_view(errs@));
    }
}

/// The whole transposed text: each input line's output, closed by a newline.
pub open spec fn tab_out_spec(
    lines: Seq<Seq<char>>,
    source: Seq<Seq<char>>,
    enh: Seq<(Seq<char>, Seq<char>)>,
    target: Seq<Seq<char>>,
    off: int,
) -> Seq<char>
    decreases lines.len(),
{
    if lines.len() == 0 {
        Seq::empty()
    } else {
        line_out_spec(tokens_spec(lines[0]), source, enh, target, off) + seq!['\n'] + tab_out_spec(
            lines.drop_first(),
            source,
            enh,
            target,
            off,
        )
    }
}

/// Every unmappable token of the tab, line by line, in order.
pub open spec fn tab_errs_spec(
    lines: Seq<Seq<char>>,
    source: Seq<Seq<char>>,
    enh: Seq<(Seq<char>, Seq<char>)>,
    target: Seq<Seq<char>>,
    off: int,
) -> Seq<Seq<char>>
    decreases lines.len(),
{
    if lines.len() == 0 {
        Seq::empty()
    } else {
        line_errs_spec(tokens_spec(lines[0]), source, enh, target, off) + tab_errs_spec(
            lines.drop_first(),
            source,
            enh,
            target,
            off,
        )
    }
}

/// The transposed text of the whole tab `tab`.
pub open spec fn transpose_out_spec(
    tab: Seq<char>,
    source: Seq<Seq<char>>,
    enh: Seq<(Seq<char>, Seq<char>)>,
    target: Seq<Seq<char>>,
    off: int,
) -> Seq<char> {
    tab_out_spec(split_lines_spec(tab), source, enh, target, off)
}

/// The unmapped tokens of the whole tab `tab`.
pub open spec fn transpose_errs_spec(
    tab: Seq<char>,
    source: Seq<Seq<char>>,
    enh: Seq<(Seq<char>, Seq<char>)>,
    target: Seq<Seq<char>>,
    off: int,
) -> Seq<Seq<char>> {
    tab_errs_spec(split_lines_spec(tab), source, enh, target, off)
}

/// Transposes a whole tab through explicitly given note tables: `source`
/// ascending source pitches, `enharmonics` duplicate spellings, `target`
/// the target instrument's slots. Returns the output text and the tokens
/// that could not be mapped.
pub fn transpose_tab_lines(
    tab: &str,
    semitones: i32,
    source: &Vec<String>,
    enharmonics: &Vec<(String, String)>,
    target: &Vec<String>,
) -> (r: (String, Vec<String>))
    ensures
        r.0@ == transpose_out_spec(
            tab@,
            strs_view(source@),
            pairs_view(enharmonics@),
            strs_view(target@),
            semitones as int,
        ),
        strs_view(r.1@) == transpose_errs_spec(
            tab@,
            strs_view(source@),
            pairs_view(enharmonics@),
            strs_view(target@),
            semitones as int,
        ),
{
    let ghost sv = strs_view(source@);
    let ghost ev = pairs_view(enharmonics@);
    let ghost gv = strs_view(target@);
    let ghost off = semitones as int;
    let chars = chars_of(tab);
    let lines = split_lines(&chars);
    let ghost lv = crate::text::lines_view(lines@);
    let mut out = String::new();
    let mut errs: Vec<String> = Vec::new();
    let mut k: usize = 0;
    proof {
        assert(lv.skip(0) =~= lv);
        assert(Seq::<char>::empty() + tab_out_spec(lv, sv, ev, gv, off) =~= tab_out_spec(
            lv,
            sv,
            ev,
            gv,
            off,
        ));
        assert(Seq::<Seq<char>>::empty() + tab_errs_spec(lv, sv, ev, gv, off) =~= tab_errs_spec(
            lv,
            sv,
            ev,
            gv,
            off,
        ));
    }
    while k < lines.len()
        invariant
            k <= lines.len(),
            sv == strs_view(source@),
            ev == pairs_view(enharmonics@),
            gv == strs_view(target@),
            off == semitones as int,
            lv == crate::text::lines_view(lines@),
            tab_out_spec(lv, sv, ev, gv, off) == out@ + tab_out_spec(
                lv.skip(k as int),
                sv,
                ev,
                gv,
                off,
            ),
            tab_errs_spec(lv, sv, ev, gv, off) == strs_view(errs@) + tab_errs_spec(
                lv.skip(k as int),
                sv,
                ev,
                gv,
                off,
            ),
        decreases lines.len() - k,
    {
        let ghost rest = lv.skip(k as int);
        proof {
            assert(rest[0] == lv[k as int]);
            assert(rest.drop_first() =~= lv.skip(k as int + 1));
        }
        let toks = split_tokens(&lines[k]);
        let ghost out0 = out@;
        let ghost errs0 = strs_view(errs@);
        transpose_line(&toks, source, enharmonics, target, semitones, &mut out, &mut errs);
        out.append("\n");
        proof {
            reveal_strlit("\n");
            assert("\n"@ =~= seq!['\n']);
            let lo = line_out_spec(tokens_spec(lv[k as int]), sv, ev, gv, off);
            let le = line_errs_spec(tokens_spec(lv[k as int]), sv, ev, gv, off);
            assert(out@ =~= out0 + (lo + seq!['\n']));
            assert(tab_out_spec(rest, sv, ev, gv, off) == lo + seq!['\n'] + tab_out_spec(
                rest.drop_first(),
                sv,
                ev,
                gv,
                off,
            ));
            assert(out0 + (lo + seq!['\n'] + tab_out_spec(rest.drop_first(), sv, ev, gv, off)) =~= (
            out0 + (lo + seq!['\n'])) + tab_out_spec(rest.drop_first(), sv, ev, gv, off));
            assert(strs_view(errs@) =~= errs0 + le);
            assert(tab_errs_spec(rest, sv, ev, gv, off) == le + tab_errs_spec(
                rest.drop_first(),
                sv,
                ev,
                gv,
                off,
            ));
            assert(errs0 + (le + tab_errs_spec(rest.drop_first(), sv, ev, gv, off)) =~= (errs0 + le)
                + tab_errs_spec(rest.drop_first(), sv, ev, gv, off));
        }
        k += 1;
    }
    proof {
        assert(tab_out_spec(lv.skip(k as int), sv, ev, gv, off) =~= Seq::<char>::empty());
        assert(tab_errs_spec(lv.skip(k as int), sv, ev, gv, off) =~= Seq::<Seq<char>>::empty());
        assert(out@ + Seq::<char>::empty() =~= out@);
        assert(strs_view(errs@) + Seq::<Seq<char>>::empty() =~= strs_view(errs@));
    }
    (out, errs)
}

/// A token table's first index finds the element standing there.
pub proof fn lemma_find_note_is(notes: Seq<Seq<char>>, tok: Seq<char>, m: int)
    requires
        0 <= m <= notes.len(),
        forall|k: int| 0 <= k < m ==> notes[k] != tok,
        m < notes.len() ==> notes[m] == tok,
    ensures
        find_note_spec(notes, tok) == m,
    decreases notes.len(),
{
    if notes.len() != 0 && notes[0] != tok {
        assert(forall|k: int| 0 <= k < m - 1 ==> notes.drop_first()[k] == notes[k + 1]);
        lemma_find_note_is(notes.drop_first(), tok, m - 1);
    }
}

pub proof fn lemma_find_note_bounds(notes: Seq<Seq<char>>, tok: Seq<char>)
    ensures
        find_note_spec(notes, tok) <= notes.len(),
        find_note_spec(notes, tok) < notes.len() ==> notes[find_note_spec(notes, tok) as int]
            == tok,
        forall|k: int| 0 <= k < find_note_spec(notes, tok) ==> notes[k] != tok,
    decreases notes.len(),
{
    if notes.len() != 0 && notes[0] != tok {
        lemma_find_note_bounds(notes.drop_first(), tok);
        assert(forall|k: int|
            0 < k < find_note_spec(notes, tok) ==> notes[k] == notes.drop_first()[k - 1]
                && notes.drop_first()[k - 1] != tok);
    }
}

/// Law: a recognized token is its own image under the zero offset, when
/// source and target share one note table.
pub proof fn lemma_map_note_identity(notes: Seq<Seq<char>>, tok: Seq<char>)
    requires
        notes.contains(tok),
    ensures
        map_note_spec(notes, notes, tok, 0) == Some(tok),
{
    lemma_find_note_bounds(notes, tok);
    let i = find_note_spec(notes, tok) as int;
    if i == notes.len() {
        let w = choose|w: int| 0 <= w < notes.len() && notes[w] == tok;
        assert(notes[w] == tok);
    }
}

/// Law: octave symmetry of the pitch mapper — over one duplicate-free note
/// table, a token that maps under offset `off` maps back to itself under
/// `-off`; in particular shifting by twelve and back returns every token.
pub proof fn lemma_map_note_round_trip(notes: Seq<Seq<char>>, tok: Seq<char>, off: int)
    requires
        forall|i: int, j: int| 0 <= i < j < notes.len() ==> notes[i] != notes[j],
        map_note_spec(notes, notes, tok, off) is Some,
    ensures
        map_note_spec(notes, notes, map_note_spec(notes, notes, tok, off)->Some_0, -off) == Some(
            tok,
        ),
{
    lemma_find_note_bounds(notes, tok);
    let i = find_note_spec(notes, tok) as int;
    let u = notes[i + off];
    assert forall|k: int| 0 <= k < i + off implies notes[k] != u by {
        assert(notes[k] != notes[i + off]);
    }
    lemma_find_note_is(notes, u, i + off);
    assert(notes[i] == tok);
}

/// Concatenating token lists concatenates their line output and their
/// unmapped-token lists.
pub proof fn lemma_line_concat(
    t1: Seq<Seq<char>>,
    t2: Seq<Seq<char>>,
    source: Seq<Seq<char>>,
    enh: Seq<(Seq<char>, Seq<char>)>,
    target: Seq<Seq<char>>,
    off: int,
)
    ensures
        line_out_spec(t1 + t2, source, enh, target, off) == line_out_spec(
            t1,
            source,
            enh,
            target,
            off,
        ) + line_out_spec(t2, source, enh, target, off),
        line_errs_spec(t1 + t2, source, enh, target, off) == line_errs_spec(
            t1,
            source,
            enh,
            target,
            off,
        ) + line_errs_spec(t2, source, enh, target, off),
    decreases t1.len(),
{
    if t1.len() == 0 {
        assert(t1 + t2 =~= t2);
        assert(Seq::<char>::empty() + line_out_spec(t2, source, enh, target, off) =~= line_out_spec(
            t2,
            source,
            enh,
            target,
            off,
        ));
        assert(Seq::<Seq<char>>::empty() + line_errs_spec(t2, source, enh, target, off)
            =~= line_errs_spec(t2, source, enh, target, off));
    } else {
        assert((t1 + t2).drop_first() =~= t1.drop_first() + t2);
        assert((t1 + t2)[0] == t1[0]);
        lemma_line_concat(t1.drop_first(), t2, source, enh, target, off);
        let o1r = line_out_spec(t1.drop_first(), source, enh, target, off);
        let o2 = line_out_spec(t2, source, enh, target, off);
        let e1r = line_errs_spec(t1.drop_first(), source, enh, target, off);
        let e2 = line_errs_spec(t2, source, enh, target, off);
        match map_note_spec(source, target, normalize_spec(enh, t1[0]), off) {
            Some(t) => {
                assert(t + seq![' '] + (o1r + o2) =~= (t + seq![' '] + o1r) + o2);
            },
            None => {
                assert(seq![t1[0]] + (e1r + e2) =~= (seq![t1[0]] + e1r) + e2);
            },
        }
    }
}

/// A line whose every token maps reports nothing as unmapped.
pub proof fn lemma_line_all_mapped(
    toks: Seq<Seq<char>>,
    source: Seq<Seq<char>>,
    enh: Seq<(Seq<char>, Seq<char>)>,
    target: Seq<Seq<char>>,
    off: int,
)
    requires
        forall|k: int|
            0 <= k < toks.len() ==> map_note_spec(
                source,
                target,
                normalize_spec(enh, #[trigger] toks[k]),
                off,
            ) is Some,
    ensures
        line_errs_spec(toks, source, enh, target, off) == Seq::<Seq<char>>::empty(),
    decreases toks.len(),
{
    if toks.len() != 0 {
        assert(forall|k: int| 0 <= k < toks.len() - 1 ==> toks.drop_first()[k] == toks[k + 1]);
        lemma_line_all_mapped(toks.drop_first(), source, enh, target, off);
    }
}

/// Law: non-fatal degradation — in a line whose tokens all map except one,
/// exactly that token is reported unmapped, and the output is what the
/// mappable tokens alone produce.
pub proof fn lemma_single_unmapped_token(
    pre: Seq<Seq<char>>,
    bad: Seq<char>,
    post: Seq<Seq<char>>,
    source: Seq<Seq<char>>,
    enh: Seq<(Seq<char>, Seq<char>)>,
    target: Seq<Seq<char>>,
    off: int,
)
    requires
        forall|k: int|
            0 <= k < pre.len() ==> map_note_spec(
                source,
                target,
                normalize_spec(enh, #[trigger] pre[k]),
                off,
            ) is Some,
        forall|k: int|
            0 <= k < post.len() ==> map_note_spec(
                source,
                target,
                normalize_spec(enh, #[trigger] post[k]),
                off,
            ) is Some,
        map_note_spec(source, target, normalize_spec(enh, bad), off) is None,
    ensures
        line_errs_spec(pre + seq![bad] + post, source, enh, target, off) == seq![bad],
        line_out_spec(pre + seq![bad] + post, source, enh, target, off) == line_out_spec(
            pre,
            source,
            enh,
            target,
            off,
        ) + line_out_spec(post, source, enh, target, off),
{
    lemma_line_concat(pre + seq![bad], post, source, enh, target, off);
    lemma_line_concat(pre, seq![bad], source, enh, target, off);
    lemma_line_all_mapped(pre, source, enh, target, off);
    lemma_line_all_mapped(post, source, enh, target, off);
    let s = seq![bad];
    assert(s.len() == 1 && s[0] == bad);
    assert(s.drop_first() =~= Seq::<Seq<char>>::empty());
    assert(line_errs_spec(s.drop_first(), source, enh, target, off)
        == Seq::<Seq<char>>::empty());
    assert(line_out_spec(s.drop_first(), source, enh, target, off) == Seq::<char>::empty());
    assert(line_errs_spec(s, source, enh, target, off) == seq![bad] + Seq::<Seq<char>>::empty());
    assert(line_out_spec(s, source, enh, target, off) == Seq::<char>::empty());
    assert(Seq::<Seq<char>>::empty() + seq![bad] =~= seq![bad]);
    assert(seq![bad] + Seq::<Seq<char>>::empty() =~= seq![bad]);
    let op = line_out_spec(pre, source, enh, target, off);
    assert(op + Seq::<char>::empty() =~= op);
}

/// The output of one line never contains a newline, as long as no target
/// token does.
pub proof fn lemma_line_out_no_newline(
    toks: Seq<Seq<char>>,
    source: Seq<Seq<char>>,
    enh: Seq<(Seq<char>, Seq<char>)>,
    target: Seq<Seq<char>>,
    off: int,
)
    requires
        forall|k: int| 0 <= k < target.len() ==> !(#[trigger] target[k]).contains('\n'),
    ensures
        !line_out_spec(toks, source, enh, target, off).contains('\n'),
    decreases toks.len(),
{
    if toks.len() != 0 {
        lemma_line_out_no_newline(toks.drop_first(), source, enh, target, off);
        let rest = line_out_spec(toks.drop_first(), source, enh, target, off);
        match map_note_spec(source, target, normalize_spec(enh, toks[0]), off) {
            Some(t) => {
                let s = t + seq![' '] + rest;
                assert forall|i: int| 0 <= i < s.len() implies s[i] != '\n' by {
                    if i < t.len() {
                        assert(s[i] == t[i]);
                        assert(!t.contains('\n'));
                    } else if i == t.len() {
                        assert(s[i] == ' ');
                    } else {
                        assert(s[i] == rest[i - t.len() - 1]);
                    }
                }
            },
            None => {},
        }
    }
}

/// Law: line-count preservation over explicit note tables — the assembled
/// text splits back into exactly one line per input line.
pub proof fn lemma_tab_out_line_count(
    lines: Seq<Seq<char>>,
    source: Seq<Seq<char>>,
    enh: Seq<(Seq<char>, Seq<char>)>,
    target: Seq<Seq<char>>,
    off: int,
)
    requires
        forall|k: int| 0 <= k < target.len() ==> !(#[trigger] target[k]).contains('\n'),
    ensures
        split_lines_spec(tab_out_spec(lines, source, enh, target, off)).len() == lines.len(),
    decreases lines.len(),
{
    if lines.len() != 0 {
        let lo = line_out_spec(tokens_spec(lines[0]), source, enh, target, off);
        lemma_line_out_no_newline(tokens_spec(lines[0]), source, enh, target, off);
        lemma_tab_out_line_count(lines.drop_first(), source, enh, target, off);
        crate::text::lemma_split_lines_step(
            lo,
            tab_out_spec(lines.drop_first(), source, enh, target, off),
        );
    }
}

/// Law: line-count preservation — for every tab, offset, tuning identifier
/// and style, the transposed text has exactly as many lines as the tab.
pub proof fn lemma_transpose_line_count(tab: Seq<char>, off: int, id: Seq<char>, style: TabStyle)
    ensures
        split_lines_spec(
            transpose_out_spec(
                tab,
                tuning_notes_spec(id),
                tuning_enharmonics_spec(id),
                kalimba_layout_spec(style),
                off,
            ),
        ).len() == split_lines_spec(tab).len(),
{
    crate::kalimba::lemma_layout_no_newline(style);
    lemma_tab_out_line_count(
        split_lines_spec(tab),
        tuning_notes_spec(id),
        tuning_enharmonics_spec(id),
        kalimba_layout_spec(style),
        off,
    );
}

/// Transposes a whole harmonica tab by `semitones` into kalimba notation in
/// the chosen style, resolving the tuning by its identifier. Returns the
/// transposed text (one output line per input line) and the tokens that
/// could not be mapped, in order of appearance.
pub fn transpose_tabs(tab: &str, semitones: i32, input_tuning: &str, tab_style: TabStyle) -> (r: (
    String,
    Vec<String>,
))
    ensures
        r.0@ == transpose_out_spec(
            tab@,
            tuning_notes_spec(input_tuning@),
            tuning_enharmonics_spec(input_tuning@),
            kalimba_layout_spec(tab_style),
            semitones as int,
        ),
        strs_view(r.1@) == transpose_errs_spec(
            tab@,
            tuning_notes_spec(input_tuning@),
            tuning_enharmonics_spec(input_tuning@),
            kalimba_layout_spec(tab_style),
            semitones as int,
        ),
{
    let tuning = resolve_tuning(input_tuning);
    let target = kalimba_layout(tab_style);
    transpose_tab_lines(tab, semitones, &tuning.notes, &tuning.enharmonics, &target)
}

} // verus!
