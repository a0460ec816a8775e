//! Properties of the reflow engine, proved over its specification.
use vstd::prelude::*;
use crate::text::{
    lemma_trim_end_len, spec_all_ws, spec_last_non_ws, spec_trim, spec_trim_end, spec_trim_end_len,
    spec_trim_indent, spec_trim_start, spec_ws,
};
use crate::punct_sets::spec_visual_divider;
use crate::reflow_helper::{
    spec_collapse_segments, spec_collapse_words, spec_emit, spec_first_phrase, spec_flush,
    spec_initial, spec_join, spec_line_visual, spec_metadata, spec_page_marker, spec_reflow,
    spec_reflow_segments, spec_run, spec_run_end, spec_split_lines, spec_step, spec_unify_breaks,
    spec_words, Flow,
};
use crate::cjk_text::spec_strip_halfwidth_indent;

verus! {

/// What a raw line contributes as a segment: its visual form for a divider,
/// its collapsed form otherwise.
pub open spec fn spec_line_form(raw: Seq<char>) -> Seq<char> {
    let v = spec_line_visual(raw);
    if spec_visual_divider(spec_trim_indent(v)) {
        v
    } else {
        spec_collapse_segments(v)
    }
}

/// Segments laid out one per line with a blank line between neighbours.
pub open spec fn spec_interleave_blank(segs: Seq<Seq<char>>) -> Seq<Seq<char>>
    decreases segs.len(),
{
    if segs.len() <= 1 {
        segs
    } else {
        spec_interleave_blank(segs.drop_last()).push(Seq::empty()).push(segs.last())
    }
}

proof fn lemma_trim_start_keeps(t: Seq<char>, j: int)
    requires
        0 <= j < t.len(),
        !spec_ws(t[j]),
    ensures
        !spec_all_ws(spec_trim_start(t)),
    decreases t.len(),
{
    if t.len() > 0 && spec_ws(t[0]) {
        assert(t.drop_first()[j - 1] == t[j]);
        lemma_trim_start_keeps(t.drop_first(), j - 1);
    } else {
        assert(!spec_ws(spec_trim_start(t)[j]));
    }
}

proof fn lemma_trim_not_blank(s: Seq<char>)
    requires
        !spec_all_ws(s),
    ensures
        !spec_all_ws(spec_trim(s)),
{
    lemma_trim_end_len(s);
    let n = spec_trim_end_len(s) as int;
    let t = spec_trim_end(s);
    assert(t[n - 1] == s[n - 1]);
    lemma_trim_start_keeps(t, n - 1);
}

proof fn lemma_words(s: Seq<char>)
    ensures
        forall|i: int| 0 <= i < spec_words(s).len() ==> (#[trigger] spec_words(s)[i]).len() > 0,
        !spec_all_ws(s) ==> spec_words(s).len() > 0,
    decreases s.len(),
{
    if s.len() > 0 {
        let d = s.drop_last();
        lemma_words(d);
        let c = s.last();
        let w = spec_words(d);
        if !spec_ws(c) && s.len() >= 2 && !spec_ws(s[s.len() - 2]) {
            assert(d[d.len() - 1] == s[s.len() - 2]);
            assert(!spec_all_ws(d));
            let r = w.drop_last().push(w.last().push(c));
            assert(spec_words(s) == r);
            assert forall|i: int| 0 <= i < r.len() implies (#[trigger] r[i]).len() > 0 by {
                if i < r.len() - 1 {
                    assert(r[i] == w[i]);
                }
            }
        } else if !spec_ws(c) {
            let r = w.push(seq![c]);
            assert(spec_words(s) == r);
            assert forall|i: int| 0 <= i < r.len() implies (#[trigger] r[i]).len() > 0 by {
                if i < r.len() - 1 {
                    assert(r[i] == w[i]);
                }
            }
        }
        if spec_ws(c) && !spec_all_ws(s) {
            let k = choose|k: int| 0 <= k < s.len() && !spec_ws(#[trigger] s[k]);
            assert(d[k] == s[k]);
        }
    }
}

proof fn lemma_run_end_bounds(p: Seq<Seq<char>>, start: int, len: int, pos: int)
    requires
        pos <= p.len(),
    ensures
        pos <= spec_run_end(p, start, len, pos) <= p.len(),
    decreases p.len() - pos,
{
    if 1 <= len && 0 <= start && start + len <= p.len() && start <= pos && pos + len <= p.len()
        && p.subrange(pos, pos + len) == p.subrange(start, start + len) {
        lemma_run_end_bounds(p, start, len, pos + len);
    }
}

proof fn lemma_first_phrase_bounds(p: Seq<Seq<char>>, start: int, len: int)
    ensures
        spec_first_phrase(p, start, len) matches Some((st, ln)) ==> 0 <= st && 1 <= ln && st + ln
            <= p.len(),
    decreases p.len() - start, 9 - len,
{
    if start < 0 || start >= p.len() || len < 1 {
    } else if len > 8 || start + len > p.len() {
        lemma_first_phrase_bounds(p, start + 1, 1);
    } else if spec_run_end(p, start, len, start + len) >= start + 3 * len {
    } else {
        lemma_first_phrase_bounds(p, start, len + 1);
    }
}

proof fn lemma_collapse_words_head(p: Seq<Seq<char>>)
    requires
        p.len() > 0,
    ensures
        spec_collapse_words(p).len() > 0,
        spec_collapse_words(p)[0] == p[0],
{
    lemma_first_phrase_bounds(p, 0, 1);
    match spec_first_phrase(p, 0, 1) {
        Some((st, ln)) => {
            lemma_run_end_bounds(p, st, ln, st + ln);
        },
        None => {},
    }
}

proof fn lemma_first_unit(s: Seq<char>, u: int)
    ensures
        crate::reflow_helper::spec_first_unit(s, u) == 0 || (u <= crate::reflow_helper::spec_first_unit(s, u)
            <= (s.len() as int) / 3),
    decreases 11 - u,
{
    if u < 1 || u > 10 || u > (s.len() as int) / 3 {
    } else if (s.len() as int) % u == 0 && crate::reflow_helper::spec_periodic(s, u) {
    } else {
        lemma_first_unit(s, u + 1);
    }
}

proof fn lemma_join_nonempty(parts: Seq<Seq<char>>, sep: Seq<char>)
    requires
        parts.len() > 0,
        parts[0].len() > 0,
    ensures
        spec_join(parts, sep).len() > 0,
    decreases parts.len(),
{
    if parts.len() > 1 {
        assert(parts.drop_last()[0] == parts[0]);
        lemma_join_nonempty(parts.drop_last(), sep);
    }
}

/// A line that is not blank contributes a non-empty segment.
proof fn lemma_form_nonempty(raw: Seq<char>)
    requires
        !spec_all_ws(spec_line_visual(raw)),
    ensures
        spec_line_form(raw).len() > 0,
{
    let v = spec_line_visual(raw);
    if !spec_visual_divider(spec_trim_indent(v)) {
        lemma_trim_not_blank(v);
        let w = spec_words(spec_trim(v));
        lemma_words(spec_trim(v));
        lemma_collapse_words_head(w);
        let c = spec_collapse_words(w);
        let toks = c.map_values(|x: Seq<char>| crate::reflow_helper::spec_collapse_token(x));
        assert(toks[0] == crate::reflow_helper::spec_collapse_token(w[0]));
        lemma_first_unit(w[0], 4);
        lemma_join_nonempty(toks, seq![' ']);
    } else {
        let k = choose|k: int| 0 <= k < v.len() && !spec_ws(#[trigger] v[k]);
    }
}

/// With an empty buffer, a non-blank line is either emitted at once or
/// becomes the buffer.
proof fn lemma_step_from_empty(f: Flow, raw: Seq<char>, keep_gaps: bool)
    requires
        f.buffer.len() == 0,
        !spec_all_ws(spec_line_visual(raw)),
    ensures
        ({
            let g = spec_step(f, raw, keep_gaps);
            (g.segments == f.segments.push(spec_line_form(raw)) && g.buffer.len() == 0) || (
            g.segments == f.segments && g.buffer == spec_line_form(raw))
        }),
{
}

proof fn lemma_run_push(lines: Seq<Seq<char>>, l: Seq<char>, keep_gaps: bool)
    ensures
        spec_run(lines.push(l), keep_gaps) == spec_step(spec_run(lines, keep_gaps), l, keep_gaps),
{
    assert(lines.push(l).drop_last() =~= lines);
}

/// A divider line between two text lines gives three segments: the text
/// before, the divider, the text after, whether or not page gaps are kept.
pub proof fn law_divider_splits(a: Seq<char>, d: Seq<char>, b: Seq<char>, keep_gaps: bool)
    requires
        !spec_all_ws(spec_line_visual(a)),
        !spec_all_ws(spec_line_visual(b)),
        spec_visual_divider(spec_trim_indent(spec_line_visual(d))),
    ensures
        spec_reflow_segments(seq![a, d, b], keep_gaps) == seq![
            spec_line_form(a),
            spec_line_visual(d),
            spec_line_form(b),
        ],
{
    let l0: Seq<Seq<char>> = Seq::empty();
    assert(seq![a] =~= l0.push(a));
    assert(seq![a, d] =~= seq![a].push(d));
    assert(seq![a, d, b] =~= seq![a, d].push(b));
    lemma_run_push(l0, a, keep_gaps);
    lemma_run_push(seq![a], d, keep_gaps);
    lemma_run_push(seq![a, d], b, keep_gaps);
    lemma_form_nonempty(a);
    lemma_form_nonempty(b);
    let f0 = spec_run(l0, keep_gaps);
    assert(f0 == spec_initial());
    lemma_step_from_empty(f0, a, keep_gaps);
    let f1 = spec_run(seq![a], keep_gaps);
    let f2 = spec_run(seq![a, d], keep_gaps);
    assert(f2.buffer.len() == 0);
    assert(f2.segments =~= seq![spec_line_form(a), spec_line_visual(d)]);
    lemma_step_from_empty(f2, b, keep_gaps);
    let f3 = spec_run(seq![a, d, b], keep_gaps);
    assert(spec_flush(f3).segments =~= seq![
        spec_line_form(a),
        spec_line_visual(d),
        spec_line_form(b),
    ]);
}

/// The run over laid-out segments has every segment but possibly the last
/// finished, and the last one in the buffer otherwise.
proof fn lemma_run_interleaved(segs: Seq<Seq<char>>)
    requires
        segs.len() > 0,
        forall|i: int| 0 <= i < segs.len() ==> !spec_all_ws(spec_line_visual(#[trigger] segs[i])),
        forall|i: int| 0 <= i < segs.len() ==> spec_line_form(#[trigger] segs[i]) == segs[i],
    ensures
        ({
            let f = spec_run(spec_interleave_blank(segs), true);
            (f.buffer.len() == 0 && f.segments == segs) || (f.segments == segs.drop_last()
                && f.buffer == segs.last())
        }),
    decreases segs.len(),
{
    let n = segs.len();
    let last = segs[n - 1];
    if n == 1 {
        let l0: Seq<Seq<char>> = Seq::empty();
        assert(spec_interleave_blank(segs) =~= l0.push(segs[0]));
        lemma_run_push(l0, segs[0], true);
        lemma_step_from_empty(spec_initial(), segs[0], true);
        assert(l0.push(segs[0]) =~= segs);
    } else {
        let prev = segs.drop_last();
        assert forall|i: int| 0 <= i < prev.len() implies !spec_all_ws(
            spec_line_visual(#[trigger] prev[i]),
        ) by {
            assert(prev[i] == segs[i]);
        }
        assert forall|i: int| 0 <= i < prev.len() implies spec_line_form(#[trigger] prev[i])
            == prev[i] by {
            assert(prev[i] == segs[i]);
        }
        lemma_run_interleaved(prev);
        let lp = spec_interleave_blank(prev);
        let e: Seq<char> = Seq::empty();
        lemma_run_push(lp, e, true);
        lemma_run_push(lp.push(e), last, true);
        let g = spec_run(lp.push(e), true);
        assert(spec_line_visual(e) =~= e) by {
            assert(spec_trim_end(e) =~= e);
        }
        assert(!spec_visual_divider(spec_trim_indent(spec_line_visual(e))));
        lemma_form_nonempty(prev.last());
        assert(g.buffer.len() == 0);
        assert(g.segments =~= prev);
        lemma_step_from_empty(g, last, true);
        assert(prev.push(last) =~= segs);
    }
}

/// Reflowing segments laid out with blank lines between them, with page gaps
/// kept, gives back the same segments, provided each is non-blank and
/// already in normal form.
pub proof fn law_reflow_round_trip(segs: Seq<Seq<char>>)
    requires
        forall|i: int| 0 <= i < segs.len() ==> !spec_all_ws(spec_line_visual(#[trigger] segs[i])),
        forall|i: int| 0 <= i < segs.len() ==> spec_line_form(#[trigger] segs[i]) == segs[i],
    ensures
        spec_reflow_segments(spec_interleave_blank(segs), true) == segs,
{
    if segs.len() > 0 {
        lemma_run_interleaved(segs);
        lemma_form_nonempty(segs.last());
        assert(segs.drop_last().push(segs.last()) =~= segs);
    } else {
        assert(spec_interleave_blank(segs) =~= segs);
    }
}

/// Whitespace-only text comes back unchanged.
pub proof fn law_whitespace_unchanged(text: Seq<char>, keep_gaps: bool, compact: bool)
    requires
        spec_all_ws(text),
    ensures
        spec_reflow(text, keep_gaps, compact) == text,
{
}

/// A page-marker line is emitted on its own whatever the state: the buffer
/// is flushed first, and the marker is never joined to anything.
pub proof fn law_page_marker_standalone(f: Flow, raw: Seq<char>, keep_gaps: bool)
    requires
        !spec_all_ws(spec_line_visual(raw)),
        !spec_visual_divider(spec_trim_indent(spec_line_visual(raw))),
        spec_page_marker(spec_trim_indent(spec_line_form(raw))),
    ensures
        spec_step(f, raw, keep_gaps) == spec_emit(spec_flush(f), spec_line_form(raw)),
        spec_step(f, raw, keep_gaps).buffer.len() == 0,
{
}

/// A metadata line is emitted on its own whatever the buffer holds, even
/// mid-sentence.
pub proof fn law_metadata_standalone(f: Flow, raw: Seq<char>, keep_gaps: bool)
    requires
        !spec_all_ws(spec_line_visual(raw)),
        !spec_visual_divider(spec_trim_indent(spec_line_visual(raw))),
        spec_metadata(spec_line_form(raw)),
    ensures
        spec_step(f, raw, keep_gaps) == spec_emit(spec_flush(f), spec_line_form(raw)),
        spec_step(f, raw, keep_gaps).buffer.len() == 0,
{
}

/// A single line: no line feed and no carriage return.
pub open spec fn spec_single_line(s: Seq<char>) -> bool {
    forall|i: int| 0 <= i < s.len() ==> #[trigger] s[i] != '\n' && s[i] != '\r'
}

proof fn lemma_unify_identity(s: Seq<char>)
    requires
        forall|i: int| 0 <= i < s.len() ==> #[trigger] s[i] != '\r',
    ensures
        spec_unify_breaks(s) == s,
    decreases s.len(),
{
    if s.len() > 0 {
        let t = s.drop_first();
        assert forall|i: int| 0 <= i < t.len() implies #[trigger] t[i] != '\r' by {
            assert(t[i] == s[i + 1]);
        }
        lemma_unify_identity(t);
        assert(seq![s[0]] + t =~= s);
    }
}

proof fn lemma_split_append(p: Seq<char>, t: Seq<char>)
    requires
        forall|i: int| 0 <= i < t.len() ==> #[trigger] t[i] != '\n',
    ensures
        spec_split_lines(p + t) == spec_split_lines(p).drop_last().push(
            spec_split_lines(p).last() + t,
        ),
    decreases t.len(),
{
    crate::reflow_helper::lemma_split_lines_nonempty(p);
    if t.len() == 0 {
        assert(p + t =~= p);
        assert(spec_split_lines(p).last() + t =~= spec_split_lines(p).last());
        assert(spec_split_lines(p).drop_last().push(spec_split_lines(p).last()) =~= spec_split_lines(p));
    } else {
        let t2 = t.drop_last();
        assert forall|i: int| 0 <= i < t2.len() implies #[trigger] t2[i] != '\n' by {
            assert(t2[i] == t[i]);
        }
        lemma_split_append(p, t2);
        assert((p + t).drop_last() =~= p + t2);
        assert((p + t).last() == t.last());
        assert((spec_split_lines(p).last() + t2).push(t.last()) =~= spec_split_lines(p).last() + t);
    }
}

/// The separator of spaced output: a blank line.
pub open spec fn spec_paragraph_sep() -> Seq<char> {
    seq!['\n', '\n']
}

proof fn lemma_join_parts(segs: Seq<Seq<char>>)
    requires
        segs.len() > 0,
        forall|i: int| 0 <= i < segs.len() ==> spec_single_line(#[trigger] segs[i]),
    ensures
        spec_split_lines(spec_join(segs, spec_paragraph_sep())) == spec_interleave_blank(segs),
        forall|i: int|
            0 <= i < spec_join(segs, spec_paragraph_sep()).len() ==> #[trigger] spec_join(
                segs,
                spec_paragraph_sep(),
            )[i] != '\r',
    decreases segs.len(),
{
    let sep = spec_paragraph_sep();
    let last = segs.last();
    assert(spec_single_line(segs[segs.len() - 1]));
    assert forall|i: int| 0 <= i < last.len() implies #[trigger] last[i] != '\n' by {}
    if segs.len() == 1 {
        let e: Seq<char> = Seq::empty();
        lemma_split_append(e, last);
        assert(e + last =~= last);
        assert(spec_split_lines(e) =~= seq![e]);
        assert(seq![e].drop_last().push(e + last) =~= seq![last]);
        assert(seq![last] =~= segs);
    } else {
        let prev = segs.drop_last();
        assert forall|i: int| 0 <= i < prev.len() implies spec_single_line(#[trigger] prev[i]) by {
            assert(prev[i] == segs[i]);
        }
        lemma_join_parts(prev);
        let x = spec_join(prev, sep);
        let xs = x + sep;
        let y = x.push('\n');
        let z = y.push('\n');
        assert(xs =~= z);
        assert(y.drop_last() =~= x);
        assert(z.drop_last() =~= y);
        assert(spec_split_lines(y) == spec_split_lines(x).push(Seq::empty()));
        assert(spec_split_lines(z) == spec_split_lines(y).push(Seq::empty()));
        assert(spec_split_lines(xs) == spec_split_lines(x).push(Seq::empty()).push(Seq::empty()));
        lemma_split_append(xs, last);
        let e: Seq<char> = Seq::empty();
        assert(e + last =~= last);
        assert(spec_split_lines(xs).drop_last().push(e + last) =~= spec_interleave_blank(prev).push(
            e,
        ).push(last));
        let j = spec_join(segs, sep);
        assert(j =~= xs + last);
        assert forall|i: int| 0 <= i < j.len() implies #[trigger] j[i] != '\r' by {
            if i < x.len() {
                assert(j[i] == x[i]);
            } else if i < xs.len() {
            } else {
                assert(j[i] == last[i - xs.len()]);
            }
        }
    }
}

proof fn lemma_join_ends_with_last(segs: Seq<Seq<char>>, sep: Seq<char>)
    requires
        segs.len() > 0,
    ensures
        ({
            let j = spec_join(segs, sep);
            let l = segs.last();
            j.len() >= l.len() && j.subrange(j.len() - l.len(), j.len() as int) == l
        }),
{
    let j = spec_join(segs, sep);
    let l = segs.last();
    if segs.len() > 1 {
        assert(j.subrange(j.len() - l.len(), j.len() as int) =~= l);
    } else {
        assert(j.subrange(0, j.len() as int) =~= l);
    }
}

proof fn lemma_strip_halfwidth_keeps(t: Seq<char>, j: int)
    requires
        0 <= j < t.len(),
        !spec_ws(t[j]),
    ensures
        !spec_all_ws(spec_strip_halfwidth_indent(t)),
    decreases t.len(),
{
    if t.len() > 0 && t[0] == ' ' {
        assert(j > 0);
        assert(t.drop_first()[j - 1] == t[j]);
        lemma_strip_halfwidth_keeps(t.drop_first(), j - 1);
    } else {
        assert(!spec_ws(spec_strip_halfwidth_indent(t)[j]));
    }
}

proof fn lemma_visual_not_blank(s: Seq<char>)
    requires
        !spec_all_ws(s),
    ensures
        !spec_all_ws(spec_line_visual(s)),
{
    lemma_trim_end_len(s);
    let n = spec_trim_end_len(s) as int;
    let t = spec_trim_end(s);
    assert(t[n - 1] == s[n - 1]);
    lemma_strip_halfwidth_keeps(t, n - 1);
}

/// Reflowed text in spaced form, reflowed again with page gaps kept, comes
/// back unchanged: each segment is a non-blank single line already in normal
/// form.
pub proof fn law_spaced_text_round_trip(segs: Seq<Seq<char>>)
    requires
        forall|i: int| 0 <= i < segs.len() ==> !spec_all_ws(#[trigger] segs[i]),
        forall|i: int| 0 <= i < segs.len() ==> spec_single_line(#[trigger] segs[i]),
        forall|i: int| 0 <= i < segs.len() ==> spec_line_form(#[trigger] segs[i]) == segs[i],
    ensures
        spec_reflow(spec_join(segs, seq!['\n', '\n']), true, false) == spec_join(
            segs,
            seq!['\n', '\n'],
        ),
{
    let sep = seq!['\n', '\n'];
    let text = spec_join(segs, sep);
    if segs.len() > 0 {
        lemma_join_parts(segs);
        lemma_unify_identity(text);
        assert forall|i: int| 0 <= i < segs.len() implies !spec_all_ws(
            spec_line_visual(#[trigger] segs[i]),
        ) by {
            lemma_visual_not_blank(segs[i]);
        }
        law_reflow_round_trip(segs);
        let l = segs.last();
        assert(!spec_all_ws(segs[segs.len() - 1]));
        let k = choose|k: int| 0 <= k < l.len() && !spec_ws(#[trigger] l[k]);
        lemma_join_ends_with_last(segs, sep);
        assert(text[text.len() - l.len() + k] == text.subrange(text.len() - l.len(), text.len() as int)[k]);
        assert(!spec_all_ws(text));
    }
}

/// Segments are only ever added at the end.
proof fn lemma_step_extends(f: Flow, raw: Seq<char>, keep_gaps: bool)
    ensures
        ({
            let g = spec_step(f, raw, keep_gaps);
            g.segments.len() >= f.segments.len() && g.segments.take(f.segments.len() as int)
                == f.segments
        }),
{
    let g = spec_step(f, raw, keep_gaps);
    assert(g.segments.take(f.segments.len() as int) =~= f.segments);
}

proof fn lemma_run_keeps(lines: Seq<Seq<char>>, k: int, keep_gaps: bool, j: int, seg: Seq<char>)
    requires
        0 <= k <= lines.len(),
        0 <= j < spec_run(lines.take(k), keep_gaps).segments.len(),
        spec_run(lines.take(k), keep_gaps).segments[j] == seg,
    ensures
        j < spec_run(lines, keep_gaps).segments.len(),
        spec_run(lines, keep_gaps).segments[j] == seg,
    decreases lines.len() - k,
{
    if k == lines.len() {
        assert(lines.take(k) =~= lines);
    } else {
        let f = spec_run(lines.take(k), keep_gaps);
        lemma_run_push(lines.take(k), lines[k], keep_gaps);
        assert(lines.take(k).push(lines[k]) =~= lines.take(k + 1));
        lemma_step_extends(f, lines[k], keep_gaps);
        let g = spec_run(lines.take(k + 1), keep_gaps);
        assert(g.segments.take(f.segments.len() as int)[j] == g.segments[j]);
        lemma_run_keeps(lines, k + 1, keep_gaps, j, seg);
    }
}

/// A page-marker line appears in the output as a segment of its own.
pub proof fn law_page_marker_kept(lines: Seq<Seq<char>>, i: int, keep_gaps: bool)
    requires
        0 <= i < lines.len(),
        !spec_all_ws(spec_line_visual(lines[i])),
        !spec_visual_divider(spec_trim_indent(spec_line_visual(lines[i]))),
        spec_page_marker(spec_trim_indent(spec_line_form(lines[i]))),
    ensures
        exists|j: int|
            0 <= j < spec_reflow_segments(lines, keep_gaps).len() && #[trigger] spec_reflow_segments(
                lines,
                keep_gaps,
            )[j] == spec_line_form(lines[i]),
{
    let f = spec_run(lines.take(i), keep_gaps);
    lemma_run_push(lines.take(i), lines[i], keep_gaps);
    assert(lines.take(i).push(lines[i]) =~= lines.take(i + 1));
    law_page_marker_standalone(f, lines[i], keep_gaps);
    let g = spec_run(lines.take(i + 1), keep_gaps);
    let j = g.segments.len() - 1;
    lemma_run_keeps(lines, i + 1, keep_gaps, j, spec_line_form(lines[i]));
    let h = spec_run(lines, keep_gaps);
    assert(g.segments[j] == spec_line_form(lines[i]));
    assert(h.segments[j] == spec_line_form(lines[i]));
    if h.buffer.len() > 0 {
        assert(spec_flush(h).segments == h.segments.push(h.buffer));
        assert(h.segments.push(h.buffer)[j] == h.segments[j]);
    }
    assert(spec_reflow_segments(lines, keep_gaps) == spec_flush(h).segments);
    assert(spec_reflow_segments(lines, keep_gaps)[j] == spec_line_form(lines[i]));
}

/// Ten box-drawing dashes.
pub open spec fn spec_dash_line() -> Seq<char> {
    seq!['─', '─', '─', '─', '─', '─', '─', '─', '─', '─']
}

/// A line of ten box-drawing dashes between two text lines gives three
/// segments, whether or not page gaps are kept.
pub proof fn law_dash_line_splits(a: Seq<char>, b: Seq<char>, keep_gaps: bool)
    requires
        !spec_all_ws(spec_line_visual(a)),
        !spec_all_ws(spec_line_visual(b)),
    ensures
        spec_reflow_segments(seq![a, spec_dash_line(), b], keep_gaps) == seq![
            spec_line_form(a),
            spec_dash_line(),
            spec_line_form(b),
        ],
{
    let d = spec_dash_line();
    assert(spec_trim_end_len(d) == d.len());
    assert(spec_trim_end(d) =~= d);
    assert(spec_strip_halfwidth_indent(d) == d);
    assert(spec_line_visual(d) == d);
    assert(spec_trim_indent(d) == d);
    reveal_with_fuel(crate::punct_sets::spec_non_ws_count, 11);
    assert(d.drop_last() =~= seq!['─', '─', '─', '─', '─', '─', '─', '─', '─']);
    assert(d.drop_last().drop_last() =~= seq!['─', '─', '─', '─', '─', '─', '─', '─']);
    assert(crate::punct_sets::spec_non_ws_count(d) >= 3);
    assert(spec_visual_divider(d));
    law_divider_splits(a, d, b, keep_gaps);
}

/// The line 書名：三體.
pub open spec fn spec_book_title_line() -> Seq<char> {
    seq!['書', '名', '：', '三', '體']
}

/// The line 書名：三體 is metadata, emitted on its own whatever the buffer
/// holds.
pub proof fn law_book_title_line_standalone(f: Flow, keep_gaps: bool)
    ensures
        spec_step(f, spec_book_title_line(), keep_gaps) == spec_emit(
            spec_flush(f),
            spec_book_title_line(),
        ),
{
    let l = spec_book_title_line();
    assert(spec_trim_end_len(l) == 5);
    assert(spec_trim_end(l) =~= l);
    assert(spec_strip_halfwidth_indent(l) == l);
    assert(spec_line_visual(l) == l);
    assert(!spec_ws(l[0]));
    assert(!spec_all_ws(l));
    assert(spec_trim_indent(l) == l);
    assert(!spec_visual_divider(l)) by {
        assert(!spec_ws(l[0]) && !crate::punct_sets::spec_divider_glyph(l[0]));
    }
    assert(spec_trim_start(l) == l);
    assert(spec_trim(l) == l);
    reveal_with_fuel(spec_words, 6);
    assert(l.drop_last() =~= seq!['書', '名', '：', '三']);
    assert(l.drop_last().drop_last() =~= seq!['書', '名', '：']);
    assert(l.drop_last().drop_last().drop_last() =~= seq!['書', '名']);
    assert(l.drop_last().drop_last().drop_last().drop_last() =~= seq!['書']);
    let e: Seq<char> = Seq::empty();
    assert(seq!['書'].drop_last() =~= e);
    assert(spec_words(e).len() == 0);
    assert(spec_words(seq!['書']) =~= seq![seq!['書']]);
    assert(seq!['書', '名'].drop_last() =~= seq!['書']);
    assert(seq!['書'].push('名') =~= seq!['書', '名']);
    assert(spec_words(seq!['書', '名']) =~= seq![seq!['書', '名']]);
    assert(seq!['書', '名', '：'].drop_last() =~= seq!['書', '名']);
    assert(seq!['書', '名'].push('：') =~= seq!['書', '名', '：']);
    assert(spec_words(seq!['書', '名', '：']) =~= seq![seq!['書', '名', '：']]);
    assert(seq!['書', '名', '：'].push('三') =~= seq!['書', '名', '：', '三']);
    assert(seq!['書', '名', '：', '三'].push('體') =~= l);
    assert(spec_words(seq!['書', '名', '：', '三']) =~= seq![seq!['書', '名', '：', '三']]);
    assert(spec_words(l) =~= seq![l]);
    let p = seq![l];
    assert(spec_run_end(p, 0, 1, 1) == 1);
    assert(spec_first_phrase(p, 1, 1) is None);
    assert(spec_first_phrase(p, 0, 2) is None);
    assert(spec_first_phrase(p, 0, 1) is None);
    assert(spec_collapse_words(p) == p);
    assert(crate::reflow_helper::spec_first_unit(l, 4) == 0);
    assert(crate::reflow_helper::spec_collapse_token(l) == l);
    let toks = p.map_values(|x: Seq<char>| crate::reflow_helper::spec_collapse_token(x));
    assert(toks =~= seq![l]);
    assert(spec_collapse_segments(l) == l);
    assert(spec_line_form(l) == l);
    let key = l.take(2);
    assert(key =~= seq!['書', '名']);
    assert(spec_trim_end_len(key) == 2);
    assert(spec_trim_end(key) =~= key);
    assert(spec_trim_start(key) == key);
    assert(spec_trim(key) == key);
    assert(crate::reflow_helper::spec_metadata_key(key));
    let rest = l.skip(3);
    assert(rest =~= seq!['三', '體']);
    assert(spec_trim_end_len(rest) == 2);
    assert(spec_trim_end(rest) =~= rest);
    assert(spec_trim_start(rest) == rest);
    assert(spec_trim(rest) == rest);
    assert(crate::reflow_helper::spec_metadata_sep(l[2]));
    assert(forall|j: int| 0 <= j < 2 ==> !crate::reflow_helper::spec_metadata_sep(#[trigger] l[j]));
    assert(spec_metadata(l));
    law_metadata_standalone(f, l, keep_gaps);
}

/// Splitting at a line feed splits the parts separately.
proof fn lemma_split_concat(p: Seq<char>, q: Seq<char>)
    ensures
        spec_split_lines(p + seq!['\n'] + q) == spec_split_lines(p) + spec_split_lines(q),
    decreases q.len(),
{
    let pn = p + seq!['\n'];
    assert(pn =~= p.push('\n'));
    assert(p.push('\n').drop_last() =~= p);
    crate::reflow_helper::lemma_split_lines_nonempty(p);
    if q.len() == 0 {
        assert(pn + q =~= pn);
        assert(spec_split_lines(q) =~= seq![Seq::<char>::empty()]);
        assert(spec_split_lines(pn) == spec_split_lines(p).push(Seq::empty()));
        assert(spec_split_lines(p).push(Seq::empty()) =~= spec_split_lines(p) + spec_split_lines(q));
    } else {
        let q2 = q.drop_last();
        lemma_split_concat(p, q2);
        crate::reflow_helper::lemma_split_lines_nonempty(q2);
        assert((pn + q).drop_last() =~= pn + q2);
        assert((pn + q).last() == q.last());
        let w = spec_split_lines(p) + spec_split_lines(q2);
        if q.last() == '\n' {
            assert(w.push(Seq::empty()) =~= spec_split_lines(p) + spec_split_lines(q2).push(
                Seq::empty(),
            ));
        } else {
            assert(w.last() == spec_split_lines(q2).last());
            assert(w.drop_last() =~= spec_split_lines(p) + spec_split_lines(q2).drop_last());
            assert(w.drop_last().push(w.last().push(q.last())) =~= spec_split_lines(p)
                + spec_split_lines(q2).drop_last().push(spec_split_lines(q2).last().push(q.last())));
        }
    }
}

proof fn lemma_split_single(a: Seq<char>)
    requires
        spec_single_line(a),
    ensures
        spec_split_lines(a) == seq![a],
{
    let e: Seq<char> = Seq::empty();
    assert forall|i: int| 0 <= i < a.len() implies #[trigger] a[i] != '\n' by {}
    lemma_split_append(e, a);
    assert(e + a =~= a);
    assert(spec_split_lines(e) =~= seq![e]);
    assert(seq![e].drop_last().push(e + a) =~= seq![a]);
}

/// The separator between output segments.
pub open spec fn spec_output_sep(compact: bool) -> Seq<char> {
    if compact { seq!['\n'] } else { seq!['\n', '\n'] }
}

proof fn lemma_no_cr_concat(p: Seq<char>, q: Seq<char>)
    requires
        forall|i: int| 0 <= i < p.len() ==> #[trigger] p[i] != '\r',
        forall|i: int| 0 <= i < q.len() ==> #[trigger] q[i] != '\r',
    ensures
        forall|i: int| 0 <= i < (p + q).len() ==> #[trigger] (p + q)[i] != '\r',
{
    assert forall|i: int| 0 <= i < (p + q).len() implies #[trigger] (p + q)[i] != '\r' by {
        if i < p.len() {
            assert((p + q)[i] == p[i]);
        } else {
            assert((p + q)[i] == q[i - p.len()]);
        }
    }
}

proof fn lemma_not_blank_concat(p: Seq<char>, q: Seq<char>)
    requires
        !spec_all_ws(q),
    ensures
        !spec_all_ws(p + q),
{
    let k = choose|k: int| 0 <= k < q.len() && !spec_ws(#[trigger] q[k]);
    assert((p + q)[p.len() + k] == q[k]);
}

/// Text of two single lines around a line of ten box-drawing dashes comes out
/// as exactly three segments (before, divider, after), in compact and in
/// spaced form, whether or not page gaps are kept.
pub proof fn law_dash_text_splits(a: Seq<char>, b: Seq<char>, keep_gaps: bool, compact: bool)
    requires
        spec_single_line(a),
        spec_single_line(b),
        !spec_all_ws(a),
        !spec_all_ws(b),
    ensures
        spec_reflow(a + seq!['\n'] + spec_dash_line() + seq!['\n'] + b, keep_gaps, compact)
            == spec_join(
            seq![spec_line_form(a), spec_dash_line(), spec_line_form(b)],
            spec_output_sep(compact),
        ),
{
    let d = spec_dash_line();
    let text = a + seq!['\n'] + d + seq!['\n'] + b;
    assert(spec_single_line(d));
    let ad = a + seq!['\n'] + d;
    lemma_split_concat(a, d);
    lemma_split_concat(ad, b);
    lemma_split_single(a);
    lemma_split_single(d);
    lemma_split_single(b);
    assert(spec_split_lines(text) =~= seq![a, d, b]);
    let nl = seq!['\n'];
    assert forall|i: int| 0 <= i < nl.len() implies #[trigger] nl[i] != '\r' by {}
    assert forall|i: int| 0 <= i < a.len() implies #[trigger] a[i] != '\r' by {}
    assert forall|i: int| 0 <= i < b.len() implies #[trigger] b[i] != '\r' by {}
    assert forall|i: int| 0 <= i < d.len() implies #[trigger] d[i] != '\r' by {}
    lemma_no_cr_concat(a, nl);
    lemma_no_cr_concat(a + nl, d);
    lemma_no_cr_concat(ad, nl);
    lemma_no_cr_concat(ad + nl, b);
    lemma_unify_identity(text);
    lemma_not_blank_concat(ad + nl, b);
    lemma_visual_not_blank(a);
    lemma_visual_not_blank(b);
    law_dash_line_splits(a, b, keep_gaps);
}

/// In text whose line breaks are already line feeds, a page-marker line is a
/// whole segment of the output: the output is its segments joined by the
/// separator, and one of them is the marker line.
pub proof fn law_page_marker_text(x: Seq<char>, m: Seq<char>, y: Seq<char>, keep_gaps: bool, compact: bool)
    requires
        forall|i: int| 0 <= i < x.len() ==> #[trigger] x[i] != '\r',
        forall|i: int| 0 <= i < y.len() ==> #[trigger] y[i] != '\r',
        spec_single_line(m),
        !spec_all_ws(spec_line_visual(m)),
        !spec_visual_divider(spec_trim_indent(spec_line_visual(m))),
        spec_page_marker(spec_trim_indent(spec_line_form(m))),
    ensures
        ({
            let text = x + seq!['\n'] + m + seq!['\n'] + y;
            let segs = spec_reflow_segments(spec_split_lines(text), keep_gaps);
            &&& spec_reflow(text, keep_gaps, compact) == spec_join(segs, spec_output_sep(compact))
            &&& exists|j: int| 0 <= j < segs.len() && #[trigger] segs[j] == spec_line_form(m)
        }),
{
    let nl = seq!['\n'];
    let xm = x + nl + m;
    let text = xm + nl + y;
    assert(text =~= x + seq!['\n'] + m + seq!['\n'] + y);
    assert forall|i: int| 0 <= i < nl.len() implies #[trigger] nl[i] != '\r' by {}
    assert forall|i: int| 0 <= i < m.len() implies #[trigger] m[i] != '\r' by {}
    lemma_no_cr_concat(x, nl);
    lemma_no_cr_concat(x + nl, m);
    lemma_no_cr_concat(xm, nl);
    lemma_no_cr_concat(xm + nl, y);
    lemma_unify_identity(text);
    lemma_split_concat(x, m);
    lemma_split_concat(xm, y);
    lemma_split_single(m);
    let lines = spec_split_lines(text);
    let i = spec_split_lines(x).len() as int;
    assert(lines =~= spec_split_lines(x) + seq![m] + spec_split_lines(y));
    assert(lines[i] == m);
    law_page_marker_kept(lines, i, keep_gaps);
    let v = spec_line_visual(m);
    let k = choose|k: int| 0 <= k < v.len() && !spec_ws(#[trigger] v[k]);
    let t = spec_trim_end(m);
    lemma_trim_end_len(m);
    assert(!spec_all_ws(m)) by {
        assert(!spec_all_ws(spec_line_visual(m)));
        if spec_all_ws(m) {
            assert(spec_trim_end_len(m) == 0);
            assert(t.len() == 0);
            assert(spec_strip_halfwidth_indent(t) =~= t);
        }
    }
    lemma_not_blank_concat(x + nl, m);
    assert(xm + nl + y =~= (x + nl + m) + (nl + y));
    assert(!spec_all_ws(text)) by {
        let k2 = choose|k2: int| 0 <= k2 < xm.len() && !spec_ws(#[trigger] xm[k2]);
        assert(text[k2] == xm[k2]);
    }
}

/// The line 「你好。」.
pub open spec fn spec_greeting_line() -> Seq<char> {
    seq!['「', '你', '好', '。', '」']
}

/// After a buffer that ends in a colon, with every quote and bracket closed,
/// the line 「你好。」 joins the buffer and the joined paragraph is emitted at
/// once (the closer follows a terminator and the nesting is closed).
pub proof fn law_colon_then_dialogue(f: Flow, keep_gaps: bool)
    requires
        spec_last_non_ws(f.buffer) matches Some(c) && crate::punct_sets::spec_colon_like(c),
        !f.dialog.spec_unclosed(),
        !crate::punct_sets::spec_unclosed_bracket(f.buffer),
    ensures
        spec_step(f, spec_greeting_line(), keep_gaps) == spec_flush(
            crate::reflow_helper::spec_append(f, spec_greeting_line()),
        ),
        spec_step(f, spec_greeting_line(), keep_gaps).segments == f.segments.push(
            f.buffer + spec_greeting_line(),
        ),
        spec_step(f, spec_greeting_line(), keep_gaps).buffer.len() == 0,
{
    let l = spec_greeting_line();
    let e: Seq<char> = Seq::empty();
    let l1 = seq!['「'];
    let l2 = seq!['「', '你'];
    let l3 = seq!['「', '你', '好'];
    let l4 = seq!['「', '你', '好', '。'];
    assert(l1.drop_last() =~= e);
    assert(l2.drop_last() =~= l1);
    assert(l3.drop_last() =~= l2);
    assert(l4.drop_last() =~= l3);
    assert(l.drop_last() =~= l4);
    assert(l1.push('你') =~= l2);
    assert(l2.push('好') =~= l3);
    assert(l3.push('。') =~= l4);
    assert(l4.push('」') =~= l);
    assert(l.take(4) =~= l4);
    // the visual form is the line itself, and it is neither blank nor a divider
    assert(spec_trim_end_len(l) == 5);
    assert(spec_trim_end(l) =~= l);
    assert(spec_strip_halfwidth_indent(l) == l);
    assert(spec_line_visual(l) == l);
    assert(!spec_ws(l[0]));
    assert(!spec_all_ws(l));
    assert(spec_trim_indent(l) == l);
    assert(!spec_visual_divider(l)) by {
        assert(!spec_ws(l[0]) && !crate::punct_sets::spec_divider_glyph(l[0]));
    }
    // collapsing leaves it unchanged
    assert(spec_trim_start(l) == l);
    assert(spec_trim(l) == l);
    reveal_with_fuel(spec_words, 6);
    assert(spec_words(e).len() == 0);
    assert(spec_words(l1) =~= seq![l1]);
    assert(spec_words(l2) =~= seq![l2]);
    assert(spec_words(l3) =~= seq![l3]);
    assert(spec_words(l4) =~= seq![l4]);
    assert(spec_words(l) =~= seq![l]);
    let p = seq![l];
    assert(spec_run_end(p, 0, 1, 1) == 1);
    assert(spec_first_phrase(p, 1, 1) is None);
    assert(spec_first_phrase(p, 0, 2) is None);
    assert(spec_first_phrase(p, 0, 1) is None);
    assert(spec_collapse_words(p) == p);
    assert(crate::reflow_helper::spec_first_unit(l, 4) == 0);
    assert(crate::reflow_helper::spec_collapse_token(l) == l);
    let toks = p.map_values(|x: Seq<char>| crate::reflow_helper::spec_collapse_token(x));
    assert(toks =~= seq![l]);
    assert(spec_collapse_segments(l) == l);
    // not a marker, metadata, title or short heading
    assert(forall|k: int| 0 <= k < 5 ==> !crate::reflow_helper::spec_metadata_sep(#[trigger] l[k]));
    assert(!spec_metadata(l));
    assert(crate::reflow_helper::spec_heading_reject(l[3]));
    assert(!crate::reflow_helper::spec_title_heading(l));
    reveal_with_fuel(crate::punct_sets::spec_bracket_scan, 6);
    assert(crate::punct_sets::spec_bracket_scan(l1) == (Seq::<char>::empty(), false));
    assert(crate::punct_sets::spec_bracket_scan(l2) == (Seq::<char>::empty(), false));
    assert(crate::punct_sets::spec_bracket_scan(l3) == (Seq::<char>::empty(), false));
    assert(crate::punct_sets::spec_bracket_scan(l4) == (Seq::<char>::empty(), false));
    assert(crate::punct_sets::spec_bracket_scan(l) == (Seq::<char>::empty(), false));
    assert(!crate::punct_sets::spec_unclosed_bracket(l));
    assert(!crate::reflow_helper::spec_heading_like(l));
    // the merge rules: not narration-ended, a closer after a terminator
    assert(spec_trim_end_len(l4) == 4);
    assert(crate::reflow_helper::spec_closer_after_terminator(l));
    assert(f.dialog == crate::reflow_helper::DialogState::zero());
    reveal_with_fuel(crate::reflow_helper::DialogState::after, 6);
    let z = crate::reflow_helper::DialogState::zero();
    assert(z.after(l) == z);
    assert(!crate::reflow_helper::spec_narration_ended(f.buffer));
    assert(f.buffer.len() > 0);
}

} // verus!
