//! Applying a replacement template at the matches that the regex engine found.
//!
//! The engine reports positions as byte offsets into the UTF-8 text, so this
//! module states what it builds over the UTF-8 bytes of the texts.
use vstd::prelude::*;
use vstd::string::StringExecFns;
use vstd::string::StringSliceAdditionalSpecFns;
use vstd::utf8::*;
use crate::replace::{Replacement, ReplacementNode, TemplatePart};

verus! {

/// The byte offsets of every group of one match, group 0 being the whole
/// match; `None` for a group that took no part.
pub type Captures = Vec<Option<(usize, usize)>>;

/// A byte range of `text` that starts and ends at character boundaries.
pub open spec fn span_fits(text: Seq<u8>, span: (usize, usize)) -> bool {
    &&& span.0 <= span.1 <= text.len()
    &&& is_char_boundary(text, span.0 as int)
    &&& is_char_boundary(text, span.1 as int)
}

/// One match as the engine reports it: group 0 took part, and every group
/// that took part lies in `text`.
pub open spec fn capture_fits(text: Seq<u8>, groups: Seq<Option<(usize, usize)>>) -> bool {
    &&& groups.len() >= 1
    &&& groups[0] is Some
    &&& forall|g: int|
        0 <= g < groups.len() && #[trigger] groups[g] is Some ==> span_fits(text, groups[g]->Some_0)
}

pub open spec fn match_start(groups: Seq<Option<(usize, usize)>>) -> int {
    groups[0]->Some_0.0 as int
}

pub open spec fn match_end(groups: Seq<Option<(usize, usize)>>) -> int {
    groups[0]->Some_0.1 as int
}

/// The matches lie in `text`, in order and without overlap.
pub open spec fn matches_fit(text: Seq<u8>, ms: Seq<Seq<Option<(usize, usize)>>>) -> bool {
    &&& forall|i: int| 0 <= i < ms.len() ==> capture_fits(text, #[trigger] ms[i])
    &&& forall|i: int|
        0 <= i < ms.len() - 1 ==> match_end(#[trigger] ms[i]) <= match_start(ms[i + 1])
}

pub open spec fn captures_view(ms: Seq<Captures>) -> Seq<Seq<Option<(usize, usize)>>> {
    ms.map_values(|m: Captures| m@)
}

/// Where the text is taken up again after the first `k` matches.
pub open spec fn resume_at(ms: Seq<Seq<Option<(usize, usize)>>>, k: int) -> int {
    if k <= 0 {
        0
    } else {
        match_end(ms[k - 1])
    }
}

/// The bytes of group `g`; empty where there is no such group or it took no part.
pub open spec fn group_bytes(text: Seq<u8>, groups: Seq<Option<(usize, usize)>>, g: nat) -> Seq<
    u8,
> {
    if g < groups.len() && groups[g as int] is Some {
        let span = groups[g as int]->Some_0;
        text.subrange(span.0 as int, span.1 as int)
    } else {
        seq![]
    }
}

/// The template rendered for one match: literals as they are, groups by their text.
pub open spec fn rendered(
    text: Seq<u8>,
    parts: Seq<TemplatePart>,
    groups: Seq<Option<(usize, usize)>>,
) -> Seq<u8>
    decreases parts.len(),
{
    if parts.len() == 0 {
        seq![]
    } else {
        rendered(text, parts.drop_last(), groups) + match parts.last() {
            TemplatePart::Literal(t) => encode_utf8(t),
            TemplatePart::Group(g) => group_bytes(text, groups, g),
        }
    }
}

/// The output up to the end of match `k - 1`, each of the first `k` matches
/// replaced by its rendering.
pub open spec fn replaced_through(
    text: Seq<u8>,
    ms: Seq<Seq<Option<(usize, usize)>>>,
    parts: Seq<TemplatePart>,
    k: int,
) -> Seq<u8>
    decreases k,
{
    if k <= 0 {
        seq![]
    } else {
        replaced_through(text, ms, parts, k - 1) + text.subrange(
            resume_at(ms, k - 1),
            match_start(ms[k - 1]),
        ) + rendered(text, parts, ms[k - 1])
    }
}

/// `text` with its first `k` matches replaced, the rest left as it is.
pub open spec fn substituted(
    text: Seq<u8>,
    ms: Seq<Seq<Option<(usize, usize)>>>,
    parts: Seq<TemplatePart>,
    k: int,
) -> Seq<u8> {
    replaced_through(text, ms, parts, k) + text.subrange(resume_at(ms, k), text.len() as int)
}

/// How many of `n` matches are replaced: all of them for a global command,
/// else the first only.
pub open spec fn replaced_count(n: int, global: bool) -> int {
    if global {
        n
    } else if n > 0 {
        1
    } else {
        0
    }
}

/// Without the global flag only the first match is touched: the text before
/// it and the text after it are kept as they are.
pub proof fn lemma_first_match_only(
    text: Seq<u8>,
    ms: Seq<Seq<Option<(usize, usize)>>>,
    parts: Seq<TemplatePart>,
)
    requires
        matches_fit(text, ms),
        ms.len() > 0,
    ensures
        substituted(text, ms, parts, replaced_count(ms.len() as int, false)) == text.subrange(
            0,
            match_start(ms[0]),
        ) + rendered(text, parts, ms[0]) + text.subrange(match_end(ms[0]), text.len() as int),
{
    assert(replaced_through(text, ms, parts, 0) == Seq::<u8>::empty());
    assert(Seq::<u8>::empty() + text.subrange(0, match_start(ms[0])) == text.subrange(
        0,
        match_start(ms[0]),
    ));
}

/// With the global flag every match is touched, from left to right: replacing
/// the first `k + 1` matches extends the output for the first `k` by the text
/// between match `k - 1` and match `k`, then match `k`'s rendering.
pub proof fn lemma_all_matches_in_order(
    text: Seq<u8>,
    ms: Seq<Seq<Option<(usize, usize)>>>,
    parts: Seq<TemplatePart>,
    k: int,
)
    requires
        matches_fit(text, ms),
        0 <= k < ms.len(),
    ensures
        replaced_count(ms.len() as int, true) == ms.len(),
        replaced_through(text, ms, parts, k + 1) == replaced_through(text, ms, parts, k)
            + text.subrange(resume_at(ms, k), match_start(ms[k])) + rendered(text, parts, ms[k]),
        resume_at(ms, k) <= match_start(ms[k]) <= match_end(ms[k]),
{
    assert(capture_fits(text, ms[k]));
    assert(ms[k][0] is Some);
    if k > 0 {
        assert(match_end(ms[k - 1]) <= match_start(ms[k]));
    }
}

/// Where nothing matches, the text is kept, whatever the flag.
pub proof fn lemma_no_match_keeps_text(text: Seq<u8>, parts: Seq<TemplatePart>, global: bool)
    ensures
        substituted(text, Seq::empty(), parts, replaced_count(0, global)) == text,
{
    assert(Seq::<u8>::empty() + text.subrange(0, text.len() as int) == text);
}

pub proof fn lemma_encode_concat(a: Seq<char>, b: Seq<char>)
    ensures
        encode_utf8(a + b) == encode_utf8(a) + encode_utf8(b),
    decreases a.len(),
{
    if a.len() == 0 {
        assert(a + b == b);
    } else {
        assert((a + b).drop_first() == a.drop_first() + b);
        assert((a + b)[0] == a[0]);
        lemma_encode_concat(a.drop_first(), b);
        let e = encode_scalar(a[0] as u32);
        assert(e + (encode_utf8(a.drop_first()) + encode_utf8(b)) == (e + encode_utf8(
            a.drop_first(),
        )) + encode_utf8(b));
    }
}

proof fn lemma_boundary_in_prefix(bytes: Seq<u8>, a: int, b: int)
    requires
        valid_utf8(bytes),
        0 <= a <= b <= bytes.len(),
        is_char_boundary(bytes, a),
        is_char_boundary(bytes, b),
    ensures
        valid_utf8(bytes.subrange(0, b)),
        is_char_boundary(bytes.subrange(0, b), a),
{
    let prefix = bytes.subrange(0, b);
    valid_utf8_split(bytes, b);
    is_char_boundary_start_end_of_seq(prefix);
    if 0 < a < b {
        is_char_boundary_iff_not_is_continuation_byte(bytes, a);
        is_char_boundary_iff_not_is_continuation_byte(prefix, a);
    }
}

/// The part of `text` between two byte offsets at character boundaries.
fn byte_slice<'a>(text: &'a str, a: usize, b: usize) -> (r: &'a str)
    requires
        span_fits(text.spec_bytes(), (a, b)),
    ensures
        r.spec_bytes() == text.spec_bytes().subrange(a as int, b as int),
{
    proof {
        encode_utf8_valid_utf8(text@);
        lemma_boundary_in_prefix(text.spec_bytes(), a as int, b as int);
    }
    let (head, _) = text.split_at(b);
    assert(head.spec_bytes() == text.spec_bytes().subrange(0, b as int));
    let (_, mid) = head.split_at(a);
    assert(mid.spec_bytes() == text.spec_bytes().subrange(a as int, b as int));
    mid
}

fn append_bytes(out: &mut String, piece: &str)
    ensures
        encode_utf8(final(out)@) == encode_utf8(old(out)@) + piece.spec_bytes(),
{
    proof {
        lemma_encode_concat(out@, piece@);
    }
    out.append(piece);
}

/// Appends the rendering of `replacement` for one match to `out`.
fn render_into(out: &mut String, text: &str, groups: &Captures, replacement: &Replacement)
    requires
        capture_fits(text.spec_bytes(), groups@),
    ensures
        encode_utf8(final(out)@) == encode_utf8(old(out)@) + rendered(
            text.spec_bytes(),
            replacement@,
            groups@,
        ),
{
    let ghost start = encode_utf8(out@);
    let ghost parts = replacement@;
    let mut j: usize = 0;
    assert(parts.take(0) == Seq::<TemplatePart>::empty());
    while j < replacement.nodes.len()
        invariant
            parts == replacement@,
            parts.len() == replacement.nodes.len(),
            j <= replacement.nodes.len(),
            capture_fits(text.spec_bytes(), groups@),
            encode_utf8(out@) == start + rendered(text.spec_bytes(), parts.take(j as int), groups@),
        decreases replacement.nodes.len() - j,
    {
        let ghost before = encode_utf8(out@);
        assert(parts.take(j + 1).drop_last() == parts.take(j as int));
        assert(parts.take(j + 1).last() == replacement.nodes@[j as int]@);
        match &replacement.nodes[j] {
            ReplacementNode::Text(t) => {
                append_bytes(out, t.as_str());
            },
            ReplacementNode::Index(g) => {
                if *g < groups.len() {
                    match groups[*g] {
                        Some((a, b)) => {
                            append_bytes(out, byte_slice(text, a, b));
                        },
                        None => {},
                    }
                }
            },
        }
        assert(encode_utf8(out@) == start + rendered(text.spec_bytes(), parts.take(j + 1), groups@));
        j = j + 1;
    }
    assert(parts.take(j as int) == parts);
}

/// `text` with the template applied at its matches: at the first match only,
/// or at every match when `is_global` holds; the text between and after the
/// replaced matches is kept.
pub fn substitute(
    text: &str,
    matches: &Vec<Captures>,
    replacement: &Replacement,
    is_global: bool,
) -> (r: String)
    requires
        matches_fit(text.spec_bytes(), captures_view(matches@)),
    ensures
        encode_utf8(r@) == substituted(
            text.spec_bytes(),
            captures_view(matches@),
            replacement@,
            replaced_count(matches.len() as int, is_global),
        ),
{
    let ghost bytes = text.spec_bytes();
    let ghost ms = captures_view(matches@);
    proof {
        encode_utf8_valid_utf8(text@);
        is_char_boundary_start_end_of_seq(bytes);
    }
    let count: usize = if is_global {
        matches.len()
    } else if matches.len() > 0 {
        1
    } else {
        0
    };
    let mut out = String::new();
    let mut resume: usize = 0;
    let mut k: usize = 0;
    while k < count
        invariant
            bytes == text.spec_bytes(),
            ms == captures_view(matches@),
            matches_fit(bytes, ms),
            count <= matches.len(),
            k <= count,
            resume as int == resume_at(ms, k as int),
            resume <= bytes.len(),
            is_char_boundary(bytes, resume as int),
            valid_utf8(bytes),
            is_char_boundary(bytes, bytes.len() as int),
            count as int == replaced_count(matches.len() as int, is_global),
            encode_utf8(out@) == replaced_through(bytes, ms, replacement@, k as int),
        decreases count - k,
    {
        let groups = &matches[k];
        assert(ms[k as int] == groups@);
        assert(capture_fits(bytes, groups@));
        assert(groups@[0] is Some);
        let (start, end) = match groups[0] {
            Some(span) => span,
            None => (0, 0),
        };
        assert(span_fits(bytes, (start, end)));
        if k > 0 {
            assert(match_end(ms[k - 1]) <= match_start(ms[k as int]));
        }
        append_bytes(&mut out, byte_slice(text, resume, start));
        render_into(&mut out, text, groups, replacement);
        resume = end;
        k = k + 1;
    }
    let len = text.as_bytes().len();
    append_bytes(&mut out, byte_slice(text, resume, len));
    out
}

} // verus!
