//! Regular expressions over the input text, and their matches as stretches
//! of characters.

use vstd::prelude::*;
use crate::text::byte_offset;
use crate::text::char_index;
use crate::text::is_word;
use crate::text::is_word_char;
use crate::text::lemma_offset_injective;
use crate::text::slice_chars;

verus! {

/// Whether the regex engine accepts the pattern.
pub uninterp spec fn regex_accepts(pattern: Seq<char>) -> bool;

/// The capture groups of the successive matches of the pattern in the text:
/// for each match in order and each group in order, an entry of the match's
/// number, the group's number and the bytes from which to which the group
/// matched, if it took part.
pub uninterp spec fn regex_captures(pattern: Seq<char>, text: Seq<char>) -> Seq<
    (usize, usize, Option<(usize, usize)>),
>;

/// Compiles the pattern with `regex::Regex::new` and walks the text with
/// `Regex::captures_iter`. The contract names what the two give: whether the
/// pattern is accepted, and for an accepted pattern the groups of the
/// successive matches, which `Captures::iter` hands out in order with
/// `Match::start` and `Match::end` as byte offsets.
#[verifier::external_body]
pub(crate) fn captures(pattern: &str, text: &str) -> (found: Option<
    Vec<(usize, usize, Option<(usize, usize)>)>,
>)
    ensures
        found is Some <==> regex_accepts(pattern@),
        found matches Some(v) ==> v@ == regex_captures(pattern@, text@),
{
    match regex::Regex::new(pattern) {
        Ok(re) => Some(
            re.captures_iter(text).enumerate().flat_map(
                |(i, c)|
                    c.iter().enumerate().map(|(g, m)| (i, g, m.map(|m| (m.start(), m.end()))))
                        .collect::<Vec<_>>(),
            ).collect(),
        ),
        Err(_) => None,
    }
}

/// Whether the regex engine accepts the pattern.
pub fn compiles(pattern: &str) -> (ok: bool)
    ensures
        ok == regex_accepts(pattern@),
{
    captures(pattern, "").is_some()
}

/// One match of a regular expression: the characters from `start` up to
/// `end`, and the text of each capture group.
#[derive(Debug)]
pub struct Hit {
    pub index: usize,
    pub start: usize,
    pub end: usize,
    pub groups: Vec<Option<Vec<char>>>,
}

/// A match as the contracts see it.
pub struct HitView {
    pub index: usize,
    pub start: usize,
    pub end: usize,
    pub groups: Seq<Option<Seq<char>>>,
}

impl View for Hit {
    type V = HitView;

    open spec fn view(&self) -> HitView {
        HitView {
            index: self.index,
            start: self.start,
            end: self.end,
            groups: Seq::new(
                self.groups@.len(),
                |i: int|
                    match self.groups@[i] {
                        Some(v) => Some(v@),
                        None => None,
                    },
            ),
        }
    }
}

/// The matches as the contracts see them.
pub open spec fn hit_views(hits: Seq<Hit>) -> Seq<HitView> {
    Seq::new(hits.len(), |i: int| hits[i]@)
}

/// The position of the character that begins at the byte, if one does.
pub open spec fn position_of(chars: Seq<char>, byte: usize) -> Option<usize> {
    if exists|i: int| 0 <= i <= chars.len() && byte_offset(chars, i) == byte {
        Some((choose|i: int| 0 <= i <= chars.len() && byte_offset(chars, i) == byte) as usize)
    } else {
        None
    }
}

/// The stretch of characters of a stretch of bytes that begins and ends
/// between characters.
pub open spec fn chars_between(chars: Seq<char>, span: Option<(usize, usize)>) -> Option<
    (usize, usize),
> {
    match span {
        Some((a, b)) => match (position_of(chars, a), position_of(chars, b)) {
            (Some(s), Some(t)) => if s <= t {
                Some((s, t))
            } else {
                None
            },
            _ => None,
        },
        None => None,
    }
}

/// Whether the stretch neither begins nor ends within a word: where it
/// begins with a word character none stands before it, and where it ends
/// with one none follows.
pub open spec fn separated(chars: Seq<char>, s: int, t: int) -> bool {
    &&& (s == 0 || s >= chars.len() || !is_word_char(chars[s - 1]) || !is_word_char(chars[s]))
    &&& (t == 0 || t >= chars.len() || !is_word_char(chars[t - 1]) || !is_word_char(chars[t]))
}

/// The matches read so far, after one more entry: group 0 begins a match,
/// where its stretch lies between characters and, with `words`, between
/// words; a later group is added to the match that it belongs to.
pub open spec fn absorb(
    hits: Seq<HitView>,
    e: (usize, usize, Option<(usize, usize)>),
    chars: Seq<char>,
    words: bool,
) -> Seq<HitView> {
    if e.1 == 0 {
        match chars_between(chars, e.2) {
            Some((s, t)) => if !words || separated(chars, s as int, t as int) {
                hits.push(
                    HitView {
                        index: e.0,
                        start: s,
                        end: t,
                        groups: seq![Some(chars.subrange(s as int, t as int))],
                    },
                )
            } else {
                hits
            },
            None => hits,
        }
    } else if hits.len() > 0 && hits.last().index == e.0 && hits.last().groups.len() == e.1 {
        let text = match chars_between(chars, e.2) {
            Some((s, t)) => Some(chars.subrange(s as int, t as int)),
            None => None,
        };
        hits.drop_last().push(HitView { groups: hits.last().groups.push(text), ..hits.last() })
    } else {
        hits
    }
}

/// The matches that the first `k` entries describe.
pub open spec fn matches_of(
    found: Seq<(usize, usize, Option<(usize, usize)>)>,
    chars: Seq<char>,
    words: bool,
    k: nat,
) -> Seq<HitView>
    decreases k,
{
    if k == 0 || k > found.len() {
        Seq::empty()
    } else {
        absorb(matches_of(found, chars, words, (k - 1) as nat), found[k - 1], chars, words)
    }
}

/// Every match lies within the text.
pub open spec fn hits_wf(hits: Seq<HitView>, n: int) -> bool {
    forall|i: int| 0 <= i < hits.len() ==> (#[trigger] hits[i]).start <= hits[i].end <= n
}

/// Every match that the entries describe lies within the text.
pub proof fn lemma_matches_wf(
    found: Seq<(usize, usize, Option<(usize, usize)>)>,
    chars: Seq<char>,
    words: bool,
    k: nat,
)
    ensures
        hits_wf(matches_of(found, chars, words, k), chars.len() as int),
    decreases k,
{
    if k == 0 || k > found.len() {
    } else {
        lemma_matches_wf(found, chars, words, (k - 1) as nat);
    }
}

fn between(table: &Vec<usize>, span: Option<(usize, usize)>, Ghost(chars): Ghost<Seq<char>>) -> (r:
    Option<(usize, usize)>)
    requires
        table@.len() == chars.len() + 1,
        forall|i: int| 0 <= i <= chars.len() ==> table@[i] == byte_offset(chars, i),
    ensures
        r == chars_between(chars, span),
        r matches Some((s, t)) ==> s <= t <= chars.len(),
{
    match span {
        Some((a, b)) => {
            let s = char_index(table, a);
            let t = char_index(table, b);
            proof {
                if let Some(i) = s {
                    assert(0 <= i <= chars.len() && byte_offset(chars, i as int) == a);
                    let j = choose|j: int| 0 <= j <= chars.len() && byte_offset(chars, j) == a;
                    lemma_offset_injective(chars, i as int, j);
                }
                if let Some(i) = t {
                    assert(0 <= i <= chars.len() && byte_offset(chars, i as int) == b);
                    let j = choose|j: int| 0 <= j <= chars.len() && byte_offset(chars, j) == b;
                    lemma_offset_injective(chars, i as int, j);
                }
            }
            match (s, t) {
                (Some(s), Some(t)) => if s <= t {
                    Some((s, t))
                } else {
                    None
                },
                _ => None,
            }
        },
        None => None,
    }
}

fn stands_apart(chars: &Vec<char>, s: usize, t: usize) -> (r: bool)
    requires
        s <= t <= chars@.len(),
    ensures
        r == separated(chars@, s as int, t as int),
{
    let n: usize = chars.len();
    let left = s == 0 || s >= n || !is_word(chars[s - 1]) || !is_word(chars[s]);
    let right = t == 0 || t >= n || !is_word(chars[t - 1]) || !is_word(chars[t]);
    left && right
}

/// The matches that the entries of the regex engine describe.
pub fn read_hits(
    found: &Vec<(usize, usize, Option<(usize, usize)>)>,
    table: &Vec<usize>,
    chars: &Vec<char>,
    words: bool,
) -> (hits: Vec<Hit>)
    requires
        table@.len() == chars@.len() + 1,
        forall|i: int| 0 <= i <= chars@.len() ==> table@[i] == byte_offset(chars@, i),
    ensures
        hit_views(hits@) == matches_of(found@, chars@, words, found@.len()),
        hits_wf(hit_views(hits@), chars@.len() as int),
{
    let mut hits: Vec<Hit> = Vec::new();
    let mut k: usize = 0;
    proof {
        assert(hit_views(hits@) =~= Seq::empty());
    }
    while k < found.len()
        invariant
            k <= found@.len(),
            table@.len() == chars@.len() + 1,
            forall|i: int| 0 <= i <= chars@.len() ==> table@[i] == byte_offset(chars@, i),
            hit_views(hits@) == matches_of(found@, chars@, words, k as nat),
        decreases found@.len() - k,
    {
        let e = found[k];
        let ghost before = hit_views(hits@);
        let span = between(table, e.2, Ghost(chars@));
        if e.1 == 0 {
            match span {
                Some((s, t)) => {
                    if !words || stands_apart(chars, s, t) {
                        let mut groups: Vec<Option<Vec<char>>> = Vec::new();
                        groups.push(Some(slice_chars(chars, s, t)));
                        let hit = Hit { index: e.0, start: s, end: t, groups };
                        proof {
                            assert(hit@.groups =~= seq![Some(chars@.subrange(s as int, t as int))]);
                        }
                        hits.push(hit);
                        proof {
                            assert(hit_views(hits@) =~= before.push(hit@));
                        }
                    }
                },
                None => {},
            }
        } else if hits.len() > 0 {
            let n: usize = hits.len();
            if hits[n - 1].index == e.0 && hits[n - 1].groups.len() == e.1 {
                let text = match span {
                    Some((s, t)) => Some(slice_chars(chars, s, t)),
                    None => None,
                };
                let ghost shown = match span {
                    Some((s, t)) => Some(chars@.subrange(s as int, t as int)),
                    None => None,
                };
                let mut last = hits.pop().unwrap();
                let ghost old_last = last@;
                proof {
                    assert(old_last == before.last());
                }
                last.groups.push(text);
                proof {
                    assert(last@.groups =~= old_last.groups.push(shown));
                }
                hits.push(last);
                proof {
                    assert(hit_views(hits@) =~= before.drop_last().push(
                        HitView { groups: old_last.groups.push(shown), ..old_last },
                    ));
                }
            }
        }
        k = k + 1;
    }
    proof {
        lemma_matches_wf(found@, chars@, words, found@.len());
    }
    hits
}

} // verus!
