//! The vocabulary engine: case-preserving, word-boundary find/replace
//! over a list of enabled phrase-to-replacement rules.
//!
//! Each enabled rule is applied in list order to the current text.  A
//! rule matches occurrences of its phrase that are delimited by word
//! boundaries (the Unicode word class of the matcher's grammar),
//! compared case-insensitively by each character's full lowercase
//! mapping.  Matches are non-overlapping and found left to right.  The
//! replacement's casing is derived from the matched substring: an
//! all-caps match upper-cases the replacement, a capitalized match
//! capitalizes it, anything else uses the replacement as stored; the
//! case mappings are the standard library's Unicode ones.  Every
//! replacement is reported as a [`CorrectionApplied`] whose `position`
//! is the UTF-8 byte offset of the replacement in the text produced by
//! that rule's pass.

use vstd::prelude::*;
use crate::text::{
    ci_eq, ci_eq_x, upper_chars_of, upper_seq, is_word_char_of, is_alphabetic_of,
    is_uppercase_of, byte_len, char_is_word, char_upper, str_to_chars, chars_to_string,
};

verus! {

/// One user rule: replace `phrase` by `replacement` when enabled.
pub struct VocabEntry {
    pub id: u64,
    pub phrase: String,
    pub replacement: String,
    pub enabled: bool,
}

/// The ordered list of user rules.
pub struct Vocabulary {
    pub entries: Vec<VocabEntry>,
}

/// One replacement that was performed: the matched text, what replaced
/// it, and the UTF-8 byte offset of the replacement.
pub struct CorrectionApplied {
    pub original: String,
    pub replacement: String,
    pub position: usize,
}

/// The rewritten text together with all corrections, sorted by position.
pub struct CorrectionResult {
    pub text: String,
    pub corrections: Vec<CorrectionApplied>,
}

/// Mathematical image of a [`VocabEntry`].
pub struct EntrySpec {
    pub id: u64,
    pub phrase: Seq<char>,
    pub replacement: Seq<char>,
    pub enabled: bool,
}

/// Mathematical image of a [`CorrectionApplied`].
pub struct CorrectionSpec {
    pub original: Seq<char>,
    pub replacement: Seq<char>,
    pub position: int,
}

impl View for VocabEntry {
    type V = EntrySpec;

    open spec fn view(&self) -> EntrySpec {
        EntrySpec {
            id: self.id,
            phrase: self.phrase@,
            replacement: self.replacement@,
            enabled: self.enabled,
        }
    }
}

impl View for Vocabulary {
    type V = Seq<EntrySpec>;

    open spec fn view(&self) -> Seq<EntrySpec> {
        self.entries@.map_values(|e: VocabEntry| e@)
    }
}

impl View for CorrectionApplied {
    type V = CorrectionSpec;

    open spec fn view(&self) -> CorrectionSpec {
        CorrectionSpec {
            original: self.original@,
            replacement: self.replacement@,
            position: self.position as int,
        }
    }
}

impl Clone for VocabEntry {
    fn clone(&self) -> (r: Self)
        ensures
            r@ == self@,
    {
        VocabEntry {
            id: self.id,
            phrase: self.phrase.clone(),
            replacement: self.replacement.clone(),
            enabled: self.enabled,
        }
    }
}

impl Clone for CorrectionApplied {
    fn clone(&self) -> (r: Self)
        ensures
            r@ == self@,
    {
        CorrectionApplied {
            original: self.original.clone(),
            replacement: self.replacement.clone(),
            position: self.position,
        }
    }
}

impl Default for Vocabulary {
    fn default() -> (r: Self)
        ensures
            r@.len() == 0,
    {
        Vocabulary { entries: Vec::new() }
    }
}

/// Appends a rule at the end of the list.
pub fn add_entry(vocabulary: &mut Vocabulary, entry: VocabEntry)
    ensures
        final(vocabulary)@ == old(vocabulary)@.push(entry@),
{
    vocabulary.entries.push(entry);
    proof {
        assert(final(vocabulary)@ =~= old(vocabulary)@.push(entry@));
    }
}

/// Rewrites the rule with the given id, if there is one; other rules and
/// the order are untouched.  Ids are expected to be unique; every rule
/// carrying `id` is rewritten.
pub fn update_entry(vocabulary: &mut Vocabulary, id: u64, phrase: String, replacement: String, enabled: bool)
    ensures
        final(vocabulary)@ == old(vocabulary)@.map_values(
            |e: EntrySpec|
                (if e.id == id {
                    EntrySpec { id, phrase: phrase@, replacement: replacement@, enabled }
                } else {
                    e
                }),
        ),
{
    let ghost pre = vocabulary@;
    let mut updated: Vec<VocabEntry> = Vec::new();
    let mut i: usize = 0;
    while i < vocabulary.entries.len()
        invariant
            i <= pre.len(),
            vocabulary@ == pre,
            vocabulary.entries@.len() == pre.len(),
            updated@.map_values(|e: VocabEntry| e@) == pre.take(i as int).map_values(
                |e: EntrySpec|
                    (if e.id == id {
                        EntrySpec { id, phrase: phrase@, replacement: replacement@, enabled }
                    } else {
                        e
                    }),
            ),
        decreases pre.len() - i,
    {
        proof {
            assert(pre[i as int] == vocabulary.entries@[i as int]@);
        }
        let ghost prev = updated@;
        if vocabulary.entries[i].id == id {
            updated.push(
                VocabEntry { id, phrase: phrase.clone(), replacement: replacement.clone(), enabled },
            );
            proof {
                assert(pre[i as int].id == id);
                assert(updated@.last()@ == EntrySpec {
                    id,
                    phrase: phrase@,
                    replacement: replacement@,
                    enabled,
                });
            }
        } else {
            updated.push(vocabulary.entries[i].clone());
            proof {
                assert(pre[i as int].id != id);
                assert(updated@.last()@ == pre[i as int]);
            }
        }
        proof {
            let ve = |e: VocabEntry| e@;
            let f = |e: EntrySpec|
                (if e.id == id {
                    EntrySpec { id, phrase: phrase@, replacement: replacement@, enabled }
                } else {
                    e
                });
            let lhs = updated@.map_values(ve);
            let rhs = pre.take(i + 1).map_values(f);
            assert(updated@ == prev.push(updated@.last()));
            assert(prev.map_values(|e: VocabEntry| e@).len() == prev.len());
            assert(pre.take(i as int).map_values(
                |e: EntrySpec|
                    (if e.id == id {
                        EntrySpec { id, phrase: phrase@, replacement: replacement@, enabled }
                    } else {
                        e
                    }),
            ).len() == i as int);
            assert(lhs.len() == rhs.len());
            assert forall|j: int| 0 <= j < lhs.len() implies lhs[j] == rhs[j] by {
                assert(lhs[j] == updated@[j]@);
                assert(rhs[j] == f(pre.take(i + 1)[j]));
                assert(pre.take(i + 1)[j] == pre[j]);
                if j < i {
                    assert(updated@[j] == prev[j]);
                    assert(prev.map_values(ve)[j] == pre.take(i as int).map_values(f)[j]);
                    assert(prev.map_values(ve)[j] == prev[j]@);
                    assert(pre.take(i as int).map_values(f)[j] == f(pre.take(i as int)[j]));
                    assert(pre.take(i as int)[j] == pre[j]);
                } else {
                    assert(updated@[j] == updated@.last());
                    assert(lhs[j] == updated@.last()@);
                }
            }
            assert(lhs =~= rhs);
        }
        i = i + 1;
    }
    proof {
        assert(pre.take(pre.len() as int) =~= pre);
    }
    vocabulary.entries = updated;
    proof {
        assert(vocabulary@ =~= pre.map_values(
            |e: EntrySpec|
                (if e.id == id {
                    EntrySpec { id, phrase: phrase@, replacement: replacement@, enabled }
                } else {
                    e
                }),
        ));
    }
}

/// Removes every rule whose id is `id`; the order of the rest is kept.
pub fn delete_entry(vocabulary: &mut Vocabulary, id: u64)
    ensures
        final(vocabulary)@ == old(vocabulary)@.filter(|e: EntrySpec| e.id != id),
{
    let ghost pre = vocabulary@;
    let mut kept: Vec<VocabEntry> = Vec::new();
    let mut i: usize = 0;
    while i < vocabulary.entries.len()
        invariant
            i <= pre.len(),
            vocabulary@ == pre,
            vocabulary.entries@.len() == pre.len(),
            kept@.map_values(|e: VocabEntry| e@) == pre.take(i as int).filter(
                |e: EntrySpec| e.id != id,
            ),
        decreases pre.len() - i,
    {
        if vocabulary.entries[i].id != id {
            kept.push(vocabulary.entries[i].clone());
        }
        proof {
            reveal(Seq::filter);
            assert(pre.take(i + 1).drop_last() =~= pre.take(i as int));
            assert(pre.take(i + 1).last() == pre[i as int]);
            assert(kept@.map_values(|e: VocabEntry| e@) =~= pre.take(i + 1).filter(
                |e: EntrySpec| e.id != id,
            ));
        }
        i = i + 1;
    }
    proof {
        assert(pre.take(pre.len() as int) =~= pre);
    }
    vocabulary.entries = kept;
    proof {
        assert(vocabulary@ =~= pre.filter(|e: EntrySpec| e.id != id));
    }
}

/// A word boundary sits at `i` when exactly one of the characters around
/// `i` is a word character (positions outside the text count as none).
pub open spec fn boundary(text: Seq<char>, i: int) -> bool {
    let before = i > 0 && is_word_char_of(text[i - 1]);
    let after = i < text.len() && is_word_char_of(text[i]);
    before != after
}

/// The phrase occurs at `i`, compared case-insensitively, delimited by
/// word boundaries on both sides.
pub open spec fn is_match(text: Seq<char>, phrase: Seq<char>, i: int) -> bool {
    &&& phrase.len() > 0
    &&& 0 <= i
    &&& i + phrase.len() <= text.len()
    &&& (forall|k: int| 0 <= k < phrase.len() ==> ci_eq(text[i + k], #[trigger] phrase[k]))
    &&& boundary(text, i)
    &&& boundary(text, i + phrase.len())
}

/// Positions of the non-overlapping matches of `phrase`, scanning left
/// to right from `from`.
pub open spec fn match_positions_from(text: Seq<char>, phrase: Seq<char>, from: int) -> Seq<int>
    decreases text.len() - from,
    when 0 <= from && phrase.len() > 0
{
    if from + phrase.len() > text.len() {
        seq![]
    } else if is_match(text, phrase, from) {
        seq![from] + match_positions_from(text, phrase, from + phrase.len())
    } else {
        match_positions_from(text, phrase, from + 1)
    }
}

/// Positions of all non-overlapping matches of `phrase` in `text`.
pub open spec fn match_positions(text: Seq<char>, phrase: Seq<char>) -> Seq<int> {
    if phrase.len() == 0 {
        seq![]
    } else {
        match_positions_from(text, phrase, 0)
    }
}

/// Every character of the match is a non-letter or upper-case, and at
/// least one letter occurs: the match reads as all-caps.
pub open spec fn all_caps(m: Seq<char>) -> bool {
    &&& (forall|k: int|
        0 <= k < m.len() ==> (!is_alphabetic_of(#[trigger] m[k]) || is_uppercase_of(m[k])))
    &&& (exists|k: int| 0 <= k < m.len() && is_alphabetic_of(#[trigger] m[k]))
}

/// The replacement recased after the matched text: an all-caps match
/// gives the fully upper-cased replacement, a match whose first
/// character is upper-case capitalizes the replacement's first
/// character, anything else leaves it as stored.
pub open spec fn cased_replacement(m: Seq<char>, r: Seq<char>) -> Seq<char> {
    if all_caps(m) {
        upper_seq(r)
    } else if m.len() > 0 && is_uppercase_of(m[0]) {
        if r.len() == 0 {
            r
        } else {
            upper_chars_of(r[0]) + r.drop_first()
        }
    } else {
        r
    }
}

fn boundary_x(text: &Vec<char>, i: usize) -> (r: bool)
    requires
        i <= text@.len(),
    ensures
        r == boundary(text@, i as int),
{
    let before = i > 0 && char_is_word(text[i - 1]);
    let after = i < text.len() && char_is_word(text[i]);
    before != after
}

fn is_match_x(text: &Vec<char>, phrase: &Vec<char>, i: usize) -> (r: bool)
    requires
        phrase@.len() > 0,
        i + phrase@.len() <= text@.len(),
    ensures
        r == is_match(text@, phrase@, i as int),
{
    let tn = text.len();
    let mut k: usize = 0;
    while k < phrase.len()
        invariant
            tn == text@.len(),
            i + phrase@.len() <= text@.len(),
            k <= phrase@.len(),
            forall|j: int| 0 <= j < k ==> ci_eq(text@[i + j], #[trigger] phrase@[j]),
        decreases phrase@.len() - k,
    {
        if !ci_eq_x(text[i + k], phrase[k]) {
            return false;
        }
        k = k + 1;
    }
    boundary_x(text, i) && boundary_x(text, i + phrase.len())
}

/// Finds the non-overlapping matches of `phrase` in `text`, left to
/// right, as ascending positions at least a phrase length apart.
fn find_matches(text: &Vec<char>, phrase: &Vec<char>) -> (ps: Vec<usize>)
    requires
        phrase@.len() > 0,
    ensures
        ps@.map_values(|p: usize| p as int) == match_positions(text@, phrase@),
        forall|k: int|
            0 <= k < ps@.len() ==> #[trigger] ps@[k] + phrase@.len() <= text@.len(),
        forall|k: int|
            0 <= k && k + 1 < ps@.len() ==> #[trigger] ps@[k] + phrase@.len() <= ps@[k + 1],
{
    let n = text.len();
    let plen = phrase.len();
    let mut ps: Vec<usize> = Vec::new();
    if plen > n {
        proof {
            assert(ps@.map_values(|p: usize| p as int) =~= match_positions(text@, phrase@));
        }
        return ps;
    }
    let mut from: usize = 0;
    while from <= n - plen
        invariant
            n == text@.len(),
            plen == phrase@.len(),
            plen > 0,
            plen <= n,
            from <= n,
            match_positions_from(text@, phrase@, 0) == ps@.map_values(|p: usize| p as int)
                + match_positions_from(text@, phrase@, from as int),
            forall|k: int|
                0 <= k < ps@.len() ==> #[trigger] ps@[k] + phrase@.len() <= text@.len(),
            forall|k: int|
                0 <= k && k + 1 < ps@.len() ==> #[trigger] ps@[k] + phrase@.len() <= ps@[k + 1],
            forall|k: int| 0 <= k < ps@.len() ==> #[trigger] ps@[k] + phrase@.len() <= from,
        decreases n - from,
    {
        let ghost prev = ps@;
        if is_match_x(text, phrase, from) {
            ps.push(from);
            proof {
                let psv = ps@;
                assert(psv.map_values(|p: usize| p as int) =~= prev.map_values(|p: usize| p as int)
                    + seq![from as int]);
                let rest = match_positions_from(text@, phrase@, from + plen);
                assert(match_positions_from(text@, phrase@, from as int) == seq![from as int]
                    + rest);
                assert(prev.map_values(|p: usize| p as int) + (seq![from as int] + rest) =~= (
                prev.map_values(|p: usize| p as int) + seq![from as int]) + rest);
                assert forall|k: int| 0 <= k && k + 1 < psv.len() implies #[trigger] psv[k]
                    + phrase@.len() <= psv[k + 1] by {
                    assert(psv[k] == prev[k]);
                    if k + 1 < psv.len() - 1 {
                        assert(psv[k + 1] == prev[k + 1]);
                        assert(prev[k] + phrase@.len() <= prev[k + 1]);
                    } else {
                        assert(psv[k + 1] == from);
                        assert(prev[k] + phrase@.len() <= from);
                    }
                }
            }
            from = from + plen;
        } else {
            proof {
                assert(match_positions_from(text@, phrase@, from as int)
                    == match_positions_from(text@, phrase@, from as int + 1));
            }
            from = from + 1;
        }
    }
    proof {
        assert(match_positions_from(text@, phrase@, from as int) =~= Seq::<int>::empty());
        assert(ps@.map_values(|p: usize| p as int) + Seq::<int>::empty() =~= ps@.map_values(
            |p: usize| p as int,
        ));
    }
    ps
}

/// The replacement for one concrete match, recased after it.
pub fn apply_case(matched: &str, replacement: &str) -> (r: String)
    ensures
        r@ == cased_replacement(matched@, replacement@),
{
    let m = str_to_chars(matched);
    let rep = str_to_chars(replacement);
    let cased = case_chars(&m, &rep);
    chars_to_string(&cased)
}

/// [`apply_case`] over character vectors.
fn case_chars(m: &Vec<char>, rep: &Vec<char>) -> (r: Vec<char>)
    ensures
        r@ == cased_replacement(m@, rep@),
{
    let mut saw_letter = false;
    let mut all_upper = true;
    let mut k: usize = 0;
    while k < m.len()
        invariant
            k <= m@.len(),
            saw_letter == (exists|j: int| 0 <= j < k && is_alphabetic_of(#[trigger] m@[j])),
            all_upper == (forall|j: int|
                0 <= j < k ==> (!is_alphabetic_of(#[trigger] m@[j]) || is_uppercase_of(m@[j]))),
        decreases m@.len() - k,
    {
        if m[k].is_alphabetic() {
            saw_letter = true;
            if !m[k].is_uppercase() {
                all_upper = false;
            }
        }
        k = k + 1;
    }
    if saw_letter && all_upper {
        let mut r: Vec<char> = Vec::new();
        let mut i: usize = 0;
        proof {
            assert(r@ =~= upper_seq(rep@.take(0)));
        }
        while i < rep.len()
            invariant
                i <= rep@.len(),
                r@ == upper_seq(rep@.take(i as int)),
            decreases rep@.len() - i,
        {
            let mut u = char_upper(rep[i]);
            r.append(&mut u);
            proof {
                assert(rep@.take(i + 1).drop_last() =~= rep@.take(i as int));
                assert(rep@.take(i + 1).last() == rep@[i as int]);
            }
            i = i + 1;
        }
        proof {
            assert(rep@.take(rep@.len() as int) =~= rep@);
        }
        r
    } else if m.len() > 0 && m[0].is_uppercase() {
        if rep.len() == 0 {
            let r: Vec<char> = Vec::new();
            proof {
                assert(r@ =~= cased_replacement(m@, rep@));
            }
            r
        } else {
            let mut r = char_upper(rep[0]);
            proof {
                assert(rep@.subrange(1, 1) =~= Seq::<char>::empty());
                assert(r@ =~= upper_chars_of(rep@[0]) + rep@.subrange(1, 1));
            }
            let mut i: usize = 1;
            while i < rep.len()
                invariant
                    1 <= i <= rep@.len(),
                    rep@.len() > 0,
                    r@ == upper_chars_of(rep@[0]) + rep@.subrange(1, i as int),
                decreases rep@.len() - i,
            {
                r.push(rep[i]);
                proof {
                    assert(r@ =~= upper_chars_of(rep@[0]) + rep@.subrange(1, i + 1));
                }
                i = i + 1;
            }
            proof {
                assert(rep@.subrange(1, rep@.len() as int) =~= rep@.drop_first());
                assert(r@ =~= cased_replacement(m@, rep@));
            }
            r
        }
    } else {
        let mut r: Vec<char> = Vec::new();
        let mut i: usize = 0;
        while i < rep.len()
            invariant
                i <= rep@.len(),
                r@ == rep@.take(i as int),
            decreases rep@.len() - i,
        {
            r.push(rep[i]);
            proof {
                assert(r@ =~= rep@.take(i + 1));
            }
            i = i + 1;
        }
        proof {
            assert(rep@.take(rep@.len() as int) =~= rep@);
        }
        r
    }
}

/// The text produced by one rule's pass, rebuilt from character index
/// `from` on, with the remaining match positions `ps`: the stretches
/// between matches are kept, each match is replaced by the recased
/// replacement.
pub open spec fn pass_text(
    text: Seq<char>,
    phrase: Seq<char>,
    rep: Seq<char>,
    from: int,
    ps: Seq<int>,
) -> Seq<char>
    decreases ps.len(),
{
    if ps.len() == 0 {
        text.subrange(from, text.len() as int)
    } else {
        text.subrange(from, ps[0]) + cased_replacement(
            text.subrange(ps[0], ps[0] + phrase.len() as int),
            rep,
        ) + pass_text(text, phrase, rep, ps[0] + phrase.len() as int, ps.drop_first())
    }
}

/// The corrections produced by one rule's pass, from character index
/// `from` on, where `base` is the byte length of the output already
/// built.  Each correction's position is the UTF-8 byte offset of its
/// replacement in the text that the pass produces.
pub open spec fn pass_corrections(
    text: Seq<char>,
    phrase: Seq<char>,
    rep: Seq<char>,
    from: int,
    base: int,
    ps: Seq<int>,
) -> Seq<CorrectionSpec>
    decreases ps.len(),
{
    if ps.len() == 0 {
        seq![]
    } else {
        let m = text.subrange(ps[0], ps[0] + phrase.len() as int);
        let cr = cased_replacement(m, rep);
        let pos = base + byte_len(text.subrange(from, ps[0]));
        seq![CorrectionSpec { original: m, replacement: cr, position: pos }] + pass_corrections(
            text,
            phrase,
            rep,
            ps[0] + phrase.len() as int,
            pos + byte_len(cr),
            ps.drop_first(),
        )
    }
}

/// What one rule makes of the text: disabled rules and empty phrases
/// leave it alone.
pub open spec fn entry_pass_text(text: Seq<char>, e: EntrySpec) -> Seq<char> {
    if e.enabled && e.phrase.len() > 0 {
        pass_text(text, e.phrase, e.replacement, 0, match_positions(text, e.phrase))
    } else {
        text
    }
}

/// The corrections one rule reports on the text.
pub open spec fn entry_pass_corrections(text: Seq<char>, e: EntrySpec) -> Seq<CorrectionSpec> {
    if e.enabled && e.phrase.len() > 0 {
        pass_corrections(text, e.phrase, e.replacement, 0, 0, match_positions(text, e.phrase))
    } else {
        seq![]
    }
}

/// The text after all rules were applied in list order; each rule sees
/// the output of the previous one.
pub open spec fn engine_text(text: Seq<char>, entries: Seq<EntrySpec>) -> Seq<char>
    decreases entries.len(),
{
    if entries.len() == 0 {
        text
    } else {
        engine_text(entry_pass_text(text, entries[0]), entries.drop_first())
    }
}

/// All corrections reported while applying the rules in list order, in
/// pass order (not yet sorted by position).
pub open spec fn engine_corrections(text: Seq<char>, entries: Seq<EntrySpec>) -> Seq<
    CorrectionSpec,
>
    decreases entries.len(),
{
    if entries.len() == 0 {
        seq![]
    } else {
        entry_pass_corrections(text, entries[0]) + engine_corrections(
            entry_pass_text(text, entries[0]),
            entries.drop_first(),
        )
    }
}

/// Stable insertion of a correction into a position-sorted list: it
/// lands after every correction at the same or a smaller position.
pub open spec fn insert_by_position(s: Seq<CorrectionSpec>, c: CorrectionSpec) -> Seq<
    CorrectionSpec,
>
    decreases s.len(),
{
    if s.len() == 0 {
        seq![c]
    } else if c.position < s[0].position {
        seq![c] + s
    } else {
        seq![s[0]] + insert_by_position(s.drop_first(), c)
    }
}

/// Stable sort of corrections by ascending position.
pub open spec fn sort_by_position(s: Seq<CorrectionSpec>) -> Seq<CorrectionSpec>
    decreases s.len(),
{
    if s.len() == 0 {
        s
    } else {
        insert_by_position(sort_by_position(s.drop_last()), s.last())
    }
}

/// Match positions are inside the text, at or after `from`, and at
/// least a phrase length apart.
pub open spec fn valid_positions(
    text: Seq<char>,
    phrase: Seq<char>,
    from: int,
    ps: Seq<int>,
) -> bool {
    &&& 0 <= from <= text.len()
    &&& forall|k: int| 0 <= k < ps.len() ==> from <= #[trigger] ps[k]
    &&& forall|k: int| 0 <= k < ps.len() ==> #[trigger] ps[k] + phrase.len() <= text.len()
    &&& forall|k: int| 0 <= k && k + 1 < ps.len() ==> #[trigger] ps[k] + phrase.len() <= ps[k + 1]
}

/// The positions found by the scan are valid in the sense above.
proof fn lemma_match_positions_valid(text: Seq<char>, phrase: Seq<char>, from: int)
    requires
        phrase.len() > 0,
        0 <= from <= text.len(),
    ensures
        valid_positions(text, phrase, from, match_positions_from(text, phrase, from)),
    decreases text.len() - from,
{
    let ps = match_positions_from(text, phrase, from);
    if from + phrase.len() > text.len() {
    } else if is_match(text, phrase, from) {
        lemma_match_positions_valid(text, phrase, from + phrase.len() as int);
        let rest = match_positions_from(text, phrase, from + phrase.len() as int);
        assert forall|k: int| 0 <= k < ps.len() implies from <= #[trigger] ps[k] by {
            if k > 0 {
                assert(ps[k] == rest[k - 1]);
            }
        }
        assert forall|k: int| 0 <= k < ps.len() implies #[trigger] ps[k] + phrase.len()
            <= text.len() by {
            if k > 0 {
                assert(ps[k] == rest[k - 1]);
            }
        }
        assert forall|k: int| 0 <= k && k + 1 < ps.len() implies #[trigger] ps[k] + phrase.len()
            <= ps[k + 1] by {
            if k == 0 {
                assert(ps[1] == rest[0]);
            } else {
                assert(ps[k] == rest[k - 1] && ps[k + 1] == rest[k]);
            }
        }
    } else {
        lemma_match_positions_valid(text, phrase, from + 1);
    }
}

/// A subrange taken past a prefix reads from the second operand.
proof fn lemma_subrange_past_prefix(a: Seq<u8>, b: Seq<u8>, lo: int, hi: int)
    requires
        0 <= lo <= hi <= b.len(),
    ensures
        (a + b).subrange(a.len() + lo, a.len() + hi) == b.subrange(lo, hi),
{
    assert((a + b).subrange(a.len() + lo, a.len() + hi) =~= b.subrange(lo, hi));
}

/// Within one pass, every reported correction points at its
/// replacement: the output bytes from `position - base` on are exactly
/// the replacement's encoding.
proof fn lemma_pass_marks(
    text: Seq<char>,
    phrase: Seq<char>,
    rep: Seq<char>,
    from: int,
    base: int,
    ps: Seq<int>,
)
    requires
        phrase.len() > 0,
        valid_positions(text, phrase, from, ps),
    ensures
        ({
            let out = vstd::utf8::encode_utf8(pass_text(text, phrase, rep, from, ps));
            let cs = pass_corrections(text, phrase, rep, from, base, ps);
            forall|k: int|
                0 <= k < cs.len() ==> {
                    &&& base <= (#[trigger] cs[k]).position
                    &&& cs[k].position - base + byte_len(cs[k].replacement) <= out.len()
                    &&& out.subrange(
                        cs[k].position - base,
                        cs[k].position - base + byte_len(cs[k].replacement),
                    ) == vstd::utf8::encode_utf8(cs[k].replacement)
                }
        }),
    decreases ps.len(),
{
    let out_chars = pass_text(text, phrase, rep, from, ps);
    let out = vstd::utf8::encode_utf8(out_chars);
    let cs = pass_corrections(text, phrase, rep, from, base, ps);
    if ps.len() == 0 {
    } else {
        let p = ps[0];
        let seg = text.subrange(from, p);
        let m = text.subrange(p, p + phrase.len() as int);
        let cr = cased_replacement(m, rep);
        let pos0 = base + byte_len(seg);
        let rest = ps.drop_first();
        let tail_chars = pass_text(text, phrase, rep, p + phrase.len() as int, rest);
        let cs_rest = pass_corrections(
            text,
            phrase,
            rep,
            p + phrase.len() as int,
            pos0 + byte_len(cr),
            rest,
        );
        assert(valid_positions(text, phrase, p + phrase.len() as int, rest)) by {
            assert forall|k: int| 0 <= k < rest.len() implies p + phrase.len() <= #[trigger] rest[k] by {
                assert(rest[k] == ps[k + 1]);
                if k > 0 {
                    assert(ps[k] + phrase.len() <= ps[k + 1]);
                    assert(ps[0] + phrase.len() <= ps[1]);
                    // positions grow, so every later one is past the first gap
                    assert(p + phrase.len() <= ps[k + 1]) by {
                        lemma_positions_ascending(ps, phrase.len() as int, 0, k + 1);
                    }
                }
            }
            assert forall|k: int| 0 <= k < rest.len() implies #[trigger] rest[k] + phrase.len()
                <= text.len() by {
                assert(rest[k] == ps[k + 1]);
            }
            assert forall|k: int| 0 <= k && k + 1 < rest.len() implies #[trigger] rest[k]
                + phrase.len() <= rest[k + 1] by {
                assert(rest[k] == ps[k + 1] && rest[k + 1] == ps[k + 2]);
            }
        }
        lemma_pass_marks(text, phrase, rep, p + phrase.len() as int, pos0 + byte_len(cr), rest);
        crate::text::lemma_byte_len_concat(seg + cr, tail_chars);
        crate::text::lemma_byte_len_concat(seg, cr);
        assert(out_chars == seg + cr + tail_chars);
        assert((seg + cr) + tail_chars =~= seg + cr + tail_chars);
        assert(out =~= (vstd::utf8::encode_utf8(seg) + vstd::utf8::encode_utf8(cr))
            + vstd::utf8::encode_utf8(tail_chars));
        let enc_seg = vstd::utf8::encode_utf8(seg);
        let enc_cr = vstd::utf8::encode_utf8(cr);
        let enc_tail = vstd::utf8::encode_utf8(tail_chars);
        assert forall|k: int| 0 <= k < cs.len() implies {
            &&& base <= (#[trigger] cs[k]).position
            &&& cs[k].position - base + byte_len(cs[k].replacement) <= out.len()
            &&& out.subrange(
                cs[k].position - base,
                cs[k].position - base + byte_len(cs[k].replacement),
            ) == vstd::utf8::encode_utf8(cs[k].replacement)
        } by {
            if k == 0 {
                assert(cs[0].position == pos0);
                assert(cs[0].replacement == cr);
                lemma_subrange_past_prefix(enc_seg, enc_cr + enc_tail, 0, enc_cr.len() as int);
                assert(enc_seg + (enc_cr + enc_tail) =~= (enc_seg + enc_cr) + enc_tail);
                assert((enc_cr + enc_tail).subrange(0, enc_cr.len() as int) =~= enc_cr);
                assert(out.subrange(pos0 - base, pos0 - base + byte_len(cr)) =~= enc_cr);
            } else {
                assert(cs[k] == cs_rest[k - 1]);
                let c = cs_rest[k - 1];
                let off = c.position - (pos0 + byte_len(cr));
                assert(pos0 + byte_len(cr) <= c.position);
                assert(off + byte_len(c.replacement) <= enc_tail.len());
                assert(enc_tail.subrange(off, off + byte_len(c.replacement))
                    == vstd::utf8::encode_utf8(c.replacement));
                lemma_subrange_past_prefix(
                    enc_seg + enc_cr,
                    enc_tail,
                    off,
                    off + byte_len(c.replacement),
                );
                assert((enc_seg + enc_cr).len() == pos0 - base + byte_len(cr));
                assert(out.subrange(
                    c.position - base,
                    c.position - base + byte_len(c.replacement),
                ) =~= enc_tail.subrange(off, off + byte_len(c.replacement)));
            }
        }
    }
}

/// Valid positions are ascending: any later one is past the gap after
/// an earlier one.
proof fn lemma_positions_ascending(ps: Seq<int>, plen: int, i: int, j: int)
    requires
        plen > 0,
        0 <= i < j < ps.len(),
        forall|k: int| 0 <= k && k + 1 < ps.len() ==> #[trigger] ps[k] + plen <= ps[k + 1],
    ensures
        ps[i] + plen <= ps[j],
    decreases j - i,
{
    if j == i + 1 {
    } else {
        lemma_positions_ascending(ps, plen, i + 1, j);
    }
}

/// Every correction reported by a single rule points at its replacement
/// in the pass output: the bytes at `position` are the replacement's.
pub proof fn lemma_pass_corrections_mark_output(text: Seq<char>, e: EntrySpec)
    ensures
        ({
            let out = vstd::utf8::encode_utf8(entry_pass_text(text, e));
            let cs = entry_pass_corrections(text, e);
            forall|k: int|
                0 <= k < cs.len() ==> {
                    &&& 0 <= (#[trigger] cs[k]).position
                    &&& cs[k].position + byte_len(cs[k].replacement) <= out.len()
                    &&& out.subrange(
                        cs[k].position,
                        cs[k].position + byte_len(cs[k].replacement),
                    ) == vstd::utf8::encode_utf8(cs[k].replacement)
                }
        }),
{
    if e.enabled && e.phrase.len() > 0 {
        lemma_match_positions_valid(text, e.phrase, 0);
        lemma_pass_marks(text, e.phrase, e.replacement, 0, 0, match_positions(text, e.phrase));
    }
}

/// A rule is live when it is enabled and its phrase is non-empty.
pub open spec fn active_entry(e: EntrySpec) -> bool {
    e.enabled && e.phrase.len() > 0
}

/// Inactive rules change nothing and report nothing.
proof fn lemma_engine_inactive(text: Seq<char>, entries: Seq<EntrySpec>)
    requires
        forall|i: int| 0 <= i < entries.len() ==> !active_entry(#[trigger] entries[i]),
    ensures
        engine_text(text, entries) == text,
        engine_corrections(text, entries) == Seq::<CorrectionSpec>::empty(),
    decreases entries.len(),
{
    if entries.len() == 0 {
        assert(engine_corrections(text, entries) =~= Seq::<CorrectionSpec>::empty());
    } else {
        assert(!active_entry(entries[0]));
        assert(entry_pass_text(text, entries[0]) == text);
        assert forall|i: int|
            0 <= i < entries.drop_first().len() implies !active_entry(
            #[trigger] entries.drop_first()[i],
        ) by {
            assert(entries.drop_first()[i] == entries[i + 1]);
        }
        lemma_engine_inactive(text, entries.drop_first());
        assert(entry_pass_corrections(text, entries[0]) =~= Seq::<CorrectionSpec>::empty());
        assert(engine_corrections(text, entries) =~= Seq::<CorrectionSpec>::empty());
    }
}

/// Whatever `insert_by_position` holds was the inserted correction or
/// was already in the list.
proof fn lemma_insert_contains(s: Seq<CorrectionSpec>, c: CorrectionSpec, x: CorrectionSpec)
    requires
        insert_by_position(s, c).contains(x),
    ensures
        x == c || s.contains(x),
    decreases s.len(),
{
    if s.len() == 0 {
        assert(insert_by_position(s, c) == seq![c]);
        assert(insert_by_position(s, c)[0] == c);
    } else if c.position < s[0].position {
        let r = seq![c] + s;
        let j = choose|j: int| 0 <= j < r.len() && r[j] == x;
        if j == 0 {
        } else {
            assert(s[j - 1] == x);
        }
    } else {
        let r = seq![s[0]] + insert_by_position(s.drop_first(), c);
        let j = choose|j: int| 0 <= j < r.len() && r[j] == x;
        if j == 0 {
            assert(s[0] == x);
        } else {
            assert(insert_by_position(s.drop_first(), c)[j - 1] == x);
            assert(insert_by_position(s.drop_first(), c).contains(x));
            lemma_insert_contains(s.drop_first(), c, x);
            if s.drop_first().contains(x) {
                let t = choose|t: int| 0 <= t < s.drop_first().len() && s.drop_first()[t] == x;
                assert(s[t + 1] == x);
            }
        }
    }
}

/// Sorting does not invent corrections.
proof fn lemma_sort_contains(s: Seq<CorrectionSpec>, x: CorrectionSpec)
    requires
        sort_by_position(s).contains(x),
    ensures
        s.contains(x),
    decreases s.len(),
{
    if s.len() == 0 {
    } else {
        lemma_insert_contains(sort_by_position(s.drop_last()), s.last(), x);
        if x == s.last() {
            assert(s[s.len() - 1] == x);
        } else {
            lemma_sort_contains(s.drop_last(), x);
            let t = choose|t: int| 0 <= t < s.drop_last().len() && s.drop_last()[t] == x;
            assert(s[t] == x);
        }
    }
}

/// When at most one rule is live, every correction in the sorted result
/// points at its replacement inside the final text: the output bytes at
/// `position` are exactly the replacement's bytes.  (With several live
/// rules a later rule may rewrite the region an earlier correction
/// points into, so the guarantee is stated for a lone live rule.)
pub proof fn lemma_corrections_locate_replacements(text: Seq<char>, entries: Seq<EntrySpec>)
    requires
        forall|i: int, j: int|
            0 <= i < j < entries.len() ==> !(active_entry(#[trigger] entries[i]) && active_entry(
                #[trigger] entries[j],
            )),
    ensures
        ({
            let out = vstd::utf8::encode_utf8(engine_text(text, entries));
            let cs = sort_by_position(engine_corrections(text, entries));
            forall|k: int|
                0 <= k < cs.len() ==> {
                    &&& 0 <= (#[trigger] cs[k]).position
                    &&& cs[k].position + byte_len(cs[k].replacement) <= out.len()
                    &&& out.subrange(
                        cs[k].position,
                        cs[k].position + byte_len(cs[k].replacement),
                    ) == vstd::utf8::encode_utf8(cs[k].replacement)
                }
        }),
    decreases entries.len(),
{
    let out = vstd::utf8::encode_utf8(engine_text(text, entries));
    let raw = engine_corrections(text, entries);
    let cs = sort_by_position(raw);
    // every raw correction has the property
    assert forall|k: int| 0 <= k < raw.len() implies {
        &&& 0 <= (#[trigger] raw[k]).position
        &&& raw[k].position + byte_len(raw[k].replacement) <= out.len()
        &&& out.subrange(raw[k].position, raw[k].position + byte_len(raw[k].replacement))
            == vstd::utf8::encode_utf8(raw[k].replacement)
    } by {
        lemma_engine_single_pass(text, entries);
    }
    assert forall|k: int| 0 <= k < cs.len() implies {
        &&& 0 <= (#[trigger] cs[k]).position
        &&& cs[k].position + byte_len(cs[k].replacement) <= out.len()
        &&& out.subrange(cs[k].position, cs[k].position + byte_len(cs[k].replacement))
            == vstd::utf8::encode_utf8(cs[k].replacement)
    } by {
        assert(cs.contains(cs[k]));
        lemma_sort_contains(raw, cs[k]);
        let t = choose|t: int| 0 <= t < raw.len() && raw[t] == cs[k];
        assert(raw[t] == cs[k]);
    }
}

/// With at most one live rule, the engine is that rule's single pass,
/// and its corrections point at their replacements in the final text.
proof fn lemma_engine_single_pass(text: Seq<char>, entries: Seq<EntrySpec>)
    requires
        forall|i: int, j: int|
            0 <= i < j < entries.len() ==> !(active_entry(#[trigger] entries[i]) && active_entry(
                #[trigger] entries[j],
            )),
    ensures
        ({
            let out = vstd::utf8::encode_utf8(engine_text(text, entries));
            let cs = engine_corrections(text, entries);
            forall|k: int|
                0 <= k < cs.len() ==> {
                    &&& 0 <= (#[trigger] cs[k]).position
                    &&& cs[k].position + byte_len(cs[k].replacement) <= out.len()
                    &&& out.subrange(
                        cs[k].position,
                        cs[k].position + byte_len(cs[k].replacement),
                    ) == vstd::utf8::encode_utf8(cs[k].replacement)
                }
        }),
    decreases entries.len(),
{
    if entries.len() == 0 {
    } else {
        let e0 = entries[0];
        let rest = entries.drop_first();
        assert forall|i: int, j: int|
            0 <= i < j < rest.len() implies !(active_entry(#[trigger] rest[i]) && active_entry(
            #[trigger] rest[j],
        )) by {
            assert(rest[i] == entries[i + 1] && rest[j] == entries[j + 1]);
        }
        if active_entry(e0) {
            assert forall|i: int| 0 <= i < rest.len() implies !active_entry(
                #[trigger] rest[i],
            ) by {
                assert(rest[i] == entries[i + 1]);
            }
            let t1 = entry_pass_text(text, e0);
            lemma_engine_inactive(t1, rest);
            assert(engine_text(text, entries) == t1);
            assert(engine_corrections(text, entries) =~= entry_pass_corrections(text, e0));
            lemma_pass_corrections_mark_output(text, e0);
        } else {
            assert(entry_pass_text(text, e0) == text);
            assert(engine_corrections(text, entries) =~= engine_corrections(text, rest));
            lemma_engine_single_pass(text, rest);
        }
    }
}

/// One correction is reported per match.
proof fn lemma_one_correction_per_match(
    text: Seq<char>,
    phrase: Seq<char>,
    rep: Seq<char>,
    from: int,
    base: int,
    ps: Seq<int>,
)
    ensures
        pass_corrections(text, phrase, rep, from, base, ps).len() == ps.len(),
    decreases ps.len(),
{
    if ps.len() > 0 {
        let m = text.subrange(ps[0], ps[0] + phrase.len() as int);
        let cr = cased_replacement(m, rep);
        let pos = base + byte_len(text.subrange(from, ps[0]));
        lemma_one_correction_per_match(
            text,
            phrase,
            rep,
            ps[0] + phrase.len() as int,
            pos + byte_len(cr),
            ps.drop_first(),
        );
    }
}

/// A run that reports no corrections leaves the text unchanged: every
/// replacement is visible as a correction, so an empty correction list
/// means no rule matched anywhere along the way.
pub proof fn lemma_no_corrections_no_change(text: Seq<char>, entries: Seq<EntrySpec>)
    requires
        engine_corrections(text, entries).len() == 0,
    ensures
        engine_text(text, entries) == text,
    decreases entries.len(),
{
    if entries.len() > 0 {
        let e = entries[0];
        let t1 = entry_pass_text(text, e);
        if active_entry(e) {
            let ps = match_positions(text, e.phrase);
            lemma_one_correction_per_match(text, e.phrase, e.replacement, 0, 0, ps);
            assert(ps.len() == 0);
            assert(pass_text(text, e.phrase, e.replacement, 0, ps) == text.subrange(
                0,
                text.len() as int,
            ));
            assert(text.subrange(0, text.len() as int) =~= text);
        }
        assert(t1 == text);
        lemma_no_corrections_no_change(text, entries.drop_first());
    }
}

/// The characters `v[from..to]`.
fn subvec(v: &Vec<char>, from: usize, to: usize) -> (r: Vec<char>)
    requires
        from <= to <= v@.len(),
    ensures
        r@ == v@.subrange(from as int, to as int),
{
    let mut r: Vec<char> = Vec::new();
    let mut i: usize = from;
    while i < to
        invariant
            from <= i <= to <= v@.len(),
            r@ == v@.subrange(from as int, i as int),
        decreases to - i,
    {
        r.push(v[i]);
        proof {
            assert(r@ =~= v@.subrange(from as int, i + 1));
        }
        i = i + 1;
    }
    r
}

/// Appends `text[from..to]` to the output, kept as characters and as a
/// string in lockstep.
fn append_range(out_c: &mut Vec<char>, out_s: &mut String, text: &Vec<char>, from: usize, to: usize)
    requires
        from <= to <= text@.len(),
        old(out_s)@ == old(out_c)@,
        crate::text::bytes_fit(old(out_c)@),
    ensures
        final(out_c)@ == old(out_c)@ + text@.subrange(from as int, to as int),
        final(out_s)@ == final(out_c)@,
        crate::text::bytes_fit(final(out_c)@),
{
    let ghost pre = out_c@;
    let mut i: usize = from;
    while i < to
        invariant
            from <= i <= to <= text@.len(),
            out_c@ == pre + text@.subrange(from as int, i as int),
            out_s@ == out_c@,
            crate::text::bytes_fit(out_c@),
        decreases to - i,
    {
        out_c.push(text[i]);
        out_s.push(text[i]);
        proof {
            assert(out_c@ =~= pre + text@.subrange(from as int, i + 1));
        }
        i = i + 1;
    }
    proof {
        assert(out_c@ =~= pre + text@.subrange(from as int, to as int));
    }
}

/// Appends all of `v` to the output.
fn append_all(out_c: &mut Vec<char>, out_s: &mut String, v: &Vec<char>)
    requires
        old(out_s)@ == old(out_c)@,
        crate::text::bytes_fit(old(out_c)@),
    ensures
        final(out_c)@ == old(out_c)@ + v@,
        final(out_s)@ == final(out_c)@,
        crate::text::bytes_fit(final(out_c)@),
{
    let ghost pre = out_c@;
    let mut i: usize = 0;
    while i < v.len()
        invariant
            i <= v@.len(),
            out_c@ == pre + v@.take(i as int),
            out_s@ == out_c@,
            crate::text::bytes_fit(out_c@),
        decreases v@.len() - i,
    {
        out_c.push(v[i]);
        out_s.push(v[i]);
        proof {
            assert(out_c@ =~= pre + v@.take(i + 1));
        }
        i = i + 1;
    }
    proof {
        assert(v@.take(v@.len() as int) =~= v@);
    }
}

/// Runs one rule over the text: finds the matches and rebuilds the text
/// with recased replacements, reporting one correction per match.
fn apply_entry_pass(text: &Vec<char>, phrase: &Vec<char>, rep: &Vec<char>) -> (r: (
    Vec<char>,
    Vec<CorrectionApplied>,
))
    requires
        phrase@.len() > 0,
    ensures
        r.0@ == pass_text(text@, phrase@, rep@, 0, match_positions(text@, phrase@)),
        r.1@.map_values(|c: CorrectionApplied| c@) == pass_corrections(
            text@,
            phrase@,
            rep@,
            0,
            0,
            match_positions(text@, phrase@),
        ),
{
    let ps = find_matches(text, phrase);
    let ghost all = ps@.map_values(|p: usize| p as int);
    let plen = phrase.len();
    let n = text.len();
    let mut out_c: Vec<char> = Vec::new();
    let mut out_s: String = String::new();
    let mut corrs: Vec<CorrectionApplied> = Vec::new();
    let mut from: usize = 0;
    let mut k: usize = 0;
    proof {
        assert(all.skip(0) =~= all);
        assert(Seq::<char>::empty() + pass_text(text@, phrase@, rep@, 0, all) =~= pass_text(
            text@,
            phrase@,
            rep@,
            0,
            all,
        ));
        assert(Seq::<CorrectionSpec>::empty() + pass_corrections(text@, phrase@, rep@, 0, 0, all)
            =~= pass_corrections(text@, phrase@, rep@, 0, 0, all));
        assert(corrs@.map_values(|c: CorrectionApplied| c@) =~= Seq::<CorrectionSpec>::empty());
        assert(vstd::utf8::encode_utf8(out_c@) =~= Seq::<u8>::empty());
        assert(byte_len(out_c@) == 0);
    }
    while k < ps.len()
        invariant
            n == text@.len(),
            plen == phrase@.len(),
            plen > 0,
            all == ps@.map_values(|p: usize| p as int),
            k <= ps@.len(),
            k < ps@.len() ==> from <= ps@[k as int],
            from <= n,
            forall|j: int| 0 <= j < ps@.len() ==> #[trigger] ps@[j] + phrase@.len() <= text@.len(),
            forall|j: int|
                0 <= j && j + 1 < ps@.len() ==> #[trigger] ps@[j] + phrase@.len() <= ps@[j + 1],
            out_s@ == out_c@,
            crate::text::bytes_fit(out_c@),
            pass_text(text@, phrase@, rep@, 0, all) == out_c@ + pass_text(
                text@,
                phrase@,
                rep@,
                from as int,
                all.skip(k as int),
            ),
            pass_corrections(text@, phrase@, rep@, 0, 0, all) == corrs@.map_values(
                |c: CorrectionApplied| c@,
            ) + pass_corrections(
                text@,
                phrase@,
                rep@,
                from as int,
                byte_len(out_c@),
                all.skip(k as int),
            ),
        decreases ps@.len() - k,
    {
        let p = ps[k];
        let ghost pre_c = out_c@;
        let ghost pre_corrs = corrs@.map_values(|c: CorrectionApplied| c@);
        proof {
            assert(all.skip(k as int)[0] == all[k as int]);
            assert(all[k as int] == ps@[k as int] as int);
        }
        append_range(&mut out_c, &mut out_s, text, from, p);
        let pos = out_s.as_str().len();
        proof {
            assert(pos == byte_len(out_c@));
            crate::text::lemma_byte_len_concat(pre_c, text@.subrange(from as int, p as int));
        }
        let matched = subvec(text, p, p + plen);
        let cased = case_chars(&matched, rep);
        append_all(&mut out_c, &mut out_s, &cased);
        let original = chars_to_string(&matched);
        let replacement = chars_to_string(&cased);
        corrs.push(CorrectionApplied { original, replacement, position: pos });
        proof {
            let ghost skip_k = all.skip(k as int);
            assert(skip_k.drop_first() =~= all.skip(k as int + 1));
            let m = text@.subrange(p as int, p + plen);
            let cr = cased_replacement(m, rep@);
            assert(cased@ == cr);
            // one unfolding of the pass on the match at `p`
            assert(pass_text(text@, phrase@, rep@, from as int, skip_k) == text@.subrange(
                from as int,
                p as int,
            ) + cr + pass_text(text@, phrase@, rep@, p + plen, skip_k.drop_first()));
            assert(out_c@ =~= pre_c + text@.subrange(from as int, p as int) + cr);
            assert(pre_c + (text@.subrange(from as int, p as int) + cr + pass_text(
                text@,
                phrase@,
                rep@,
                p + plen,
                all.skip(k as int + 1),
            )) =~= (pre_c + text@.subrange(from as int, p as int) + cr) + pass_text(
                text@,
                phrase@,
                rep@,
                p + plen,
                all.skip(k as int + 1),
            ));
            // the recorded position is the byte length of the output so far
            assert(pos == byte_len(pre_c) + byte_len(text@.subrange(from as int, p as int)));
            assert(corrs@.map_values(|c: CorrectionApplied| c@) =~= pre_corrs.push(
                CorrectionSpec { original: m, replacement: cr, position: pos as int },
            ));
            assert(pass_corrections(
                text@,
                phrase@,
                rep@,
                from as int,
                byte_len(pre_c),
                skip_k,
            ) == seq![
                CorrectionSpec { original: m, replacement: cr, position: pos as int },
            ] + pass_corrections(
                text@,
                phrase@,
                rep@,
                p + plen,
                pos as int + byte_len(cr),
                skip_k.drop_first(),
            ));
            assert(pre_corrs + (seq![
                CorrectionSpec { original: m, replacement: cr, position: pos as int },
            ] + pass_corrections(
                text@,
                phrase@,
                rep@,
                p + plen,
                pos as int + byte_len(cr),
                all.skip(k as int + 1),
            )) =~= pre_corrs.push(
                CorrectionSpec { original: m, replacement: cr, position: pos as int },
            ) + pass_corrections(
                text@,
                phrase@,
                rep@,
                p + plen,
                pos as int + byte_len(cr),
                all.skip(k as int + 1),
            ));
            crate::text::lemma_byte_len_concat(pre_c + text@.subrange(from as int, p as int), cr);
            assert(byte_len(out_c@) == pos as int + byte_len(cr));
        }
        from = p + plen;
        k = k + 1;
    }
    proof {
        assert(all.skip(ps@.len() as int) =~= Seq::<int>::empty());
    }
    append_range(&mut out_c, &mut out_s, text, from, n);
    proof {
        assert(pass_text(text@, phrase@, rep@, from as int, Seq::<int>::empty()) == text@.subrange(
            from as int,
            n as int,
        ));
        assert(pass_corrections(
            text@,
            phrase@,
            rep@,
            from as int,
            byte_len(out_c@),
            Seq::<int>::empty(),
        ) =~= Seq::<CorrectionSpec>::empty());
        assert(corrs@.map_values(|c: CorrectionApplied| c@) + Seq::<CorrectionSpec>::empty()
            =~= corrs@.map_values(|c: CorrectionApplied| c@));
    }
    (out_c, corrs)
}

/// Extending a subrange by one index appends that element.
proof fn lemma_subrange_push(s: Seq<CorrectionSpec>, a: int, b: int)
    requires
        0 <= a <= b < s.len(),
    ensures
        s.subrange(a, b + 1) == s.subrange(a, b).push(s[b]),
{
    assert(s.subrange(a, b + 1) =~= s.subrange(a, b).push(s[b]));
}

/// Inserts a correction into a position-sorted list, after its equals.
fn insert_correction(sorted: Vec<CorrectionApplied>, c: CorrectionApplied) -> (r: Vec<
    CorrectionApplied,
>)
    ensures
        r@.map_values(|x: CorrectionApplied| x@) == insert_by_position(
            sorted@.map_values(|x: CorrectionApplied| x@),
            c@,
        ),
{
    let ghost sv = sorted@.map_values(|x: CorrectionApplied| x@);
    let mut out: Vec<CorrectionApplied> = Vec::new();
    let mut i: usize = 0;
    proof {
        assert(sv.take(0) =~= Seq::<CorrectionSpec>::empty());
        assert(sv.skip(0) =~= sv);
        assert(out@.map_values(|x: CorrectionApplied| x@) =~= sv.take(0));
        assert(sv.take(0) + insert_by_position(sv.skip(0), c@) =~= insert_by_position(sv, c@));
    }
    while i < sorted.len() && sorted[i].position <= c.position
        invariant
            i <= sorted@.len(),
            sv == sorted@.map_values(|x: CorrectionApplied| x@),
            sv.len() == sorted@.len(),
            out@.map_values(|x: CorrectionApplied| x@) == sv.take(i as int),
            insert_by_position(sv, c@) == sv.take(i as int) + insert_by_position(
                sv.skip(i as int),
                c@,
            ),
        decreases sorted@.len() - i,
    {
        out.push(sorted[i].clone());
        proof {
            assert(sv.skip(i as int)[0] == sv[i as int]);
            assert(sv[i as int] == sorted@[i as int]@);
            assert(!(c@.position < sv.skip(i as int)[0].position));
            assert(insert_by_position(sv.skip(i as int), c@) == seq![sv[i as int]]
                + insert_by_position(sv.skip(i as int).drop_first(), c@));
            assert(sv.skip(i as int).drop_first() =~= sv.skip(i as int + 1));
            assert(out@.map_values(|x: CorrectionApplied| x@) =~= sv.take(i + 1));
            assert(sv.take(i as int) + (seq![sv[i as int]] + insert_by_position(
                sv.skip(i as int + 1),
                c@,
            )) =~= sv.take(i + 1) + insert_by_position(sv.skip(i as int + 1), c@));
        }
        i = i + 1;
    }
    let ghost stop = i as int;
    out.push(c);
    proof {
        if stop < sv.len() {
            assert(sv.skip(stop)[0] == sv[stop]);
            assert(sv[stop] == sorted@[stop]@);
            assert(c@.position < sv[stop].position);
            assert(insert_by_position(sv.skip(stop), c@) == seq![c@] + sv.skip(stop));
        } else {
            assert(sv.skip(stop) =~= Seq::<CorrectionSpec>::empty());
            assert(insert_by_position(sv.skip(stop), c@) == seq![c@]);
            assert(seq![c@] =~= seq![c@] + sv.skip(stop));
        }
        assert(sv.subrange(stop, stop) =~= Seq::<CorrectionSpec>::empty());
        assert(out@.map_values(|x: CorrectionApplied| x@) =~= sv.take(stop) + seq![c@]
            + sv.subrange(stop, stop));
    }
    let mut j: usize = i;
    while j < sorted.len()
        invariant
            0 <= stop <= j <= sorted@.len(),
            sv == sorted@.map_values(|x: CorrectionApplied| x@),
            sv.len() == sorted@.len(),
            out@.map_values(|x: CorrectionApplied| x@) == sv.take(stop) + seq![c@] + sv.subrange(
                stop,
                j as int,
            ),
            insert_by_position(sv, c@) == sv.take(stop) + insert_by_position(sv.skip(stop), c@),
            insert_by_position(sv.skip(stop), c@) == seq![c@] + sv.skip(stop),
        decreases sorted@.len() - j,
    {
        let ghost prev_map = out@.map_values(|x: CorrectionApplied| x@);
        out.push(sorted[j].clone());
        proof {
            assert(sorted@[j as int]@ == sv[j as int]);
            assert(out@.map_values(|x: CorrectionApplied| x@) =~= prev_map.push(sv[j as int]));
            lemma_subrange_push(sv, stop, j as int);
            let abc = sv.take(stop) + seq![c@] + sv.subrange(stop, j as int);
            assert(sv.take(stop) + seq![c@] + sv.subrange(stop, j as int).push(sv[j as int])
                =~= abc.push(sv[j as int]));
        }
        j = j + 1;
    }
    proof {
        assert(sv.subrange(stop, sv.len() as int) =~= sv.skip(stop));
        assert(out@.map_values(|x: CorrectionApplied| x@) =~= sv.take(stop) + (seq![c@] + sv.skip(
            stop,
        )));
    }
    out
}

/// Sorts corrections by ascending position, keeping the relative order
/// of corrections at equal positions.
fn sort_corrections(v: Vec<CorrectionApplied>) -> (r: Vec<CorrectionApplied>)
    ensures
        r@.map_values(|x: CorrectionApplied| x@) == sort_by_position(
            v@.map_values(|x: CorrectionApplied| x@),
        ),
{
    let ghost vv = v@.map_values(|x: CorrectionApplied| x@);
    let mut r: Vec<CorrectionApplied> = Vec::new();
    let mut i: usize = 0;
    proof {
        assert(vv.take(0) =~= Seq::<CorrectionSpec>::empty());
        assert(r@.map_values(|x: CorrectionApplied| x@) =~= Seq::<CorrectionSpec>::empty());
    }
    while i < v.len()
        invariant
            i <= v@.len(),
            vv == v@.map_values(|x: CorrectionApplied| x@),
            vv.len() == v@.len(),
            r@.map_values(|x: CorrectionApplied| x@) == sort_by_position(vv.take(i as int)),
        decreases v@.len() - i,
    {
        r = insert_correction(r, v[i].clone());
        proof {
            assert(v@[i as int]@ == vv[i as int]);
            assert(vv.take(i + 1).drop_last() =~= vv.take(i as int));
            assert(vv.take(i + 1).last() == vv[i as int]);
            assert(sort_by_position(vv.take(i + 1)) == insert_by_position(
                sort_by_position(vv.take(i as int)),
                vv[i as int],
            ));
        }
        i = i + 1;
    }
    proof {
        assert(vv.take(vv.len() as int) =~= vv);
    }
    r
}

/// Applies every enabled rule in list order and reports all corrections,
/// sorted by ascending byte position.
pub fn apply_corrections(text: &str, vocabulary: &Vocabulary) -> (r: CorrectionResult)
    ensures
        r.text@ == engine_text(text@, vocabulary@),
        r.corrections@.map_values(|c: CorrectionApplied| c@) == sort_by_position(
            engine_corrections(text@, vocabulary@),
        ),
{
    let ghost entries = vocabulary@;
    let mut cur: Vec<char> = str_to_chars(text);
    let mut corrs: Vec<CorrectionApplied> = Vec::new();
    let mut i: usize = 0;
    proof {
        assert(entries.skip(0) =~= entries);
        assert(corrs@.map_values(|c: CorrectionApplied| c@) =~= Seq::<CorrectionSpec>::empty());
        assert(Seq::<CorrectionSpec>::empty() + engine_corrections(text@, entries)
            =~= engine_corrections(text@, entries));
    }
    while i < vocabulary.entries.len()
        invariant
            i <= vocabulary.entries@.len(),
            entries == vocabulary@,
            entries.len() == vocabulary.entries@.len(),
            engine_text(text@, entries) == engine_text(cur@, entries.skip(i as int)),
            engine_corrections(text@, entries) == corrs@.map_values(|c: CorrectionApplied| c@)
                + engine_corrections(cur@, entries.skip(i as int)),
        decreases vocabulary.entries@.len() - i,
    {
        let ghost pre_cur = cur@;
        let ghost pre_corrs = corrs@.map_values(|c: CorrectionApplied| c@);
        let ghost e = entries[i as int];
        proof {
            assert(entries[i as int] == vocabulary.entries@[i as int]@);
            assert(entries.skip(i as int)[0] == entries[i as int]);
            assert(entries.skip(i as int).drop_first() =~= entries.skip(i as int + 1));
        }
        let enabled = vocabulary.entries[i].enabled;
        let phrase_empty = vocabulary.entries[i].phrase.as_str().is_empty();
        if enabled && !phrase_empty {
            let phrase_chars = str_to_chars(vocabulary.entries[i].phrase.as_str());
            let rep_chars = str_to_chars(vocabulary.entries[i].replacement.as_str());
            let (new_c, mut pass_cs) = apply_entry_pass(&cur, &phrase_chars, &rep_chars);
            proof {
                assert(new_c@ == entry_pass_text(pre_cur, e));
                assert(pass_cs@.map_values(|c: CorrectionApplied| c@) == entry_pass_corrections(
                    pre_cur,
                    e,
                ));
            }
            cur = new_c;
            corrs.append(&mut pass_cs);
            proof {
                assert(corrs@.map_values(|c: CorrectionApplied| c@) =~= pre_corrs
                    + entry_pass_corrections(pre_cur, e));
                assert(pre_corrs + (entry_pass_corrections(pre_cur, e) + engine_corrections(
                    cur@,
                    entries.skip(i as int + 1),
                )) =~= (pre_corrs + entry_pass_corrections(pre_cur, e)) + engine_corrections(
                    cur@,
                    entries.skip(i as int + 1),
                ));
            }
        } else {
            proof {
                assert(entry_pass_text(pre_cur, e) == pre_cur);
                assert(entry_pass_corrections(pre_cur, e) =~= Seq::<CorrectionSpec>::empty());
                assert(pre_corrs + (Seq::<CorrectionSpec>::empty() + engine_corrections(
                    cur@,
                    entries.skip(i as int + 1),
                )) =~= pre_corrs + engine_corrections(cur@, entries.skip(i as int + 1)));
            }
        }
        i = i + 1;
    }
    proof {
        assert(entries.skip(entries.len() as int) =~= Seq::<EntrySpec>::empty());
        assert(corrs@.map_values(|c: CorrectionApplied| c@) + Seq::<CorrectionSpec>::empty()
            =~= corrs@.map_values(|c: CorrectionApplied| c@));
    }
    let sorted = sort_corrections(corrs);
    let out = chars_to_string(&cur);
    CorrectionResult { text: out, corrections: sorted }
}

} // verus!
