//! Script and direction segmentation, and word splitting.
//!
//! The segmenter walks the characters of the input and emits maximal runs of
//! a single Unicode script. The pseudo-scripts Common and Inherited are
//! wildcards: a run whose concrete script is still undetermined adopts the
//! next concrete script it meets, and a wildcard character extends any run.
//! A run's direction is fixed by its first character's bidi class; there is
//! no reordering inside a run.
//!
//! The word splitter cuts a run after every space, keeping the space with the
//! preceding word, and — as a run-level approximation of bidirectional
//! reordering, deliberately short of the full bidi algorithm — reverses the
//! word order of right-to-left runs while leaving every word's internal
//! character order unchanged.

use unicode_script::UnicodeScript;
use vstd::prelude::*;

verus! {

/// Direction of a run of text.
#[derive(Clone, Copy, Debug, PartialEq, Eq, Structural)]
pub enum Direction {
    Ltr,
    Rtl,
}

/// The Unicode script property of a character: its ISO 15924 tag (four ASCII
/// bytes, big-endian), paired with `true` when the script is one of the
/// wildcard pseudo-scripts Common or Inherited.
pub uninterp spec fn script_of(c: char) -> (u32, bool);

/// Whether a character's bidi class is right-to-left (class R or AL).
pub uninterp spec fn is_rtl_char(c: char) -> bool;

/// Relies on `unicode_script` (`UnicodeScript::script`,
/// `Script::as_iso15924_tag`, the `Common` and `Inherited` variants): the
/// script property of a character, a function of the character alone. Every
/// script's short name is exactly four ASCII characters, so the tag
/// conversion cannot fail.
#[verifier::external_body]
fn char_script(c: char) -> (r: (u32, bool))
    ensures
        r == script_of(c),
{
    let s = c.script();
    (s.as_iso15924_tag(), matches!(s, unicode_script::Script::Common | unicode_script::Script::Inherited))
}

/// Relies on `unicode_bidi::bidi_class`: whether the bidi class of a
/// character is R or AL, a function of the character alone.
#[verifier::external_body]
fn char_is_rtl(c: char) -> (r: bool)
    ensures
        r == is_rtl_char(c),
{
    matches!(unicode_bidi::bidi_class(c), unicode_bidi::BidiClass::R | unicode_bidi::BidiClass::AL)
}

/// Direction derived from a character's bidi class: R and AL map to
/// right-to-left, every other class to the left-to-right default.
pub open spec fn spec_direction_of(c: char) -> Direction {
    if is_rtl_char(c) {
        Direction::Rtl
    } else {
        Direction::Ltr
    }
}

impl Direction {
    /// The direction a run starting at `c` gets.
    pub fn of_char(c: char) -> (d: Direction)
        ensures
            d == spec_direction_of(c),
    {
        if char_is_rtl(c) {
            Direction::Rtl
        } else {
            Direction::Ltr
        }
    }
}

/// Whether a run whose script state is `cur` is extended by a character of
/// script `next`: always, while either side is a wildcard; otherwise only by
/// the same concrete script.
pub open spec fn run_extends(cur: (u32, bool), next: (u32, bool)) -> bool {
    cur.1 || next.1 || next == cur
}

/// The script state after absorbing a character of script `next`: a run still
/// on a wildcard adopts the first concrete script it meets.
pub open spec fn run_next_state(cur: (u32, bool), next: (u32, bool)) -> (u32, bool) {
    if cur.1 && !next.1 {
        next
    } else {
        cur
    }
}

/// Number of characters after the run's first one that the run absorbs,
/// folding the script state from `cur` over `s`.
pub open spec fn run_len_rec(s: Seq<char>, cur: (u32, bool)) -> nat
    decreases s.len(),
{
    if s.len() == 0 {
        0
    } else if !run_extends(cur, script_of(s[0])) {
        0
    } else {
        1 + run_len_rec(s.drop_first(), run_next_state(cur, script_of(s[0])))
    }
}

/// The script state at the end of the run, folding from `cur` over `s`.
pub open spec fn run_state_rec(s: Seq<char>, cur: (u32, bool)) -> (u32, bool)
    decreases s.len(),
{
    if s.len() == 0 {
        cur
    } else if !run_extends(cur, script_of(s[0])) {
        cur
    } else {
        run_state_rec(s.drop_first(), run_next_state(cur, script_of(s[0])))
    }
}

/// Length of the maximal first run of `s`; zero only for empty input.
pub open spec fn first_run_len(s: Seq<char>) -> nat {
    if s.len() == 0 {
        0
    } else {
        1 + run_len_rec(s.drop_first(), script_of(s[0]))
    }
}

/// Script of the maximal first run of `s`: the first concrete script the run
/// meets, or the first character's wildcard script if it meets none.
pub open spec fn first_run_script(s: Seq<char>) -> (u32, bool) {
    if s.len() == 0 {
        (0, false)
    } else {
        run_state_rec(s.drop_first(), script_of(s[0]))
    }
}

/// A run never absorbs more characters than the text holds.
pub proof fn lemma_run_len_rec_bound(s: Seq<char>, cur: (u32, bool))
    ensures
        run_len_rec(s, cur) <= s.len(),
    decreases s.len(),
{
    if s.len() > 0 && run_extends(cur, script_of(s[0])) {
        lemma_run_len_rec_bound(s.drop_first(), run_next_state(cur, script_of(s[0])));
    }
}

/// The first run of a nonempty text has between one character and all of
/// them.
pub proof fn lemma_first_run_len_bounds(s: Seq<char>)
    ensures
        s.len() > 0 ==> 1 <= first_run_len(s) <= s.len(),
{
    if s.len() > 0 {
        lemma_run_len_rec_bound(s.drop_first(), script_of(s[0]));
    }
}

/// One maximal run: its script's ISO 15924 tag, its direction, and its text.
#[derive(Clone, Debug)]
pub struct ScriptRun {
    /// ISO 15924 tag of the run's script (possibly of a wildcard
    /// pseudo-script, when the run contains no concrete-script character).
    pub script: u32,
    /// Direction fixed by the run's first character.
    pub direction: Direction,
    /// The run's characters, in logical order.
    pub text: String,
}

/// A restartable, pull-based producer of the script runs of one text.
pub struct UnicodeScriptIterator {
    text: String,
    pos: usize,
}

impl UnicodeScriptIterator {
    /// The whole text being segmented.
    pub closed spec fn source(self) -> Seq<char> {
        self.text@
    }

    /// The characters not yet emitted as runs.
    pub closed spec fn remaining(self) -> Seq<char> {
        self.text@.skip(self.pos as int)
    }

    pub closed spec fn wf(self) -> bool {
        self.pos <= self.text@.len()
    }

    /// An iterator positioned at the start of `text`.
    pub fn new(text: &str) -> (it: UnicodeScriptIterator)
        ensures
            it.wf(),
            it.source() == text@,
            it.remaining() == text@,
    {
        let it = UnicodeScriptIterator { text: String::from_str(text), pos: 0 };
        proof {
            assert(it.remaining() =~= text@);
        }
        it
    }

    /// The next maximal run, or `None` once the text is exhausted.
    pub fn next(&mut self) -> (r: Option<ScriptRun>)
        requires
            old(self).wf(),
        ensures
            final(self).wf(),
            final(self).source() == old(self).source(),
            old(self).remaining().len() == 0 ==> r is None && *final(self) == *old(self),
            old(self).remaining().len() > 0 ==> ({
                let rem = old(self).remaining();
                let n = first_run_len(rem) as int;
                &&& r matches Some(run) && run.text@ == rem.take(n)
                    && run.direction == spec_direction_of(rem[0]) && run.script
                    == first_run_script(rem).0
                &&& final(self).remaining() == rem.skip(n)
                &&& final(self).remaining().len() < rem.len()
            }),
    {
        let len = self.text.as_str().unicode_len();
        if self.pos >= len {
            return None;
        }
        let ghost rem = self.text@.skip(self.pos as int);
        let ghost tail = rem.drop_first();
        let start = self.pos;
        let first = self.text.as_str().get_char(start);
        let direction = Direction::of_char(first);
        let mut state = char_script(first);
        let ghost init = script_of(first);
        let mut end = start + 1;
        let mut stop = false;
        proof {
            assert(rem[0] == first);
            assert(tail =~= self.text@.skip(start + 1));
            assert(tail.skip(0) =~= tail);
        }
        while !stop && end < len
            invariant
                self.wf(),
                len == self.text@.len(),
                start < len,
                start + 1 <= end <= len,
                rem == self.text@.skip(start as int),
                tail == self.text@.skip(start + 1),
                self.pos == start,
                !stop ==> run_len_rec(tail, init) == (end - start - 1) + run_len_rec(
                    tail.skip(end - start - 1),
                    state,
                ),
                !stop ==> run_state_rec(tail, init) == run_state_rec(
                    tail.skip(end - start - 1),
                    state,
                ),
                stop ==> run_len_rec(tail, init) == end - start - 1 && run_state_rec(tail, init)
                    == state,
            decreases len - end + (if stop {
                0int
            } else {
                1int
            }),
        {
            let ghost d = end - start - 1;
            let c = self.text.as_str().get_char(end);
            let sc = char_script(c);
            proof {
                assert(tail.skip(d)[0] == self.text@[end as int]);
                assert(tail.skip(d).drop_first() =~= tail.skip(d + 1));
            }
            if state.1 || sc.1 || (sc.0 == state.0 && sc.1 == state.1) {
                proof {
                    assert(run_extends(state, script_of(c)));
                }
                state = if state.1 && !sc.1 {
                    sc
                } else {
                    state
                };
                end = end + 1;
            } else {
                proof {
                    assert(!run_extends(state, script_of(c)));
                    assert(run_len_rec(tail.skip(d), state) == 0);
                    assert(run_state_rec(tail.skip(d), state) == state);
                }
                stop = true;
            }
        }
        proof {
            if !stop {
                assert(tail.skip(end - start - 1).len() == 0);
                assert(run_len_rec(tail.skip(end - start - 1), state) == 0);
                assert(run_state_rec(tail.skip(end - start - 1), state) == state);
            }
            assert(run_len_rec(tail, init) == end - start - 1);
            assert(first_run_len(rem) == end - start);
            assert(first_run_script(rem) == state);
        }
        let sub = self.text.as_str().substring_char(start, end);
        let text = String::from_str(sub);
        proof {
            assert(text@ =~= rem.take(end - start));
        }
        self.pos = end;
        proof {
            assert(self.text@.skip(end as int) =~= rem.skip(end - start));
        }
        Some(ScriptRun { script: state.0, direction, text })
    }
}

/// Anything that can be segmented into script runs.
pub trait UnicodeScripts {
    /// The characters that will be segmented.
    spec fn script_source(&self) -> Seq<char>;

    /// A fresh run iterator over the whole text.
    fn unicode_scripts(&self) -> (it: UnicodeScriptIterator)
        ensures
            it.wf(),
            it.source() == self.script_source(),
            it.remaining() == self.script_source(),
    ;
}

impl UnicodeScripts for str {
    open spec fn script_source(&self) -> Seq<char> {
        self@
    }

    fn unicode_scripts(&self) -> (it: UnicodeScriptIterator) {
        UnicodeScriptIterator::new(self)
    }
}

impl UnicodeScripts for String {
    open spec fn script_source(&self) -> Seq<char> {
        self@
    }

    fn unicode_scripts(&self) -> (it: UnicodeScriptIterator) {
        UnicodeScriptIterator::new(self.as_str())
    }
}

/// Length of the first space-inclusive word of `s`: everything up to and
/// including the first space, or all of `s` if it has no space.
pub open spec fn first_word_len(s: Seq<char>) -> nat
    decreases s.len(),
{
    if s.len() == 0 {
        0
    } else if s[0] == ' ' {
        1
    } else {
        1 + first_word_len(s.drop_first())
    }
}

pub proof fn lemma_first_word_len_bounds(s: Seq<char>)
    ensures
        s.len() > 0 ==> 1 <= first_word_len(s) <= s.len(),
    decreases s.len(),
{
    if s.len() > 0 {
        if s[0] == ' ' {
            assert(first_word_len(s) == 1);
        } else {
            lemma_first_word_len_bounds(s.drop_first());
            assert(first_word_len(s) == 1 + first_word_len(s.drop_first()));
            assert(s.drop_first().len() == s.len() - 1);
        }
    }
}

/// The space-inclusive words of `s`, in logical order: `s` is cut after every
/// space, and the last word may lack one. Empty input has no words.
pub open spec fn words_of(s: Seq<char>) -> Seq<Seq<char>>
    decreases s.len(),
    via words_of_decreases
{
    if s.len() == 0 {
        seq![]
    } else {
        seq![s.take(first_word_len(s) as int)] + words_of(s.skip(first_word_len(s) as int))
    }
}

#[via_fn]
proof fn words_of_decreases(s: Seq<char>) {
    lemma_first_word_len_bounds(s);
}

/// Split a run's text into space-inclusive words, in logical order.
pub fn split_words(text: &str) -> (words: Vec<String>)
    ensures
        words@.map_values(|w: String| w@) == words_of(text@),
{
    let len = text.unicode_len();
    let mut words: Vec<String> = Vec::new();
    let mut start: usize = 0;
    proof {
        assert(text@.skip(0) =~= text@);
    }
    while start < len
        invariant
            len == text@.len(),
            start <= len,
            words_of(text@) == words@.map_values(|w: String| w@) + words_of(
                text@.skip(start as int),
            ),
        decreases len - start,
    {
        let ghost from = start as int;
        let mut end: usize = start;
        let mut stop = false;
        proof {
            lemma_first_word_len_bounds(text@.skip(from));
        }
        while !stop && end < len
            invariant
                len == text@.len(),
                from <= end <= len,
                !stop ==> first_word_len(text@.skip(from)) == (end - from) + first_word_len(
                    text@.skip(end as int),
                ),
                stop ==> from < end && first_word_len(text@.skip(from)) == end - from,
            decreases len - end + (if stop { 0int } else { 1int }),
        {
            let ghost before = end as int;
            let c = text.get_char(end);
            proof {
                assert(text@.skip(before)[0] == c);
                assert(text@.skip(before).drop_first() =~= text@.skip(before + 1));
            }
            end = end + 1;
            if c == ' ' {
                stop = true;
            }
        }
        proof {
            if !stop {
                assert(text@.skip(end as int).len() == 0);
            }
            assert(first_word_len(text@.skip(from)) == end - from);
        }
        let word = String::from_str(text.substring_char(start, end));
        proof {
            assert(word@ =~= text@.skip(from).take(end - from));
            assert(text@.skip(from).skip(end - from) =~= text@.skip(end as int));
            assert(words@.push(word).map_values(|w: String| w@) =~= words@.map_values(
                |w: String| w@,
            ).push(word@));
        }
        words.push(word);
        start = end;
    }
    proof {
        assert(words_of(text@.skip(start as int)) =~= Seq::<Seq<char>>::empty());
        assert(words@.map_values(|w: String| w@) + Seq::<Seq<char>>::empty() =~= words@.map_values(
            |w: String| w@,
        ));
    }
    words
}

/// The words of a run in the order they are shaped: logical order for a
/// left-to-right run, reversed for a right-to-left run.
pub open spec fn run_visual_words(run: Seq<char>, direction: Direction) -> Seq<Seq<char>> {
    if direction == Direction::Rtl {
        words_of(run).reverse()
    } else {
        words_of(run)
    }
}

/// The word schedule of a whole text: run by run in logical order, each
/// run's space-inclusive words in visual order. This is exactly the order
/// in which the engine shapes words.
pub open spec fn word_schedule(s: Seq<char>) -> Seq<Seq<char>>
    decreases s.len(),
    via word_schedule_decreases
{
    if s.len() == 0 {
        seq![]
    } else {
        run_visual_words(s.take(first_run_len(s) as int), spec_direction_of(s[0]))
            + word_schedule(s.skip(first_run_len(s) as int))
    }
}

#[via_fn]
proof fn word_schedule_decreases(s: Seq<char>) {
    lemma_first_run_len_bounds(s);
}

/// The words of one run in the order they will be shaped and laid out:
/// logical order for a left-to-right run, reversed order for a right-to-left
/// run. Reversal touches only the order of the words; every word keeps its
/// internal character order, so for a right-to-left run the result is exactly
/// the reverse of the left-to-right split of the same text.
pub fn words_in_visual_order(text: &str, direction: Direction) -> (words: Vec<String>)
    ensures
        words@.map_values(|w: String| w@) == run_visual_words(text@, direction),
        direction == Direction::Ltr ==> words@.map_values(|w: String| w@) == words_of(text@),
        direction == Direction::Rtl ==> words@.map_values(|w: String| w@) == words_of(
            text@,
        ).reverse(),
{
    let mut words = split_words(text);
    match direction {
        Direction::Ltr => words,
        Direction::Rtl => {
            let ghost logical = words@;
            let mut rev: Vec<String> = Vec::new();
            while words.len() > 0
                invariant
                    words@ == logical.take(words@.len() as int),
                    rev@.len() + words@.len() == logical.len(),
                    forall|j: int|
                        0 <= j < rev@.len() ==> rev@[j] == logical[logical.len() - 1 - j],
                decreases words.len(),
            {
                let w = words.pop().unwrap();
                proof {
                    assert(w == logical[words@.len() as int]);
                    assert(words@ =~= logical.take(words@.len() as int));
                }
                rev.push(w);
            }
            proof {
                assert(rev@.map_values(|w: String| w@) =~= logical.map_values(
                    |w: String| w@,
                ).reverse());
            }
            rev
        },
    }
}

} // verus!
