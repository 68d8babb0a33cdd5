//! The shaper: the long-lived engine instance that owns the shaping cache
//! and drives segmentation, word splitting, font fallback, shaping and
//! layout for one `shape` call.
//!
//! A `shape` call runs to completion or fails before returning; the shaper
//! requires exclusive access for its duration. The cache persists across
//! calls and must be cleared with `clear_cache` whenever the set of loaded
//! fonts changes — stale font identifiers would otherwise surface as
//! `NoFontFound` at layout time.

use vstd::prelude::*;
use crate::cache::{
    cache_after_words, cache_cap, cache_clear, cache_contains, cache_entries, cache_get,
    cache_len, cache_model_wf, cache_new, cache_order, cache_put, glyphs_of_results,
    lemma_cache_after_words_snoc, lemma_glyphs_of_results_snoc, lemma_promote_front,
    lemma_promote_props, lemma_put_wf, lru_put_entries, lru_put_order, no_entries, no_keys,
    promote, res_view, result_fits, spec_cache_key, spec_shaping_id, word_key, word_step_entries,
    word_step_order, words_served, CacheKey, CacheVal, ShapeCache, ShapingId,
};
use crate::glyph::{
    glyph_fits, hb_scale, hb_shaped, shape_word_with_font, spec_shaped_word, ShapedGlyph,
};
use crate::layout::{
    laid_out_from, layout_glyphs, spec_layout_result, TextLayout, ORIGIN_MAX,
};
use crate::segment::{
    first_run_len, run_visual_words, spec_direction_of, word_schedule, words_in_visual_order,
    Direction, UnicodeScripts,
};
use crate::style::{ErrorKind, FontDb, FontId, FontMetrics, TextStyle};

verus! {

/// How many word shaping results the cache of a default shaper holds.
pub const LRU_CACHE_CAPACITY: usize = 1000;

/// The text shaping engine: owns the bounded, least-recently-used cache of
/// per-word shaping results.
pub struct Shaper {
    cache: ShapeCache,
}

impl Shaper {
    /// The cached results, one per key.
    pub closed spec fn entries(self) -> Map<CacheKey, Result<Seq<ShapedGlyph>, ErrorKind>> {
        cache_entries(self.cache)
    }

    /// The cached keys, most recently used first.
    pub closed spec fn order(self) -> Seq<CacheKey> {
        cache_order(self.cache)
    }

    /// The fixed cache capacity.
    pub closed spec fn cap(self) -> nat {
        cache_cap(self.cache)
    }

    /// A well-formed shaper: the recency order lists exactly the cached
    /// keys, once each, within the capacity, and every cached success holds
    /// only metric-bounded glyphs.
    pub open spec fn wf(self) -> bool {
        &&& cache_model_wf(self.entries(), self.order(), self.cap())
        &&& forall|k: CacheKey|
            #[trigger] self.entries().contains_key(k) ==> result_fits(self.entries()[k])
    }

    /// A shaper with an empty cache of the given capacity.
    pub fn with_capacity(cap: usize) -> (s: Shaper)
        requires
            cap >= 1,
        ensures
            s.wf(),
            s.cap() == cap,
            s.entries() == no_entries(),
            s.order() == no_keys(),
    {
        Shaper { cache: cache_new(cap) }
    }

    /// Number of cached word results.
    pub fn cache_size(&self) -> (n: usize)
        ensures
            n == self.order().len(),
    {
        cache_len(&self.cache)
    }

    /// Whether a result for shaping `word` under `style` is cached. Reads
    /// without touching the recency order.
    pub fn is_cached(&self, style: &TextStyle, word: &str) -> (r: bool)
        ensures
            r == self.entries().contains_key(spec_cache_key(spec_shaping_id(*style, word@))),
    {
        let key = ShapingId::new(style, word).key();
        cache_contains(&self.cache, &key)
    }

    /// Drop every memoized shaping result. Must be called after any change
    /// to the loaded font set.
    pub fn clear_cache(&mut self)
        requires
            old(self).wf(),
        ensures
            final(self).wf(),
            final(self).cap() == old(self).cap(),
            final(self).entries() == no_entries(),
            final(self).order() == no_keys(),
    {
        cache_clear(&mut self.cache);
    }

    /// The memoizing shaping step for one word. On a hit — a cached success
    /// or a cached failure — the stored result is returned, no font or
    /// engine work happens, and only the key's recency changes. On a miss
    /// the word is resolved and shaped, and the result, error included, is
    /// stored under the word's key, evicting the least-recently-used entry
    /// if the cache is full.
    pub fn get_or_shape<D: FontDb>(
        &mut self,
        fontdb: &mut D,
        style: &TextStyle,
        direction: Direction,
        script: u32,
        word: &str,
    ) -> (r: CacheVal)
        requires
            old(self).wf(),
        ensures
            final(self).wf(),
            final(self).cap() == old(self).cap(),
            result_fits(res_view(r)),
            r matches Err(e) ==> e == ErrorKind::ShapingFailed,
            ({
                let key = spec_cache_key(spec_shaping_id(*style, word@));
                if old(self).entries().contains_key(key) {
                    &&& res_view(r) == old(self).entries()[key]
                    &&& final(self).entries() == old(self).entries()
                    &&& final(self).order() == promote(old(self).order(), key)
                    &&& *final(fontdb) == *old(fontdb)
                } else {
                    &&& res_view(r) == final(self).entries()[key]
                    &&& final(self).entries() == lru_put_entries(
                        old(self).entries(),
                        old(self).order(),
                        old(self).cap(),
                        key,
                        res_view(r),
                    )
                    &&& final(self).order() == lru_put_order(
                        old(self).order(),
                        old(self).entries(),
                        old(self).cap(),
                        key,
                    )
                    &&& (r matches Ok(gs) ==> exists|data: Seq<u8>, id: FontId, upem: u16|
                        upem > 0 && gs@ == #[trigger] spec_shaped_word(
                            hb_shaped(data, hb_scale(style.size), word@, direction is Rtl, script),
                            word@,
                            id,
                            style.size,
                            upem,
                            data,
                        ))
                }
            }),
    {
        let key = ShapingId::new(style, word).key();
        if !cache_contains(&self.cache, &key) {
            let ret = resolve_word(fontdb, style, direction, script, word);
            proof {
                lemma_put_wf(
                    cache_entries(self.cache),
                    cache_order(self.cache),
                    cache_cap(self.cache),
                    key,
                    res_view(ret),
                );
            }
            cache_put(&mut self.cache, key, ret);
        }
        proof {
            lemma_promote_props(cache_order(self.cache), key);
            if cache_order(self.cache).len() > 0 && cache_order(self.cache)[0] == key {
                lemma_promote_front(cache_order(self.cache), key);
            }
        }
        match cache_get(&mut self.cache, &key) {
            Some(v) => v,
            None => {
                // Unreachable: the key was either found or just stored.
                proof {
                    assert(false);
                }
                Err(ErrorKind::ShapingFailed)
            },
        }
    }

    /// Lay out an already shaped glyph sequence: look up each glyph's font
    /// metrics, then compute alignment, pen positions, baseline deltas and
    /// aggregate bounds. A glyph whose font identifier the store does not
    /// answer for aborts the whole layout with `NoFontFound`, leaving the
    /// input untouched — no partial layout is produced.
    pub fn layout<D: FontDb>(
        &mut self,
        x: i128,
        y: i128,
        fontdb: &mut D,
        res: &mut TextLayout,
        style: &TextStyle,
    ) -> (r: Result<(), ErrorKind>)
        requires
            forall|i: int|
                0 <= i < old(res).glyphs@.len() ==> glyph_fits(#[trigger] old(res).glyphs@[i]),
            -ORIGIN_MAX <= x <= ORIGIN_MAX,
            -ORIGIN_MAX <= y <= ORIGIN_MAX,
        ensures
            *final(self) == *old(self),
            old(res).glyphs@.len() == 0 ==> r is Ok,
            r matches Err(e) ==> e == ErrorKind::NoFontFound && *final(res) == *old(res),
            r is Ok ==> laid_out_from(*final(res), x as int, y as int, old(res).glyphs@, *style),
    {
        let n = res.glyphs.len();
        let mut metrics: Vec<FontMetrics> = Vec::new();
        let mut i: usize = 0;
        while i < n
            invariant
                n == res.glyphs@.len(),
                *res == *old(res),
                i <= n,
                metrics@.len() == i,
                forall|j: int|
                    0 <= j < i ==> (#[trigger] metrics@[j]).units_per_em > 0,
            decreases n - i,
        {
            let id = res.glyphs[i].font_id;
            match fontdb.metrics(id) {
                Some(m) => {
                    if m.units_per_em == 0 {
                        return Err(ErrorKind::NoFontFound);
                    }
                    metrics.push(m);
                },
                None => {
                    return Err(ErrorKind::NoFontFound);
                },
            }
            i = i + 1;
        }
        let out = layout_glyphs(x, y, &res.glyphs, &metrics, style);
        let ghost ms = metrics@;
        *res = out;
        proof {
            assert(ms.len() == old(res).glyphs@.len() && spec_layout_result(
                *res,
                x as int,
                y as int,
                old(res).glyphs@,
                ms,
                *style,
            ));
            assert(laid_out_from(*res, x as int, y as int, old(res).glyphs@, *style));
        }
        Ok(())
    }

    /// Shape and lay out `text` under `style` at origin `(x, y)`: segment
    /// it into script runs, split each run into space-inclusive words —
    /// reversed for right-to-left runs — shape each word of the schedule
    /// through the cache, and lay out the concatenated glyph sequence.
    ///
    /// The contract pins the whole pass: the cache evolves from `old(self)`
    /// by exactly one `get_or_shape` step per word of `word_schedule(text@)`
    /// in order, the returned layout is laid out from the concatenation of
    /// the glyphs those steps served, a word whose step served a failure
    /// contributes no glyphs while the call still proceeds, and a call whose
    /// words are all cached adds or replaces no entry. Only an unresolvable
    /// font identifier at layout time fails the call, with `NoFontFound` and
    /// no output; the cache keeps the served state even then. The store is
    /// still consulted for layout metrics on every successful call, so
    /// `fontdb` is only provably untouched per hit word (see
    /// `get_or_shape`).
    #[verifier::rlimit(60)]
    pub fn shape<D: FontDb>(
        &mut self,
        x: i128,
        y: i128,
        fontdb: &mut D,
        style: &TextStyle,
        text: &str,
    ) -> (r: Result<TextLayout, ErrorKind>)
        requires
            old(self).wf(),
            -ORIGIN_MAX <= x <= ORIGIN_MAX,
            -ORIGIN_MAX <= y <= ORIGIN_MAX,
        ensures
            final(self).wf(),
            final(self).cap() == old(self).cap(),
            r matches Err(e) ==> e == ErrorKind::NoFontFound,
            exists|rs: Seq<Result<Seq<ShapedGlyph>, ErrorKind>>|
                #[trigger] words_served(
                    old(self).entries(),
                    old(self).order(),
                    old(self).cap(),
                    *style,
                    word_schedule(text@),
                    rs,
                    final(self).entries(),
                    final(self).order(),
                ) && (r matches Ok(l) ==> laid_out_from(
                    l,
                    x as int,
                    y as int,
                    glyphs_of_results(rs),
                    *style,
                )),
            (forall|i: int|
                0 <= i < word_schedule(text@).len() ==> old(self).entries().contains_key(
                    #[trigger] word_key(*style, word_schedule(text@)[i]),
                )) ==> final(self).entries() == old(self).entries(),
            text@.len() == 0 ==> (r matches Ok(l) && l.glyphs@.len() == 0 && l.width == 0 && l.x
                == x && l.y == y && l.height == 0),
    {
        let ghost e0 = old(self).entries();
        let ghost o0 = old(self).order();
        let ghost cap0 = old(self).cap();
        let ghost sched = word_schedule(text@);
        let ghost mut processed: Seq<Seq<char>> = Seq::empty();
        let ghost mut served: Seq<Result<Seq<ShapedGlyph>, ErrorKind>> = Seq::empty();

        let mut result = TextLayout { x: 0, y: 0, width: 0, height: 0, glyphs: Vec::new() };

        // Segment the text into runs of one script and direction.
        let mut it = text.unicode_scripts();
        let mut done = false;
        proof {
            assert(cache_after_words(e0, o0, cap0, *style, processed, served) == (e0, o0));
            assert(sched =~= processed + word_schedule(it.remaining()));
            assert(result.glyphs@ =~= glyphs_of_results(served));
        }
        while !done
            invariant
                it.wf(),
                it.source() == text@,
                it.remaining().len() <= text@.len(),
                self.wf(),
                self.cap() == cap0,
                e0 == old(self).entries() && o0 == old(self).order() && cap0 == old(self).cap(),
                sched == word_schedule(text@),
                old(self).wf(),
                processed.len() == served.len(),
                forall|i: int| 0 <= i < served.len() ==> result_fits(#[trigger] served[i]),
                forall|i: int|
                    0 <= i < processed.len() ==> #[trigger] cache_after_words(
                        e0,
                        o0,
                        cap0,
                        *style,
                        processed.take(i + 1),
                        served.take(i + 1),
                    ).0[word_key(*style, processed[i])] == served[i],
                self.entries() == cache_after_words(e0, o0, cap0, *style, processed, served).0,
                self.order() == cache_after_words(e0, o0, cap0, *style, processed, served).1,
                sched == processed + word_schedule(it.remaining()),
                result.glyphs@ == glyphs_of_results(served),
                (forall|i: int|
                    0 <= i < sched.len() ==> e0.contains_key(
                        #[trigger] word_key(*style, sched[i]),
                    )) ==> self.entries() == e0,
                forall|j: int|
                    0 <= j < result.glyphs@.len() ==> glyph_fits(#[trigger] result.glyphs@[j]),
                done ==> it.remaining().len() == 0,
                text@.len() == 0 ==> result.glyphs@.len() == 0,
            decreases it.remaining().len() + (if done {
                0int
            } else {
                1int
            }),
        {
            let ghost rem = it.remaining();
            match it.next() {
                None => {
                    done = true;
                },
                Some(run) => {
                    // Split the run into words, reversing right-to-left runs.
                    let words = words_in_visual_order(run.text.as_str(), run.direction);
                    let ghost vw = words@.map_values(|w: String| w@);
                    let ghost rem2 = it.remaining();
                    proof {
                        // One unfolding of the schedule: this run's words in
                        // visual order, then the schedule of the rest.
                        assert(rem.len() > 0);
                        assert(word_schedule(rem) == run_visual_words(
                            rem.take(first_run_len(rem) as int),
                            spec_direction_of(rem[0]),
                        ) + word_schedule(rem.skip(first_run_len(rem) as int)));
                        assert(vw == run_visual_words(run.text@, run.direction));
                        assert(sched =~= processed + vw.skip(0) + word_schedule(rem2));
                    }

                    // Shape each word through the cache; failed words
                    // contribute no glyphs.
                    let mut wi: usize = 0;
                    while wi < words.len()
                        invariant
                            self.wf(),
                            self.cap() == cap0,
                            e0 == old(self).entries() && o0 == old(self).order() && cap0 == old(
                                self,
                            ).cap(),
                            sched == word_schedule(text@),
                            old(self).wf(),
                            wi <= words.len(),
                            vw == words@.map_values(|w: String| w@),
                            processed.len() == served.len(),
                            forall|i: int|
                                0 <= i < served.len() ==> result_fits(#[trigger] served[i]),
                            forall|i: int|
                                0 <= i < processed.len() ==> #[trigger] cache_after_words(
                                    e0,
                                    o0,
                                    cap0,
                                    *style,
                                    processed.take(i + 1),
                                    served.take(i + 1),
                                ).0[word_key(*style, processed[i])] == served[i],
                            self.entries() == cache_after_words(
                                e0,
                                o0,
                                cap0,
                                *style,
                                processed,
                                served,
                            ).0,
                            self.order() == cache_after_words(
                                e0,
                                o0,
                                cap0,
                                *style,
                                processed,
                                served,
                            ).1,
                            sched == processed + vw.skip(wi as int) + word_schedule(rem2),
                            result.glyphs@ == glyphs_of_results(served),
                            (forall|i: int|
                                0 <= i < sched.len() ==> e0.contains_key(
                                    #[trigger] word_key(*style, sched[i]),
                                )) ==> self.entries() == e0,
                            forall|j: int|
                                0 <= j < result.glyphs@.len() ==> glyph_fits(
                                    #[trigger] result.glyphs@[j],
                                ),
                            text@.len() == 0 ==> result.glyphs@.len() == 0,
                        decreases words.len() - wi,
                    {
                        let word = &words[wi];
                        let ghost w = vw[wi as int];
                        let ghost k = processed.len() as int;
                        let ghost entries_before = self.entries();
                        let ghost order_before = self.order();
                        proof {
                            assert(w == words@[wi as int]@);
                            assert(vw.skip(wi as int)[0] == w);
                            assert(sched[k] == w) by {
                                assert(sched == processed + vw.skip(wi as int) + word_schedule(
                                    rem2,
                                ));
                            }
                            assert(k < sched.len());
                        }
                        let shaped = self.get_or_shape(
                            fontdb,
                            style,
                            run.direction,
                            run.script,
                            word.as_str(),
                        );
                        proof {
                            let key = word_key(*style, w);
                            let v = res_view(shaped);
                            let processed2 = processed.push(w);
                            let served2 = served.push(v);
                            lemma_cache_after_words_snoc(
                                e0,
                                o0,
                                cap0,
                                *style,
                                processed,
                                served,
                                w,
                                v,
                            );
                            lemma_glyphs_of_results_snoc(served, v);
                            assert(self.entries() == word_step_entries(
                                entries_before,
                                order_before,
                                cap0,
                                *style,
                                w,
                                v,
                            ));
                            assert(self.order() == word_step_order(
                                entries_before,
                                order_before,
                                cap0,
                                *style,
                                w,
                            ));
                            assert(self.entries() == cache_after_words(
                                e0,
                                o0,
                                cap0,
                                *style,
                                processed2,
                                served2,
                            ).0);
                            assert(self.entries()[key] == v);
                            assert forall|i: int|
                                0 <= i < processed2.len() implies #[trigger] cache_after_words(
                                e0,
                                o0,
                                cap0,
                                *style,
                                processed2.take(i + 1),
                                served2.take(i + 1),
                            ).0[word_key(*style, processed2[i])] == served2[i] by {
                                if i < k {
                                    assert(processed2.take(i + 1) =~= processed.take(i + 1));
                                    assert(served2.take(i + 1) =~= served.take(i + 1));
                                    assert(processed2[i] == processed[i]);
                                    assert(served2[i] == served[i]);
                                } else {
                                    assert(processed2.take(i + 1) =~= processed2);
                                    assert(served2.take(i + 1) =~= served2);
                                    assert(processed2[i] == w);
                                    assert(served2[i] == v);
                                }
                            }
                            assert(sched =~= processed2 + vw.skip(wi + 1) + word_schedule(rem2))
                                by {
                                assert(vw.skip(wi as int) =~= seq![w] + vw.skip(wi + 1));
                            }
                            if forall|i: int|
                                0 <= i < sched.len() ==> e0.contains_key(
                                    #[trigger] word_key(*style, sched[i]),
                                ) {
                                assert(e0.contains_key(word_key(*style, sched[k])));
                                assert(entries_before == e0);
                                assert(entries_before.contains_key(key));
                                assert(self.entries() == e0);
                            }
                            processed = processed2;
                            served = served2;
                        }
                        match shaped {
                            Ok(mut items) => {
                                result.glyphs.append(&mut items);
                                proof {
                                    assert(result.glyphs@ == glyphs_of_results(served));
                                }
                            },
                            Err(_) => {
                                proof {
                                    assert(result.glyphs@ + Seq::<ShapedGlyph>::empty()
                                        =~= result.glyphs@);
                                    assert(result.glyphs@ == glyphs_of_results(served));
                                }
                            },
                        }
                        wi = wi + 1;
                    }
                    proof {
                        assert(vw.skip(words@.len() as int) =~= Seq::<Seq<char>>::empty());
                        assert(processed + Seq::<Seq<char>>::empty() + word_schedule(rem2)
                            =~= processed + word_schedule(rem2));
                    }
                },
            }
        }
        proof {
            assert(word_schedule(it.remaining()) =~= Seq::<Seq<char>>::empty());
            assert(processed + Seq::<Seq<char>>::empty() =~= processed);
            assert(sched == processed);
        }

        // Lay out the concatenated glyph sequence; all or nothing.
        let ghost gs0 = result.glyphs@;
        match self.layout(x, y, fontdb, &mut result, style) {
            Err(e) => {
                proof {
                    assert(words_served(
                        e0,
                        o0,
                        cap0,
                        *style,
                        sched,
                        served,
                        self.entries(),
                        self.order(),
                    ));
                }
                return Err(e);
            },
            Ok(()) => {},
        }
        proof {
            assert(words_served(e0, o0, cap0, *style, sched, served, self.entries(), self.order()));
            assert(laid_out_from(result, x as int, y as int, glyphs_of_results(served), *style));
            if text@.len() == 0 {
                let ms0 = choose|ms: Seq<FontMetrics>|
                    ms.len() == gs0.len() && #[trigger] spec_layout_result(
                        result,
                        x as int,
                        y as int,
                        gs0,
                        ms,
                        *style,
                    );
                assert(gs0 =~= Seq::<ShapedGlyph>::empty());
                assert(crate::layout::spec_total_advance(gs0, style.letter_spacing as int) == 0);
                assert(crate::num::half_trunc(0) == 0);
                assert(result.width == 0 && result.x == x && result.y == y && result.height == 0
                    && result.glyphs@.len() == 0);
            }
        }
        Ok(result)
    }
}

impl Default for Shaper {
    /// A shaper with an empty cache of the reference capacity.
    fn default() -> (s: Shaper)
        ensures
            s.wf(),
            s.cap() == LRU_CACHE_CAPACITY,
            s.entries() == no_entries(),
            s.order() == no_keys(),
    {
        Shaper::with_capacity(LRU_CACHE_CAPACITY)
    }
}

/// Resolve a word to a font and shape it: try the store's candidates in
/// priority order and stop at the first that shapes the word with no
/// missing glyph; if none shapes it cleanly, the last attempt is used
/// best-effort. A word no candidate could shape at all fails with
/// `ShapingFailed`.
fn resolve_word<D: FontDb>(
    fontdb: &mut D,
    style: &TextStyle,
    direction: Direction,
    script: u32,
    word: &str,
) -> (r: CacheVal)
    ensures
        result_fits(res_view(r)),
        r matches Err(e) ==> e == ErrorKind::ShapingFailed,
        r matches Ok(gs) ==> exists|data: Seq<u8>, id: FontId, upem: u16|
            upem > 0 && gs@ == #[trigger] spec_shaped_word(
                hb_shaped(data, hb_scale(style.size), word@, direction is Rtl, script),
                word@,
                id,
                style.size,
                upem,
                data,
            ),
{
    let ids = fontdb.candidates(style, word);
    let mut best: Option<Vec<ShapedGlyph>> = None;
    let mut i: usize = 0;
    while i < ids.len()
        invariant
            i <= ids.len(),
            best matches Some(gs) ==> forall|j: int|
                0 <= j < gs@.len() ==> glyph_fits(#[trigger] gs@[j]),
            best matches Some(gs) ==> exists|data: Seq<u8>, id: FontId, upem: u16|
                upem > 0 && gs@ == #[trigger] spec_shaped_word(
                    hb_shaped(data, hb_scale(style.size), word@, direction is Rtl, script),
                    word@,
                    id,
                    style.size,
                    upem,
                    data,
                ),
        decreases ids.len() - i,
    {
        let id = ids[i];
        if let Some(data) = fontdb.font_data(id) {
            if let Some(m) = fontdb.metrics(id) {
                if m.units_per_em > 0 {
                    let (glyphs, missing) = shape_word_with_font(
                        &data,
                        word,
                        direction,
                        script,
                        id,
                        style.size,
                        m.units_per_em,
                    );
                    proof {
                        assert(m.units_per_em > 0 && glyphs@ == spec_shaped_word(
                            hb_shaped(
                                data@,
                                hb_scale(style.size),
                                word@,
                                direction is Rtl,
                                script,
                            ),
                            word@,
                            id,
                            style.size,
                            m.units_per_em,
                            data@,
                        ));
                    }
                    if !missing {
                        return Ok(glyphs);
                    }
                    best = Some(glyphs);
                }
            }
        }
        i = i + 1;
    }
    match best {
        Some(glyphs) => Ok(glyphs),
        None => Err(ErrorKind::ShapingFailed),
    }
}

} // verus!
