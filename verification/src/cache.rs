//! The shaping cache: a bounded, least-recently-used memoization of per-word
//! shaping results, keyed by the shape-relevant subset of the style plus a
//! content hash of the word.
//!
//! The map and its recency order live in `lru::LruCache`; its behaviour is
//! captured by three named views — the entries, the recency order (most
//! recent first) and the capacity — and every operation's contract states
//! the exact transition the crate's source shows: a fresh insertion at
//! capacity evicts the least-recently-used key, a hit moves its key to the
//! front, a peek moves nothing.

use std::hash::{Hash, Hasher};
use vstd::prelude::*;
use vstd::seq_lib::group_seq_properties;
use crate::glyph::{glyph_fits, ShapedGlyph};
use crate::style::{ErrorKind, FontStyle, TextStyle, Weight, WidthClass};

verus! {

#[verifier::external_type_specification]
#[verifier::external_body]
pub struct ExFnvHasher(fnv::FnvHasher);

#[verifier::external_type_specification]
#[verifier::external_body]
#[verifier::reject_recursive_types(H)]
pub struct ExBuildHasherDefault<H>(std::hash::BuildHasherDefault<H>);

#[verifier::external_type_specification]
#[verifier::external_body]
#[verifier::reject_recursive_types(K)]
#[verifier::reject_recursive_types(V)]
#[verifier::reject_recursive_types(S)]
pub struct ExLruCache<K, V, S>(lru::LruCache<K, V, S>);

/// The 64-bit Fowler–Noll–Vo digest of a text, as `str::hash` feeds it to
/// the hasher: unseeded, so a function of the characters alone.
pub uninterp spec fn fnv64_of(text: Seq<char>) -> u64;

/// Relies on `fnv::FnvHasher` (`Default`, `Hasher::write` through
/// `str::hash`, `Hasher::finish`): the digest is unseeded and deterministic,
/// a function of the hashed text alone, which `fnv64_of` names.
#[verifier::external_body]
fn fnv_text_hash(text: &str) -> (r: u64)
    ensures
        r == fnv64_of(text@),
{
    let mut hasher = fnv::FnvHasher::default();
    text.hash(&mut hasher);
    hasher.finish()
}

/// The shaping cache key: the shape-relevant subset of a style — size,
/// weight, width class and slant — plus a content hash of the word. Styles
/// that differ only in alignment, baseline, letter spacing, blur or render
/// mode build the same key, so they share cache entries.
#[derive(Clone, Copy, Debug, PartialEq, Eq, Structural, Hash)]
pub struct ShapingId {
    pub size: u16,
    pub text_hash: u64,
    pub weight: Weight,
    pub width_class: WidthClass,
    pub font_style: FontStyle,
}

/// The key `ShapingId::new` builds from a style and a word.
pub open spec fn spec_shaping_id(style: TextStyle, text: Seq<char>) -> ShapingId {
    ShapingId {
        size: style.size,
        text_hash: fnv64_of(text),
        weight: style.weight,
        width_class: style.width_class,
        font_style: style.font_style,
    }
}

impl ShapingId {
    /// The cache key for shaping `text` under `style`.
    pub fn new(style: &TextStyle, text: &str) -> (id: ShapingId)
        ensures
            id == spec_shaping_id(*style, text@),
    {
        ShapingId {
            size: style.size,
            text_hash: fnv_text_hash(text),
            weight: style.weight,
            width_class: style.width_class,
            font_style: style.font_style,
        }
    }

    /// The flat form of the key the cache is indexed by.
    pub fn key(&self) -> (k: CacheKey)
        ensures
            k == spec_cache_key(*self),
    {
        (self.size, self.text_hash, weight_code(self.weight), width_class_code(self.width_class), font_style_code(self.font_style))
    }
}

/// The shaping cache key invariant: two styles that agree on the
/// shape-relevant fields — size, weight, width class and slant — produce the
/// same key for the same word, whatever their alignment, baseline, letter
/// spacing, blur or render mode. A layout-only style change therefore never
/// invalidates the cache.
pub proof fn lemma_shaping_id_ignores_layout_fields(s1: TextStyle, s2: TextStyle, text: Seq<char>)
    requires
        s1.size == s2.size,
        s1.weight == s2.weight,
        s1.width_class == s2.width_class,
        s1.font_style == s2.font_style,
    ensures
        spec_shaping_id(s1, text) == spec_shaping_id(s2, text),
{
}

/// Ordinal of a weight class, for the flat cache key.
pub open spec fn spec_weight_code(w: Weight) -> u8 {
    match w {
        Weight::Thin => 0,
        Weight::ExtraLight => 1,
        Weight::Light => 2,
        Weight::Normal => 3,
        Weight::Medium => 4,
        Weight::SemiBold => 5,
        Weight::Bold => 6,
        Weight::ExtraBold => 7,
        Weight::Black => 8,
    }
}

pub fn weight_code(w: Weight) -> (r: u8)
    ensures
        r == spec_weight_code(w),
{
    match w {
        Weight::Thin => 0,
        Weight::ExtraLight => 1,
        Weight::Light => 2,
        Weight::Normal => 3,
        Weight::Medium => 4,
        Weight::SemiBold => 5,
        Weight::Bold => 6,
        Weight::ExtraBold => 7,
        Weight::Black => 8,
    }
}

/// Ordinal of a width class, for the flat cache key.
pub open spec fn spec_width_class_code(w: WidthClass) -> u8 {
    match w {
        WidthClass::UltraCondensed => 0,
        WidthClass::ExtraCondensed => 1,
        WidthClass::Condensed => 2,
        WidthClass::SemiCondensed => 3,
        WidthClass::Normal => 4,
        WidthClass::SemiExpanded => 5,
        WidthClass::Expanded => 6,
        WidthClass::ExtraExpanded => 7,
        WidthClass::UltraExpanded => 8,
    }
}

pub fn width_class_code(w: WidthClass) -> (r: u8)
    ensures
        r == spec_width_class_code(w),
{
    match w {
        WidthClass::UltraCondensed => 0,
        WidthClass::ExtraCondensed => 1,
        WidthClass::Condensed => 2,
        WidthClass::SemiCondensed => 3,
        WidthClass::Normal => 4,
        WidthClass::SemiExpanded => 5,
        WidthClass::Expanded => 6,
        WidthClass::ExtraExpanded => 7,
        WidthClass::UltraExpanded => 8,
    }
}

/// Ordinal of a slant, for the flat cache key.
pub open spec fn spec_font_style_code(s: FontStyle) -> u8 {
    match s {
        FontStyle::Normal => 0,
        FontStyle::Italic => 1,
        FontStyle::Oblique => 2,
    }
}

pub fn font_style_code(s: FontStyle) -> (r: u8)
    ensures
        r == spec_font_style_code(s),
{
    match s {
        FontStyle::Normal => 0,
        FontStyle::Italic => 1,
        FontStyle::Oblique => 2,
    }
}

/// The flat, integer-only form of a `ShapingId`, with a total order and hash
/// the standard library documents.
pub type CacheKey = (u16, u64, u8, u8, u8);

/// What the cache stores per key: the shaped glyphs of the word, or the
/// error that shaping it produced (negative caching).
pub type CacheVal = Result<Vec<ShapedGlyph>, ErrorKind>;

/// The cache behind the shaper: bounded, least-recently-used.
pub type ShapeCache = lru::LruCache<CacheKey, CacheVal, fnv::FnvBuildHasher>;

pub open spec fn spec_cache_key(id: ShapingId) -> CacheKey {
    (
        id.size,
        id.text_hash,
        spec_weight_code(id.weight),
        spec_width_class_code(id.width_class),
        spec_font_style_code(id.font_style),
    )
}

/// The abstract value of a stored result.
pub open spec fn res_view(r: CacheVal) -> Result<Seq<ShapedGlyph>, ErrorKind> {
    match r {
        Ok(v) => Ok(v@),
        Err(e) => Err(e),
    }
}

/// A storable result: every glyph of a success is metric-bounded, and the
/// only error the cache ever holds is a shaping failure.
pub open spec fn result_fits(r: Result<Seq<ShapedGlyph>, ErrorKind>) -> bool {
    match r {
        Ok(gs) => forall|i: int| 0 <= i < gs.len() ==> glyph_fits(#[trigger] gs[i]),
        Err(e) => e == ErrorKind::ShapingFailed,
    }
}

/// The entries the cache holds.
pub uninterp spec fn cache_entries(c: ShapeCache) -> Map<CacheKey, Result<Seq<ShapedGlyph>, ErrorKind>>;

/// The cache's keys ordered from most to least recently used.
pub uninterp spec fn cache_order(c: ShapeCache) -> Seq<CacheKey>;

/// The fixed capacity the cache was created with.
pub uninterp spec fn cache_cap(c: ShapeCache) -> nat;

/// A key moved to (or inserted at) the front of the recency order.
pub open spec fn promote(order: Seq<CacheKey>, k: CacheKey) -> Seq<CacheKey> {
    seq![k] + order.remove_value(k)
}

/// The entries after a put: an existing key is updated in place; a fresh key
/// is inserted, evicting the least-recently-used key first when the cache is
/// full.
pub open spec fn lru_put_entries(
    entries: Map<CacheKey, Result<Seq<ShapedGlyph>, ErrorKind>>,
    order: Seq<CacheKey>,
    cap: nat,
    k: CacheKey,
    v: Result<Seq<ShapedGlyph>, ErrorKind>,
) -> Map<CacheKey, Result<Seq<ShapedGlyph>, ErrorKind>> {
    if entries.contains_key(k) || order.len() < cap {
        entries.insert(k, v)
    } else {
        entries.remove(order.last()).insert(k, v)
    }
}

/// The recency order after a put: an existing key is promoted; a fresh key
/// lands at the front, displacing the last key when the cache is full.
pub open spec fn lru_put_order(
    order: Seq<CacheKey>,
    entries: Map<CacheKey, Result<Seq<ShapedGlyph>, ErrorKind>>,
    cap: nat,
    k: CacheKey,
) -> Seq<CacheKey> {
    if entries.contains_key(k) {
        promote(order, k)
    } else if order.len() < cap {
        seq![k] + order
    } else {
        seq![k] + order.drop_last()
    }
}

/// The empty entry view.
pub open spec fn no_entries() -> Map<CacheKey, Result<Seq<ShapedGlyph>, ErrorKind>> {
    Map::empty()
}

/// The empty recency order.
pub open spec fn no_keys() -> Seq<CacheKey> {
    Seq::empty()
}

/// Relies on `lru::LruCache::with_hasher` and `fnv::FnvBuildHasher`: a fresh,
/// empty cache with the given fixed capacity (the crate requires a nonzero
/// capacity).
#[verifier::external_body]
pub fn cache_new(cap: usize) -> (c: ShapeCache)
    requires
        cap >= 1,
    ensures
        cache_cap(c) == cap,
        cache_entries(c) == no_entries(),
        cache_order(c) == no_keys(),
{
    lru::LruCache::with_hasher(
        std::num::NonZeroUsize::new(cap).unwrap(),
        fnv::FnvBuildHasher::default(),
    )
}

/// Relies on `lru::LruCache::contains`: key lookup without touching the
/// recency order (it reads through `peek`).
#[verifier::external_body]
pub fn cache_contains(c: &ShapeCache, k: &CacheKey) -> (r: bool)
    ensures
        r == cache_entries(*c).contains_key(*k),
{
    c.contains(k)
}

/// Relies on `lru::LruCache::get`: returns the stored value and moves its
/// key to the front of the recency order; a miss changes nothing.
#[verifier::external_body]
pub fn cache_get(c: &mut ShapeCache, k: &CacheKey) -> (r: Option<CacheVal>)
    ensures
        cache_cap(*final(c)) == cache_cap(*old(c)),
        cache_entries(*final(c)) == cache_entries(*old(c)),
        match r {
            Some(v) => cache_entries(*old(c)).contains_key(*k) && res_view(v) == cache_entries(
                *old(c),
            )[*k] && cache_order(*final(c)) == promote(cache_order(*old(c)), *k),
            None => !cache_entries(*old(c)).contains_key(*k) && cache_order(*final(c))
                == cache_order(*old(c)),
        },
{
    c.get(k).cloned()
}

/// Relies on `lru::LruCache::put`: updates an existing key in place and
/// promotes it, or inserts a fresh key at the front, evicting the
/// least-recently-used entry first when the cache is full.
#[verifier::external_body]
pub fn cache_put(c: &mut ShapeCache, k: CacheKey, v: CacheVal)
    ensures
        cache_cap(*final(c)) == cache_cap(*old(c)),
        cache_entries(*final(c)) == lru_put_entries(
            cache_entries(*old(c)),
            cache_order(*old(c)),
            cache_cap(*old(c)),
            k,
            res_view(v),
        ),
        cache_order(*final(c)) == lru_put_order(
            cache_order(*old(c)),
            cache_entries(*old(c)),
            cache_cap(*old(c)),
            k,
        ),
{
    c.put(k, v);
}

/// Relies on `lru::LruCache::clear`: drops every entry; the capacity stays.
#[verifier::external_body]
pub fn cache_clear(c: &mut ShapeCache)
    ensures
        cache_cap(*final(c)) == cache_cap(*old(c)),
        cache_entries(*final(c)) == no_entries(),
        cache_order(*final(c)) == no_keys(),
{
    c.clear();
}

/// Relies on `lru::LruCache::len`: the number of entries, one per key of the
/// recency order.
#[verifier::external_body]
pub fn cache_len(c: &ShapeCache) -> (n: usize)
    ensures
        n == cache_order(*c).len(),
{
    c.len()
}

/// The cache key a word is shaped under, given a style.
pub open spec fn word_key(style: TextStyle, w: Seq<char>) -> CacheKey {
    spec_cache_key(spec_shaping_id(style, w))
}

/// The entries after serving one word: a hit leaves them unchanged; a miss
/// stores the freshly computed result `r` under the word's key.
pub open spec fn word_step_entries(
    entries: Map<CacheKey, Result<Seq<ShapedGlyph>, ErrorKind>>,
    order: Seq<CacheKey>,
    cap: nat,
    style: TextStyle,
    w: Seq<char>,
    r: Result<Seq<ShapedGlyph>, ErrorKind>,
) -> Map<CacheKey, Result<Seq<ShapedGlyph>, ErrorKind>> {
    if entries.contains_key(word_key(style, w)) {
        entries
    } else {
        lru_put_entries(entries, order, cap, word_key(style, w), r)
    }
}

/// The recency order after serving one word: a hit promotes the word's key;
/// a miss stores it, evicting the least-recently-used key when full.
pub open spec fn word_step_order(
    entries: Map<CacheKey, Result<Seq<ShapedGlyph>, ErrorKind>>,
    order: Seq<CacheKey>,
    cap: nat,
    style: TextStyle,
    w: Seq<char>,
) -> Seq<CacheKey> {
    if entries.contains_key(word_key(style, w)) {
        promote(order, word_key(style, w))
    } else {
        lru_put_order(order, entries, cap, word_key(style, w))
    }
}

/// The cache state after serving the words `ws` in order, the result of the
/// word at each missing step taken from `rs`.
pub open spec fn cache_after_words(
    entries: Map<CacheKey, Result<Seq<ShapedGlyph>, ErrorKind>>,
    order: Seq<CacheKey>,
    cap: nat,
    style: TextStyle,
    ws: Seq<Seq<char>>,
    rs: Seq<Result<Seq<ShapedGlyph>, ErrorKind>>,
) -> (Map<CacheKey, Result<Seq<ShapedGlyph>, ErrorKind>>, Seq<CacheKey>)
    decreases ws.len(),
{
    if ws.len() == 0 {
        (entries, order)
    } else {
        cache_after_words(
            word_step_entries(entries, order, cap, style, ws[0], rs[0]),
            word_step_order(entries, order, cap, style, ws[0]),
            cap,
            style,
            ws.drop_first(),
            rs.drop_first(),
        )
    }
}

/// Serving one more word is one step after serving the words before it.
pub proof fn lemma_cache_after_words_snoc(
    entries: Map<CacheKey, Result<Seq<ShapedGlyph>, ErrorKind>>,
    order: Seq<CacheKey>,
    cap: nat,
    style: TextStyle,
    ws: Seq<Seq<char>>,
    rs: Seq<Result<Seq<ShapedGlyph>, ErrorKind>>,
    w: Seq<char>,
    r: Result<Seq<ShapedGlyph>, ErrorKind>,
)
    requires
        rs.len() == ws.len(),
    ensures
        ({
            let mid = cache_after_words(entries, order, cap, style, ws, rs);
            cache_after_words(entries, order, cap, style, ws.push(w), rs.push(r)) == (
                word_step_entries(mid.0, mid.1, cap, style, w, r),
                word_step_order(mid.0, mid.1, cap, style, w),
            )
        }),
    decreases ws.len(),
{
    if ws.len() == 0 {
        let e2 = word_step_entries(entries, order, cap, style, w, r);
        let o2 = word_step_order(entries, order, cap, style, w);
        assert(ws.push(w).drop_first() =~= ws);
        assert(rs.push(r).drop_first() =~= rs);
        assert(ws.push(w)[0] == w);
        assert(rs.push(r)[0] == r);
        assert(cache_after_words(e2, o2, cap, style, ws, rs) == (e2, o2));
        assert(cache_after_words(entries, order, cap, style, ws, rs) == (entries, order));
    } else {
        assert(ws.push(w)[0] == ws[0]);
        assert(rs.push(r)[0] == rs[0]);
        assert(ws.push(w).drop_first() =~= ws.drop_first().push(w));
        assert(rs.push(r).drop_first() =~= rs.drop_first().push(r));
        lemma_cache_after_words_snoc(
            word_step_entries(entries, order, cap, style, ws[0], rs[0]),
            word_step_order(entries, order, cap, style, ws[0]),
            cap,
            style,
            ws.drop_first(),
            rs.drop_first(),
            w,
            r,
        );
    }
}

/// The glyphs a sequence of per-word results contributes, in order: each
/// success its glyphs, each failure nothing.
pub open spec fn glyphs_of_results(rs: Seq<Result<Seq<ShapedGlyph>, ErrorKind>>) -> Seq<ShapedGlyph>
    decreases rs.len(),
{
    if rs.len() == 0 {
        seq![]
    } else {
        (match rs[0] {
            Ok(gs) => gs,
            Err(_) => seq![],
        }) + glyphs_of_results(rs.drop_first())
    }
}

/// One more result appends its glyphs, if any, after the ones before it.
pub proof fn lemma_glyphs_of_results_snoc(
    rs: Seq<Result<Seq<ShapedGlyph>, ErrorKind>>,
    r: Result<Seq<ShapedGlyph>, ErrorKind>,
)
    ensures
        glyphs_of_results(rs.push(r)) == glyphs_of_results(rs) + (match r {
            Ok(gs) => gs,
            Err(_) => seq![],
        }),
    decreases rs.len(),
{
    if rs.len() == 0 {
        assert(rs.push(r).drop_first() =~= rs);
        assert(rs.push(r)[0] == r);
        assert(glyphs_of_results(rs.push(r)) =~= glyphs_of_results(rs) + (match r {
            Ok(gs) => gs,
            Err(_) => seq![],
        }));
    } else {
        assert(rs.push(r)[0] == rs[0]);
        assert(rs.push(r).drop_first() =~= rs.drop_first().push(r));
        lemma_glyphs_of_results_snoc(rs.drop_first(), r);
        assert(glyphs_of_results(rs.push(r)) =~= glyphs_of_results(rs) + (match r {
            Ok(gs) => gs,
            Err(_) => seq![],
        }));
    }
}

/// The full trace of one shaping pass over a word schedule: one result per
/// word, every result storable, each the entry under its word's key right
/// after its step — a hit returns what was stored, a miss what was just
/// computed and stored — and the cache ends in the fold's final state.
pub open spec fn words_served(
    entries0: Map<CacheKey, Result<Seq<ShapedGlyph>, ErrorKind>>,
    order0: Seq<CacheKey>,
    cap: nat,
    style: TextStyle,
    ws: Seq<Seq<char>>,
    rs: Seq<Result<Seq<ShapedGlyph>, ErrorKind>>,
    entries1: Map<CacheKey, Result<Seq<ShapedGlyph>, ErrorKind>>,
    order1: Seq<CacheKey>,
) -> bool {
    &&& rs.len() == ws.len()
    &&& forall|i: int| 0 <= i < rs.len() ==> result_fits(#[trigger] rs[i])
    &&& forall|i: int|
        0 <= i < ws.len() ==> #[trigger] cache_after_words(
            entries0,
            order0,
            cap,
            style,
            ws.take(i + 1),
            rs.take(i + 1),
        ).0[word_key(style, ws[i])] == rs[i]
    &&& entries1 == cache_after_words(entries0, order0, cap, style, ws, rs).0
    &&& order1 == cache_after_words(entries0, order0, cap, style, ws, rs).1
}

/// A serving fold whose words are all cached never changes the entries:
/// every step is a hit, which only promotes.
proof fn lemma_hits_fold_keeps_entries(
    entries: Map<CacheKey, Result<Seq<ShapedGlyph>, ErrorKind>>,
    order: Seq<CacheKey>,
    cap: nat,
    style: TextStyle,
    ws: Seq<Seq<char>>,
    rs: Seq<Result<Seq<ShapedGlyph>, ErrorKind>>,
)
    requires
        rs.len() == ws.len(),
        forall|i: int| 0 <= i < ws.len() ==> entries.contains_key(#[trigger] word_key(style, ws[i])),
    ensures
        cache_after_words(entries, order, cap, style, ws, rs).0 == entries,
    decreases ws.len(),
{
    if ws.len() > 0 {
        assert(entries.contains_key(word_key(style, ws[0])));
        assert(word_step_entries(entries, order, cap, style, ws[0], rs[0]) == entries);
        assert(forall|i: int|
            0 <= i < ws.drop_first().len() ==> #[trigger] ws.drop_first()[i] == ws[i + 1]);
        lemma_hits_fold_keeps_entries(
            entries,
            word_step_order(entries, order, cap, style, ws[0]),
            cap,
            style,
            ws.drop_first(),
            rs.drop_first(),
        );
    }
}

/// Determinism through the cache: a serving trace whose scheduled words are
/// all cached changes no entry and returns exactly the stored results. Two
/// shaping passes over the same cache state and word schedule therefore
/// serve the same per-word results, and with them the same glyph sequence.
pub proof fn lemma_all_cached_trace_determined(
    entries0: Map<CacheKey, Result<Seq<ShapedGlyph>, ErrorKind>>,
    order0: Seq<CacheKey>,
    cap: nat,
    style: TextStyle,
    ws: Seq<Seq<char>>,
    rs: Seq<Result<Seq<ShapedGlyph>, ErrorKind>>,
    entries1: Map<CacheKey, Result<Seq<ShapedGlyph>, ErrorKind>>,
    order1: Seq<CacheKey>,
)
    requires
        words_served(entries0, order0, cap, style, ws, rs, entries1, order1),
        forall|i: int|
            0 <= i < ws.len() ==> entries0.contains_key(#[trigger] word_key(style, ws[i])),
    ensures
        entries1 == entries0,
        forall|i: int| 0 <= i < ws.len() ==> #[trigger] rs[i] == entries0[word_key(style, ws[i])],
{
    lemma_hits_fold_keeps_entries(entries0, order0, cap, style, ws, rs);
    assert forall|i: int|
        0 <= i < ws.len() implies #[trigger] rs[i] == entries0[word_key(style, ws[i])] by {
        assert(ws.take(i + 1).len() == rs.take(i + 1).len());
        assert(forall|j: int|
            0 <= j < ws.take(i + 1).len() ==> #[trigger] ws.take(i + 1)[j] == ws[j]);
        lemma_hits_fold_keeps_entries(entries0, order0, cap, style, ws.take(i + 1), rs.take(i + 1));
        assert(cache_after_words(entries0, order0, cap, style, ws.take(i + 1), rs.take(i + 1)).0[
            word_key(style, ws[i])] == rs[i]);
    }
}

/// The structural invariant tying the three views together: the recency
/// order lists exactly the stored keys, once each, and never exceeds the
/// capacity.
pub open spec fn cache_model_wf(
    entries: Map<CacheKey, Result<Seq<ShapedGlyph>, ErrorKind>>,
    order: Seq<CacheKey>,
    cap: nat,
) -> bool {
    &&& cap >= 1
    &&& order.no_duplicates()
    &&& order.len() <= cap
    &&& forall|k: CacheKey| #[trigger] entries.contains_key(k) <==> order.contains(k)
}

/// Promotion keeps the order duplicate-free and its members unchanged but
/// for the promoted key; a promoted member keeps the length.
pub proof fn lemma_promote_props(order: Seq<CacheKey>, k: CacheKey)
    requires
        order.no_duplicates(),
    ensures
        promote(order, k).no_duplicates(),
        order.contains(k) ==> promote(order, k).len() == order.len(),
        !order.contains(k) ==> promote(order, k).len() == order.len() + 1,
        forall|x: CacheKey| promote(order, k).contains(x) <==> (order.contains(x) || x == k),
{
    broadcast use group_seq_properties;

    order.index_of_first_ensures(k);
    if order.contains(k) {
        let i = order.index_of_first(k).unwrap();
        order.remove_ensures(i);
        assert forall|x: CacheKey| order.remove_value(k).contains(x) implies order.contains(
            x,
        ) by {
            let j = choose|j: int|
                0 <= j < order.remove_value(k).len() && order.remove_value(k)[j] == x;
            if j < i {
                assert(order[j] == x);
            } else {
                assert(order[j + 1] == x);
            }
        }
        assert forall|x: CacheKey| order.contains(x) && x != k implies order.remove_value(
            k,
        ).contains(x) by {
            let j = choose|j: int| 0 <= j < order.len() && order[j] == x;
            if j < i {
                assert(order.remove_value(k)[j] == x);
            } else {
                assert(j > i);
                assert(order.remove_value(k)[j - 1] == x);
            }
        }
        assert(!order.remove_value(k).contains(k)) by {
            if order.remove_value(k).contains(k) {
                let j = choose|j: int|
                    0 <= j < order.remove_value(k).len() && order.remove_value(k)[j] == k;
                if j < i {
                    assert(order[j] == k);
                } else {
                    assert(order[j + 1] == k);
                }
            }
        }
        let promoted = promote(order, k);
        assert forall|j1: int, j2: int|
            0 <= j1 < j2 < promoted.len() implies promoted[j1] != promoted[j2] by {
            if j1 > 0 {
                let a = promoted[j1];
                let b = promoted[j2];
                assert(order.remove_value(k)[j1 - 1] == a);
                assert(order.remove_value(k)[j2 - 1] == b);
                if j1 - 1 < i {
                    assert(order[j1 - 1] == a);
                } else {
                    assert(order[j1] == a);
                }
                if j2 - 1 < i {
                    assert(order[j2 - 1] == b);
                } else {
                    assert(order[j2] == b);
                }
            }
        }
    } else {
        assert(order.remove_value(k) == order);
    }
}

/// Promoting the key that already sits at the front of the recency order
/// changes nothing.
pub proof fn lemma_promote_front(order: Seq<CacheKey>, k: CacheKey)
    requires
        order.len() > 0,
        order[0] == k,
    ensures
        promote(order, k) == order,
{
    order.index_of_first_ensures(k);
    let i = order.index_of_first(k).unwrap();
    assert(i == 0);
    order.remove_ensures(0);
    assert(order.remove(0) =~= order.drop_first());
    assert(seq![k] + order.drop_first() =~= order);
}

/// A put preserves the structural invariant, and afterwards the put key is
/// stored with the put value at the front of the recency order.
pub proof fn lemma_put_wf(
    entries: Map<CacheKey, Result<Seq<ShapedGlyph>, ErrorKind>>,
    order: Seq<CacheKey>,
    cap: nat,
    k: CacheKey,
    v: Result<Seq<ShapedGlyph>, ErrorKind>,
)
    requires
        cache_model_wf(entries, order, cap),
    ensures
        cache_model_wf(lru_put_entries(entries, order, cap, k, v), lru_put_order(order, entries, cap, k), cap),
        lru_put_entries(entries, order, cap, k, v).contains_key(k),
        lru_put_entries(entries, order, cap, k, v)[k] == v,
{
    broadcast use group_seq_properties;

    let entries2 = lru_put_entries(entries, order, cap, k, v);
    let order2 = lru_put_order(order, entries, cap, k);
    if entries.contains_key(k) {
        lemma_promote_props(order, k);
    } else if order.len() < cap {
        assert forall|x: CacheKey| #[trigger] entries2.contains_key(x) implies order2.contains(
            x,
        ) by {
            if x == k {
                assert(order2[0] == k);
            } else {
                let j = choose|j: int| 0 <= j < order.len() && order[j] == x;
                assert(order2[j + 1] == x);
            }
        }
        assert forall|x: CacheKey| order2.contains(x) implies entries2.contains_key(x) by {
            let j = choose|j: int| 0 <= j < order2.len() && order2[j] == x;
            if j > 0 {
                assert(order[j - 1] == x);
            }
        }
    } else {
        let evicted = order.last();
        assert(order.contains(evicted));
        assert(order2 == seq![k] + order.drop_last());
        assert forall|j1: int, j2: int| 0 <= j1 < j2 < order2.len() implies order2[j1]
            != order2[j2] by {
            if j1 > 0 {
                assert(order[j1 - 1] == order2[j1]);
                assert(order[j2 - 1] == order2[j2]);
            } else {
                assert(order2[j2] == order[j2 - 1]);
                assert(!order.contains(k));
            }
        }
        assert forall|x: CacheKey| #[trigger] entries2.contains_key(x) implies order2.contains(
            x,
        ) by {
            if x == k {
                assert(order2[0] == k);
            } else {
                assert(entries.contains_key(x) && x != evicted);
                let j = choose|j: int| 0 <= j < order.len() && order[j] == x;
                assert(j < order.len() - 1) by {
                    if j == order.len() - 1 {
                        assert(order[j] == evicted);
                    }
                }
                assert(order2[j + 1] == x);
            }
        }
        assert forall|x: CacheKey| order2.contains(x) implies entries2.contains_key(x) by {
            let j = choose|j: int| 0 <= j < order2.len() && order2[j] == x;
            if j > 0 {
                assert(order[j - 1] == x);
                assert(x != evicted) by {
                    if x == evicted {
                        assert(order[j - 1] == order[order.len() - 1]);
                    }
                }
            }
        }
    }
}

/// The model after putting each key of `ks` in turn, all with value `v`.
pub open spec fn model_after_puts(
    entries: Map<CacheKey, Result<Seq<ShapedGlyph>, ErrorKind>>,
    order: Seq<CacheKey>,
    cap: nat,
    ks: Seq<CacheKey>,
    v: Result<Seq<ShapedGlyph>, ErrorKind>,
) -> (Map<CacheKey, Result<Seq<ShapedGlyph>, ErrorKind>>, Seq<CacheKey>)
    decreases ks.len(),
{
    if ks.len() == 0 {
        (entries, order)
    } else {
        model_after_puts(
            lru_put_entries(entries, order, cap, ks[0], v),
            lru_put_order(order, entries, cap, ks[0]),
            cap,
            ks.drop_first(),
            v,
        )
    }
}

/// Filling a cache with fresh, distinct keys while it has room stacks them
/// in front of the existing order, newest first, and stores them all.
proof fn lemma_fill_fresh(
    entries: Map<CacheKey, Result<Seq<ShapedGlyph>, ErrorKind>>,
    order: Seq<CacheKey>,
    cap: nat,
    ks: Seq<CacheKey>,
    v: Result<Seq<ShapedGlyph>, ErrorKind>,
)
    requires
        ks.no_duplicates(),
        order.len() + ks.len() <= cap,
        forall|x: CacheKey| #[trigger] entries.contains_key(x) <==> order.contains(x),
        forall|i: int| 0 <= i < ks.len() ==> !order.contains(#[trigger] ks[i]),
    ensures
        model_after_puts(entries, order, cap, ks, v).1 == ks.reverse() + order,
        forall|x: CacheKey|
            #[trigger] model_after_puts(entries, order, cap, ks, v).0.contains_key(x) <==> (
            entries.contains_key(x) || ks.contains(x)),
    decreases ks.len(),
{
    broadcast use group_seq_properties;

    if ks.len() == 0 {
        assert(ks.reverse() + order =~= order);
        assert(forall|x: CacheKey| !ks.contains(x));
    } else {
        let k = ks[0];
        assert(!order.contains(k));
        assert(!entries.contains_key(k));
        assert(order.len() < cap);
        let entries2 = lru_put_entries(entries, order, cap, k, v);
        let order2 = lru_put_order(order, entries, cap, k);
        assert(order2 == seq![k] + order);
        assert forall|x: CacheKey| #[trigger] entries2.contains_key(x) <==> order2.contains(
            x,
        ) by {
            if x == k {
                assert(order2[0] == k);
            } else if entries2.contains_key(x) {
                let j = choose|j: int| 0 <= j < order.len() && order[j] == x;
                assert(order2[j + 1] == x);
            } else if order2.contains(x) {
                let j = choose|j: int| 0 <= j < order2.len() && order2[j] == x;
                assert(j > 0);
                assert(order[j - 1] == x);
            }
        }
        assert forall|i: int| 0 <= i < ks.drop_first().len() implies !order2.contains(
            #[trigger] ks.drop_first()[i],
        ) by {
            assert(ks.drop_first()[i] == ks[i + 1]);
            if order2.contains(ks[i + 1]) {
                let j = choose|j: int| 0 <= j < order2.len() && order2[j] == ks[i + 1];
                if j == 0 {
                    assert(ks[i + 1] == k);
                } else {
                    assert(order[j - 1] == ks[i + 1]);
                }
            }
        }
        lemma_fill_fresh(entries2, order2, cap, ks.drop_first(), v);
        assert(model_after_puts(entries, order, cap, ks, v) == model_after_puts(
            entries2,
            order2,
            cap,
            ks.drop_first(),
            v,
        ));
        assert(ks.drop_first().reverse() + (seq![k] + order) =~= ks.reverse() + order);
        assert forall|x: CacheKey|
            #[trigger] model_after_puts(entries, order, cap, ks, v).0.contains_key(x) <==> (
        entries.contains_key(x) || ks.contains(x)) by {
            if ks.contains(x) {
                let j = choose|j: int| 0 <= j < ks.len() && ks[j] == x;
                if j > 0 {
                    assert(ks.drop_first()[j - 1] == x);
                }
            }
            if ks.drop_first().contains(x) {
                let j = choose|j: int|
                    0 <= j < ks.drop_first().len() && ks.drop_first()[j] == x;
                assert(ks[j + 1] == x);
            }
        }
    }
}

/// The cache bound law: putting `cap + 1` distinct fresh keys into an empty
/// cache of capacity `cap` leaves exactly `cap` entries, evicts exactly the
/// least-recently-used key — the first one put — and keeps every other key.
pub proof fn lemma_cache_bound_eviction(
    ks: Seq<CacheKey>,
    v: Result<Seq<ShapedGlyph>, ErrorKind>,
    cap: nat,
)
    requires
        cap >= 1,
        ks.len() == cap + 1,
        ks.no_duplicates(),
    ensures
        ({
            let m = model_after_puts(
                Map::<CacheKey, Result<Seq<ShapedGlyph>, ErrorKind>>::empty(),
                Seq::<CacheKey>::empty(),
                cap,
                ks,
                v,
            );
            &&& m.1.len() == cap
            &&& !m.0.contains_key(ks[0])
            &&& forall|i: int| 1 <= i < ks.len() ==> m.0.contains_key(#[trigger] ks[i])
        }),
{
    broadcast use group_seq_properties;

    let empty_e = Map::<CacheKey, Result<Seq<ShapedGlyph>, ErrorKind>>::empty();
    let empty_o = Seq::<CacheKey>::empty();
    let head = ks.take(cap as int);
    let last = ks[cap as int];
    lemma_model_after_puts_split(empty_e, empty_o, cap, head, seq![last], v);
    assert(head + seq![last] =~= ks);
    lemma_fill_fresh(empty_e, empty_o, cap, head, v);
    let mid = model_after_puts(empty_e, empty_o, cap, head, v);
    assert(mid.1 == head.reverse() + empty_o);
    assert(mid.1 =~= head.reverse());
    assert(mid.1.len() == cap);
    assert(!mid.0.contains_key(last)) by {
        if head.contains(last) {
            let j = choose|j: int| 0 <= j < head.len() && head[j] == last;
            assert(ks[j] == last);
        }
    }
    let fin = model_after_puts(mid.0, mid.1, cap, seq![last], v);
    assert(model_after_puts(empty_e, empty_o, cap, ks, v) == fin);
    assert(seq![last].drop_first() =~= Seq::<CacheKey>::empty());
    assert(fin == model_after_puts(
        lru_put_entries(mid.0, mid.1, cap, last, v),
        lru_put_order(mid.1, mid.0, cap, last),
        cap,
        Seq::<CacheKey>::empty(),
        v,
    ));
    let evicted = mid.1.last();
    assert(evicted == head.reverse()[cap - 1]);
    assert(evicted == head[0]);
    assert(evicted == ks[0]);
    assert(fin.1 == seq![last] + mid.1.drop_last());
    assert(fin.1.len() == cap);
    assert(fin.0 == mid.0.remove(ks[0]).insert(last, v));
    assert(ks[0] != last);
    assert forall|i: int| 1 <= i < ks.len() implies fin.0.contains_key(#[trigger] ks[i]) by {
        if i < cap {
            assert(head[i] == ks[i]);
            assert(head.contains(ks[i]));
            assert(mid.0.contains_key(ks[i]));
            assert(ks[i] != ks[0]);
        }
    }
}

/// Putting a concatenation of key sequences is putting the one, then the
/// other from the state the first left behind.
proof fn lemma_model_after_puts_split(
    entries: Map<CacheKey, Result<Seq<ShapedGlyph>, ErrorKind>>,
    order: Seq<CacheKey>,
    cap: nat,
    ks1: Seq<CacheKey>,
    ks2: Seq<CacheKey>,
    v: Result<Seq<ShapedGlyph>, ErrorKind>,
)
    ensures
        model_after_puts(entries, order, cap, ks1 + ks2, v) == model_after_puts(
            model_after_puts(entries, order, cap, ks1, v).0,
            model_after_puts(entries, order, cap, ks1, v).1,
            cap,
            ks2,
            v,
        ),
    decreases ks1.len(),
{
    if ks1.len() == 0 {
        assert(ks1 + ks2 =~= ks2);
    } else {
        assert((ks1 + ks2)[0] == ks1[0]);
        assert((ks1 + ks2).drop_first() =~= ks1.drop_first() + ks2);
        lemma_model_after_puts_split(
            lru_put_entries(entries, order, cap, ks1[0], v),
            lru_put_order(order, entries, cap, ks1[0]),
            cap,
            ks1.drop_first(),
            ks2,
            v,
        );
    }
}

} // verus!
