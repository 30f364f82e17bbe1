use vstd::prelude::*;
use crate::models::{Game, GameView};
use crate::seq_facts::{lemma_filter_push, lemma_take_push};

verus! {

// ==================== Types ====================

/// How many games a category holds.
pub struct CategoryCount {
    pub name: String,
    pub count: usize,
}

/// A game among those played most.
pub struct TopGame {
    pub name: String,
    pub play_time: u64,
    pub category: String,
}

/// The figures shown on the home page.
pub struct HomeStats {
    pub total_games: usize,
    pub total_favorites: usize,
    pub total_play_time: u64,
    /// Every category with its number of games, most populated first.
    pub category_distribution: Vec<CategoryCount>,
    /// Up to five games played most, most played first, each played at least a minute.
    pub top5_playtime: Vec<TopGame>,
}

// ==================== Model ====================

pub open spec fn favorites_in(gs: Seq<GameView>) -> nat
    decreases gs.len(),
{
    if gs.len() == 0 {
        0
    } else {
        favorites_in(gs.drop_last()) + if gs.last().favorite { 1nat } else { 0nat }
    }
}

pub open spec fn play_time_in(gs: Seq<GameView>) -> nat
    decreases gs.len(),
{
    if gs.len() == 0 {
        0
    } else {
        play_time_in(gs.drop_last()) + gs.last().play_time as nat
    }
}

/// The number of games of a category.
pub open spec fn games_in_category(gs: Seq<GameView>, c: Seq<char>) -> nat
    decreases gs.len(),
{
    if gs.len() == 0 {
        0
    } else {
        games_in_category(gs.drop_last(), c) + if gs.last().category == c { 1nat } else { 0nat }
    }
}

/// Where a game goes among games ordered by play time, most first: after every game played
/// at least as long.
pub open spec fn insert_pos(s: Seq<GameView>, g: GameView) -> nat
    decreases s.len(),
{
    if s.len() == 0 {
        0
    } else if s.last().play_time >= g.play_time {
        s.len()
    } else {
        insert_pos(s.drop_last(), g)
    }
}

/// The games ordered by play time, most first; games played equally long keep their order.
pub open spec fn by_play_time(gs: Seq<GameView>) -> Seq<GameView>
    decreases gs.len(),
{
    if gs.len() == 0 {
        Seq::empty()
    } else {
        let s = by_play_time(gs.drop_last());
        s.insert(insert_pos(s, gs.last()) as int, gs.last())
    }
}

pub open spec fn played(g: GameView) -> bool {
    g.play_time > 0
}

pub open spec fn top_entry(g: GameView) -> (Seq<char>, u64, Seq<char>) {
    (g.name, g.play_time, g.category)
}

/// The entries of the games played at least once, in order.
pub open spec fn played_entries(s: Seq<GameView>) -> Seq<(Seq<char>, u64, Seq<char>)>
    decreases s.len(),
{
    if s.len() == 0 {
        Seq::empty()
    } else if played(s.last()) {
        played_entries(s.drop_last()).push(top_entry(s.last()))
    } else {
        played_entries(s.drop_last())
    }
}

/// Of the five games played most (fewer when there are fewer), those played at least once.
pub open spec fn top_five(gs: Seq<GameView>) -> Seq<(Seq<char>, u64, Seq<char>)> {
    let s = by_play_time(gs);
    played_entries(s.take(if s.len() < 5 { s.len() as int } else { 5 }))
}

pub open spec fn top_view(v: Seq<TopGame>) -> Seq<(Seq<char>, u64, Seq<char>)> {
    Seq::new(v.len(), |i: int| (v[i].name@, v[i].play_time, v[i].category@))
}

/// The category counts are right: each count is the number of games of its category, no
/// category is listed twice, every category of a game is listed, and the most populated come
/// first.
pub open spec fn is_distribution(gs: Seq<GameView>, d: Seq<CategoryCount>) -> bool {
    &&& forall|k: int|
        0 <= k < d.len() ==> #[trigger] d[k].count == games_in_category(gs, d[k].name@)
            && d[k].count > 0
    &&& forall|a: int, b: int| 0 <= a < b < d.len() ==> d[a].name@ != d[b].name@
    &&& forall|j: int| #![trigger gs[j]] 0 <= j < gs.len() ==> exists|k: int| 0 <= k < d.len() && #[trigger] d[k].name@ == gs[j].category
    &&& forall|a: int, b: int| 0 <= a < b < d.len() ==> d[a].count >= d[b].count
}

// ==================== Lemmas ====================

proof fn lemma_insert_pos_bound(s: Seq<GameView>, g: GameView)
    ensures
        insert_pos(s, g) <= s.len(),
    decreases s.len(),
{
    if s.len() > 0 && s.last().play_time < g.play_time {
        lemma_insert_pos_bound(s.drop_last(), g);
    }
}

proof fn lemma_by_play_time_len(gs: Seq<GameView>)
    ensures
        by_play_time(gs).len() == gs.len(),
    decreases gs.len(),
{
    if gs.len() > 0 {
        lemma_by_play_time_len(gs.drop_last());
        lemma_insert_pos_bound(by_play_time(gs.drop_last()), gs.last());
    }
}

/// Ordered by play time, most first.
pub open spec fn ordered_by_play_time(s: Seq<GameView>) -> bool {
    forall|a: int, b: int| 0 <= a < b < s.len() ==> s[a].play_time >= s[b].play_time
}

proof fn lemma_insert_pos_splits(s: Seq<GameView>, g: GameView)
    requires
        ordered_by_play_time(s),
    ensures
        forall|k: int| 0 <= k < insert_pos(s, g) ==> s[k].play_time >= g.play_time,
        forall|k: int| insert_pos(s, g) <= k < s.len() ==> s[k].play_time < g.play_time,
    decreases s.len(),
{
    lemma_insert_pos_bound(s, g);
    if s.len() > 0 {
        let t = s.drop_last();
        if s.last().play_time < g.play_time {
            assert(ordered_by_play_time(t));
            lemma_insert_pos_splits(t, g);
            assert forall|k: int| 0 <= k < insert_pos(s, g) implies s[k].play_time
                >= g.play_time by {
                assert(s[k] == t[k]);
            }
            assert forall|k: int| insert_pos(s, g) <= k < s.len() implies s[k].play_time
                < g.play_time by {
                if k < t.len() {
                    assert(s[k] == t[k]);
                }
            }
        } else {
            assert forall|k: int| 0 <= k < insert_pos(s, g) implies s[k].play_time
                >= g.play_time by {
                if k < s.len() - 1 {
                    assert(s[k].play_time >= s[s.len() - 1].play_time);
                }
            }
        }
    }
}

proof fn lemma_by_play_time_ordered(gs: Seq<GameView>)
    ensures
        ordered_by_play_time(by_play_time(gs)),
        by_play_time(gs).len() == gs.len(),
    decreases gs.len(),
{
    lemma_by_play_time_len(gs);
    if gs.len() > 0 {
        let s = by_play_time(gs.drop_last());
        let g = gs.last();
        lemma_by_play_time_ordered(gs.drop_last());
        lemma_insert_pos_splits(s, g);
        let p = insert_pos(s, g) as int;
        let out = s.insert(p, g);
        assert forall|a: int, b: int| 0 <= a < b < out.len() implies out[a].play_time
            >= out[b].play_time by {
            if a < p && b < p {
            } else if a < p && b == p {
            } else if a < p && b > p {
                assert(out[b] == s[b - 1]);
            } else if a == p {
                assert(out[b] == s[b - 1]);
            } else {
                assert(out[a] == s[a - 1]);
                assert(out[b] == s[b - 1]);
            }
        }
    }
}

proof fn lemma_no_category(gs: Seq<GameView>, c: Seq<char>)
    requires
        forall|j: int| 0 <= j < gs.len() ==> #[trigger] gs[j].category != c,
    ensures
        games_in_category(gs, c) == 0,
    decreases gs.len(),
{
    if gs.len() > 0 {
        let t = gs.drop_last();
        assert forall|j: int| 0 <= j < t.len() implies #[trigger] t[j].category != c by {
            assert(t[j] == gs[j]);
        }
        lemma_no_category(t, c);
        assert(gs[gs.len() - 1].category != c);
    }
}

// ==================== Computation ====================

/// Where `g` goes among `sorted` (indices of games ordered by play time).
#[verifier::loop_isolation(false)]
fn find_insert_pos(games: &Vec<Game>, sorted: &Vec<usize>, g: usize, Ghost(s): Ghost<Seq<GameView>>) -> (p: usize)
    requires
        g < games.len(),
        s.len() == sorted.len(),
        forall|k: int| 0 <= k < sorted.len() ==> sorted[k] < games.len() && #[trigger] s[k]
            == games.deep_view()[sorted[k] as int],
    ensures
        p == insert_pos(s, games.deep_view()[g as int]),
{
    let ghost gv = games.deep_view()[g as int];
    let mut p = sorted.len();
    assert(s.take(p as int) =~= s);
    while p > 0 && games[sorted[p - 1]].play_time < games[g].play_time
        invariant
            p <= sorted.len(),
            insert_pos(s, gv) == insert_pos(s.take(p as int), gv),
        decreases p,
    {
        assert(s.take(p as int).drop_last() =~= s.take(p - 1));
        assert(s.take(p as int).last() == s[p - 1]);
        assert(s[p - 1] == games.deep_view()[sorted[p - 1] as int]);
        p = p - 1;
    }
    if p > 0 {
        assert(s.take(p as int).last() == s[p - 1]);
        assert(s[p - 1] == games.deep_view()[sorted[p - 1] as int]);
    }
    p
}

/// The indices of the games, ordered by play time, most first (equal times keep their order).
fn play_time_order(games: &Vec<Game>) -> (sorted: Vec<usize>)
    ensures
        sorted.len() == games.len(),
        forall|k: int| 0 <= k < sorted.len() ==> sorted[k] < games.len(),
        Seq::new(sorted.len() as nat, |k: int| games.deep_view()[sorted[k] as int])
            == by_play_time(games.deep_view()),
{
    let ghost gs = games.deep_view();
    let mut sorted: Vec<usize> = Vec::new();
    let mut i: usize = 0;
    while i < games.len()
        invariant
            i <= games.len(),
            gs == games.deep_view(),
            sorted.len() == i,
            forall|k: int| 0 <= k < sorted.len() ==> sorted[k] < games.len(),
            Seq::new(sorted.len() as nat, |k: int| gs[sorted[k] as int]) == by_play_time(
                gs.take(i as int),
            ),
        decreases games.len() - i,
    {
        let ghost s = Seq::new(sorted.len() as nat, |k: int| gs[sorted[k] as int]);
        let p = find_insert_pos(games, &sorted, i, Ghost(s));
        proof {
            lemma_insert_pos_bound(s, gs[i as int]);
            lemma_take_push(gs, i as int);
            assert(gs.take(i + 1).drop_last() =~= gs.take(i as int));
        }
        sorted.insert(p, i);
        proof {
            assert(Seq::new(sorted.len() as nat, |k: int| gs[sorted[k] as int]) =~= s.insert(
                p as int,
                gs[i as int],
            ));
        }
        i = i + 1;
    }
    assert(gs.take(gs.len() as int) =~= gs);
    sorted
}

/// The category counts in order of first appearance.
fn count_categories(games: &Vec<Game>) -> (d: Vec<CategoryCount>)
    ensures
        forall|k: int|
            0 <= k < d@.len() ==> #[trigger] d@[k].count == games_in_category(
                games.deep_view(),
                d@[k].name@,
            ) && d@[k].count > 0,
        forall|a: int, b: int| 0 <= a < b < d@.len() ==> d@[a].name@ != d@[b].name@,
        forall|j: int|
            #![trigger games.deep_view()[j]]
            0 <= j < games.len() ==> exists|k: int|
                0 <= k < d@.len() && #[trigger] d@[k].name@ == games.deep_view()[j].category,
{
    let ghost gs = games.deep_view();
    let mut d: Vec<CategoryCount> = Vec::new();
    let mut i: usize = 0;
    while i < games.len()
        invariant
            i <= games.len(),
            gs == games.deep_view(),
            forall|k: int|
                0 <= k < d@.len() ==> #[trigger] d@[k].count == games_in_category(
                    gs.take(i as int),
                    d@[k].name@,
                ) && d@[k].count > 0 && d@[k].count <= i,
            forall|a: int, b: int| 0 <= a < b < d@.len() ==> d@[a].name@ != d@[b].name@,
            forall|j: int|
                #![trigger gs[j]]
                0 <= j < i ==> exists|k: int|
                    0 <= k < d@.len() && #[trigger] d@[k].name@ == gs[j].category,
        decreases games.len() - i,
    {
        let cat = &games[i].category;
        proof {
            assert(gs.take(i + 1).drop_last() =~= gs.take(i as int));
            assert(gs.take(i + 1).last() == gs[i as int]);
        }
        let mut k: usize = 0;
        while k < d.len() && d[k].name != *cat
            invariant
                k <= d.len(),
                forall|t: int| 0 <= t < k ==> d@[t].name@ != cat@,
            decreases d.len() - k,
        {
            k = k + 1;
        }
        let found = k < d.len();
        let ghost old_d = d@;
        proof {
            if !found {
                assert forall|j: int| 0 <= j < i implies #[trigger] gs.take(i as int)[j].category
                    != cat@ by {
                    assert(gs.take(i as int)[j] == gs[j]);
                    let t = choose|t: int| 0 <= t < d@.len() && #[trigger] d@[t].name@ == gs[j].category;
                }
                lemma_no_category(gs.take(i as int), cat@);
            }
        }
        if found {
            let c = d[k].count;
            assert(c <= i);
            let entry = CategoryCount { name: cat.clone(), count: c + 1 };
            d.set(k, entry);
        } else {
            d.push(CategoryCount { name: cat.clone(), count: 1 });
        }
        proof {
            assert(gs[i as int].category == cat@);
            assert forall|t: int| 0 <= t < d@.len() implies #[trigger] d@[t].count == games_in_category(
                gs.take(i + 1),
                d@[t].name@,
            ) && d@[t].count > 0 && d@[t].count <= i + 1 by {
                if found && t == k {
                    assert(old_d[t].name@ == cat@);
                } else if t < old_d.len() {
                    assert(d@[t] == old_d[t]);
                    assert(old_d[t].name@ != cat@);
                } else {
                    assert(d@[t].name@ == cat@);
                }
            }
            assert forall|a: int, b: int| 0 <= a < b < d@.len() implies d@[a].name@ != d@[b].name@ by {
                if b == old_d.len() {
                    assert(d@[a].name@ == old_d[a].name@);
                } else {
                    assert(d@[a].name@ == old_d[a].name@);
                    assert(d@[b].name@ == old_d[b].name@);
                }
            }
            assert forall|j: int| #![trigger gs[j]] 0 <= j < i + 1 implies exists|t: int|
                0 <= t < d@.len() && #[trigger] d@[t].name@ == gs[j].category by {
                if j == i {
                    if found {
                        assert(d@[k as int].name@ == gs[j].category);
                    } else {
                        assert(d@[old_d.len() as int].name@ == gs[j].category);
                    }
                } else {
                    let t0 = choose|t: int| 0 <= t < old_d.len() && #[trigger] old_d[t].name@ == gs[j].category;
                    assert(d@[t0].name@ == old_d[t0].name@);
                }
            }
        }
        i = i + 1;
    }
    assert(gs.take(gs.len() as int) =~= gs);
    d
}

/// Ordered by count, most first.
pub open spec fn ordered_by_count(s: Seq<CategoryCount>) -> bool {
    forall|a: int, b: int| 0 <= a < b < s.len() ==> s[a].count >= s[b].count
}

/// `x` is one of the first `n` entries of `src`.
pub open spec fn taken_from(x: CategoryCount, src: Seq<CategoryCount>, n: int) -> bool {
    exists|t: int| 0 <= t < n && src[t] == x
}

/// `x` is an entry of `s`.
pub open spec fn occurs(x: CategoryCount, s: Seq<CategoryCount>) -> bool {
    exists|k: int| 0 <= k < s.len() && s[k] == x
}

/// Puts `x` after every entry with at least its count.
fn insert_by_count(out: &mut Vec<CategoryCount>, x: CategoryCount) -> (p: usize)
    requires
        ordered_by_count(old(out)@),
    ensures
        p <= old(out)@.len(),
        final(out)@ == old(out)@.insert(p as int, x),
        ordered_by_count(final(out)@),
{
    let ghost before = out@;
    let mut p = out.len();
    while p > 0 && out[p - 1].count < x.count
        invariant
            p <= out@.len(),
            out@ == before,
            forall|k: int| p <= k < out@.len() ==> out@[k].count < x.count,
        decreases p,
    {
        p = p - 1;
    }
    let ghost xc = x.count;
    out.insert(p, x);
    assert forall|a: int, b: int| 0 <= a < b < out@.len() implies out@[a].count
        >= out@[b].count by {
        if a < p && b < p {
        } else if a < p && b == p {
            assert(before[a].count >= before[p - 1].count);
        } else if a < p && b > p {
            assert(out@[b] == before[b - 1]);
        } else if a == p {
            assert(out@[b] == before[b - 1]);
        } else {
            assert(out@[a] == before[a - 1]);
            assert(out@[b] == before[b - 1]);
        }
    }
    p
}

/// The category counts, most populated first.
#[verifier::rlimit(40)]
fn sort_by_count(d: &Vec<CategoryCount>) -> (out: Vec<CategoryCount>)
    requires
        forall|a: int, b: int| 0 <= a < b < d@.len() ==> d@[a].name@ != d@[b].name@,
    ensures
        out@.len() == d@.len(),
        forall|k: int| 0 <= k < out@.len() ==> taken_from(out@[k], d@, d@.len() as int),
        forall|t: int| 0 <= t < d@.len() ==> occurs(d@[t], out@),
        forall|a: int, b: int| 0 <= a < b < out@.len() ==> out@[a].name@ != out@[b].name@,
        ordered_by_count(out@),
{
    let ghost src = d@;
    let mut out: Vec<CategoryCount> = Vec::new();
    let mut j: usize = 0;
    while j < d.len()
        invariant
            j <= d.len(),
            src == d@,
            out@.len() == j,
            forall|k: int| 0 <= k < out@.len() ==> taken_from(out@[k], src, j as int),
            forall|t: int| 0 <= t < j ==> occurs(src[t], out@),
            forall|a: int, b: int| 0 <= a < b < src.len() ==> src[a].name@ != src[b].name@,
            forall|a: int, b: int| 0 <= a < b < out@.len() ==> out@[a].name@ != out@[b].name@,
            ordered_by_count(out@),
        decreases d.len() - j,
    {
        let x = CategoryCount { name: d[j].name.clone(), count: d[j].count };
        assert(x == src[j as int]);
        let ghost before = out@;
        let p = insert_by_count(&mut out, x);
        proof {
            lemma_insert_keeps_members(before, src, j as int, p as int, out@);
            lemma_insert_keeps_all(before, src, j as int, p as int, out@);
            lemma_insert_keeps_distinct(before, src, j as int, p as int, out@);
        }
        j = j + 1;
    }
    out
}

/// Inserting the next element of `src` keeps every entry an element of `src` seen so far.
proof fn lemma_insert_keeps_members(
    before: Seq<CategoryCount>,
    src: Seq<CategoryCount>,
    j: int,
    p: int,
    after: Seq<CategoryCount>,
)
    requires
        0 <= j < src.len(),
        0 <= p <= before.len(),
        after == before.insert(p, src[j]),
        forall|k: int| 0 <= k < before.len() ==> taken_from(before[k], src, j),
    ensures
        forall|k: int| 0 <= k < after.len() ==> taken_from(after[k], src, j + 1),
{
    assert forall|k: int| 0 <= k < after.len() implies exists|t: int|
        0 <= t < j + 1 && #[trigger] after[k] == src[t] by {
        if k < p {
            assert(after[k] == before[k]);
            let t = choose|t: int| 0 <= t < j && src[t] == before[k];
            assert(after[k] == src[t]);
        } else if k == p {
            assert(after[k] == src[j]);
        } else {
            assert(after[k] == before[k - 1]);
            let t = choose|t: int| 0 <= t < j && src[t] == before[k - 1];
            assert(after[k] == src[t]);
        }
    }
}

/// Inserting the next element of `src` keeps every element of `src` seen so far present.
proof fn lemma_insert_keeps_all(
    before: Seq<CategoryCount>,
    src: Seq<CategoryCount>,
    j: int,
    p: int,
    after: Seq<CategoryCount>,
)
    requires
        0 <= j < src.len(),
        0 <= p <= before.len(),
        after == before.insert(p, src[j]),
        forall|t: int| 0 <= t < j ==> occurs(src[t], before),
    ensures
        forall|t: int| 0 <= t < j + 1 ==> occurs(src[t], after),
{
    assert forall|t: int| 0 <= t < j + 1 implies exists|k: int|
        0 <= k < after.len() && after[k] == #[trigger] src[t] by {
        if t == j {
            assert(after[p] == src[t]);
        } else {
            let k0 = choose|k: int| 0 <= k < before.len() && before[k] == src[t];
            if k0 < p {
                assert(after[k0] == before[k0]);
            } else {
                assert(after[k0 + 1] == before[k0]);
            }
        }
    }
}

/// Inserting the next element of `src`, whose names are distinct, keeps the names distinct.
proof fn lemma_insert_keeps_distinct(
    before: Seq<CategoryCount>,
    src: Seq<CategoryCount>,
    j: int,
    p: int,
    after: Seq<CategoryCount>,
)
    requires
        0 <= j < src.len(),
        0 <= p <= before.len(),
        after == before.insert(p, src[j]),
        forall|k: int| 0 <= k < before.len() ==> taken_from(before[k], src, j),
        forall|a: int, b: int| 0 <= a < b < src.len() ==> src[a].name@ != src[b].name@,
        forall|a: int, b: int| 0 <= a < b < before.len() ==> before[a].name@ != before[b].name@,
    ensures
        forall|a: int, b: int| 0 <= a < b < after.len() ==> after[a].name@ != after[b].name@,
{
    assert forall|k: int| 0 <= k < before.len() implies before[k].name@ != src[j].name@ by {
        let t = choose|t: int| 0 <= t < j && src[t] == before[k];
        assert(src[t].name@ != src[j].name@);
    }
    assert forall|a: int, b: int| 0 <= a < b < after.len() implies after[a].name@
        != after[b].name@ by {
        if a < p && b < p {
            assert(after[a] == before[a] && after[b] == before[b]);
        } else if a < p && b == p {
            assert(after[a] == before[a]);
        } else if a < p && b > p {
            assert(after[a] == before[a] && after[b] == before[b - 1]);
        } else if a == p {
            assert(after[b] == before[b - 1]);
        } else {
            assert(after[a] == before[a - 1]);
            assert(after[b] == before[b - 1]);
        }
    }
}

/// The entry comes from one of the games of `s`.
pub open spec fn entry_of(e: (Seq<char>, u64, Seq<char>), s: Seq<GameView>) -> bool {
    exists|j: int| 0 <= j < s.len() && top_entry(s[j]) == e
}

proof fn lemma_played_entries(s: Seq<GameView>)
    ensures
        played_entries(s).len() <= s.len(),
        forall|k: int| 0 <= k < played_entries(s).len() ==> #[trigger] played_entries(s)[k].1 > 0,
        forall|k: int| 0 <= k < played_entries(s).len() ==> entry_of(#[trigger] played_entries(s)[k], s),
        ordered_by_play_time(s) ==> forall|a: int, b: int|
            0 <= a < b < played_entries(s).len() ==> played_entries(s)[a].1 >= played_entries(s)[b].1,
    decreases s.len(),
{
    if s.len() > 0 {
        let t = s.drop_last();
        lemma_played_entries(t);
        let r = played_entries(t);
        assert forall|k: int| 0 <= k < r.len() implies entry_of(r[k], s) by {
            let j = choose|j: int| 0 <= j < t.len() && top_entry(t[j]) == r[k];
            assert(s[j] == t[j]);
        }
        if played(s.last()) {
            let out = played_entries(s);
            assert(out == r.push(top_entry(s.last())));
            assert(entry_of(out[r.len() as int], s)) by {
                assert(top_entry(s[s.len() - 1]) == out[r.len() as int]);
            }
            if ordered_by_play_time(s) {
                assert(ordered_by_play_time(t));
                assert forall|a: int, b: int| 0 <= a < b < out.len() implies out[a].1 >= out[b].1 by {
                    if b == r.len() {
                        let j = choose|j: int| 0 <= j < t.len() && top_entry(t[j]) == r[a];
                        assert(s[j] == t[j]);
                        assert(s[j].play_time >= s[s.len() - 1].play_time);
                    }
                }
            }
        }
    }
}

/// The games listed as played most are at most five, each played at least once, and they
/// come in decreasing order of play time.
pub proof fn law_top_five_ordered(gs: Seq<GameView>)
    ensures
        top_five(gs).len() <= 5,
        forall|k: int| 0 <= k < top_five(gs).len() ==> #[trigger] top_five(gs)[k].1 > 0,
        forall|a: int, b: int| 0 <= a < b < top_five(gs).len() ==> top_five(gs)[a].1 >= top_five(gs)[b].1,
{
    let s = by_play_time(gs);
    lemma_by_play_time_ordered(gs);
    let n: int = if s.len() < 5 { s.len() as int } else { 5 };
    let p = s.take(n);
    assert(ordered_by_play_time(p)) by {
        assert forall|a: int, b: int| 0 <= a < b < p.len() implies p[a].play_time >= p[b].play_time by {
            assert(p[a] == s[a] && p[b] == s[b]);
        }
    }
    lemma_played_entries(p);
}

proof fn lemma_play_time_prefix(gs: Seq<GameView>, i: int)
    requires
        0 <= i <= gs.len(),
    ensures
        play_time_in(gs.take(i)) <= play_time_in(gs),
    decreases gs.len(),
{
    if i == gs.len() {
        assert(gs.take(i) =~= gs);
    } else {
        assert(gs.drop_last().take(i) =~= gs.take(i));
        lemma_play_time_prefix(gs.drop_last(), i);
    }
}

/// The figures of the home page: how many games, favourites and minutes played, the
/// categories with their numbers of games, and the games played most.
pub fn get_home_stats(games: &Vec<Game>) -> (stats: HomeStats)
    requires
        play_time_in(games.deep_view()) <= u64::MAX,
    ensures
        stats.total_games == games.len(),
        stats.total_favorites == favorites_in(games.deep_view()),
        stats.total_play_time == play_time_in(games.deep_view()),
        is_distribution(games.deep_view(), stats.category_distribution@),
        top_view(stats.top5_playtime@) == top_five(games.deep_view()),
{
    let ghost gs = games.deep_view();
    let mut total_favorites: usize = 0;
    let mut total_play_time: u64 = 0;
    let mut i: usize = 0;
    while i < games.len()
        invariant
            i <= games.len(),
            gs == games.deep_view(),
            play_time_in(gs) <= u64::MAX,
            total_favorites == favorites_in(gs.take(i as int)),
            total_favorites <= i,
            total_play_time == play_time_in(gs.take(i as int)),
        decreases games.len() - i,
    {
        proof {
            assert(gs.take(i + 1).drop_last() =~= gs.take(i as int));
            assert(gs.take(i + 1).last() == gs[i as int]);
            lemma_play_time_prefix(gs, i + 1);
        }
        if games[i].favorite {
            total_favorites = total_favorites + 1;
        }
        total_play_time = total_play_time + games[i].play_time;
        i = i + 1;
    }
    assert(gs.take(gs.len() as int) =~= gs);
    let counts = count_categories(games);
    let category_distribution = sort_by_count(&counts);
    let sorted = play_time_order(games);
    let ghost sv = Seq::new(sorted.len() as nat, |k: int| gs[sorted[k] as int]);
    let n: usize = if sorted.len() < 5 { sorted.len() } else { 5 };
    let mut top5_playtime: Vec<TopGame> = Vec::new();
    let mut k: usize = 0;
    while k < n
        invariant
            k <= n,
            n <= sorted.len(),
            sorted.len() == games.len(),
            gs == games.deep_view(),
            forall|t: int| 0 <= t < sorted.len() ==> sorted[t] < games.len(),
            sv == Seq::new(sorted.len() as nat, |t: int| gs[sorted[t] as int]),
            top_view(top5_playtime@) == played_entries(sv.take(k as int)),
        decreases n - k,
    {
        let g = &games[sorted[k]];
        proof {
            assert(sv.take(k + 1).drop_last() =~= sv.take(k as int));
            assert(sv.take(k + 1).last() == gs[sorted[k as int] as int]);
        }
        if g.play_time > 0 {
            let entry = TopGame { name: g.name.clone(), play_time: g.play_time, category: g.category.clone() };
            top5_playtime.push(entry);
            assert(top_view(top5_playtime@) =~= played_entries(sv.take(k as int)).push(top_entry(gs[sorted[k as int] as int])));
        } else {
            assert(top_view(top5_playtime@) =~= played_entries(sv.take(k as int)));
        }
        k = k + 1;
    }
    HomeStats {
        total_games: games.len(),
        total_favorites,
        total_play_time,
        category_distribution,
        top5_playtime,
    }
}

// ==================== The distribution accounts for every game ====================

/// The total of the counts listed.
pub open spec fn counts_total(d: Seq<CategoryCount>) -> nat
    decreases d.len(),
{
    if d.len() == 0 {
        0
    } else {
        counts_total(d.drop_last()) + d.last().count as nat
    }
}

/// The names of the listed categories.
pub open spec fn category_names(d: Seq<CategoryCount>) -> Seq<Seq<char>> {
    Seq::new(d.len(), |k: int| d[k].name@)
}

/// The number of games in each of the named categories, added up.
pub open spec fn games_in_categories(gs: Seq<GameView>, names: Seq<Seq<char>>) -> nat
    decreases names.len(),
{
    if names.len() == 0 {
        0
    } else {
        games_in_categories(gs, names.drop_last()) + games_in_category(gs, names.last())
    }
}

/// How many times a name is listed.
pub open spec fn times_listed(names: Seq<Seq<char>>, c: Seq<char>) -> nat
    decreases names.len(),
{
    if names.len() == 0 {
        0
    } else {
        times_listed(names.drop_last(), c) + if names.last() == c { 1nat } else { 0nat }
    }
}

proof fn lemma_categories_drop_game(gs: Seq<GameView>, names: Seq<Seq<char>>)
    requires
        gs.len() > 0,
    ensures
        games_in_categories(gs, names) == games_in_categories(gs.drop_last(), names) + times_listed(
            names,
            gs.last().category,
        ),
    decreases names.len(),
{
    if names.len() > 0 {
        lemma_categories_drop_game(gs, names.drop_last());
    }
}

proof fn lemma_listed_once(names: Seq<Seq<char>>, c: Seq<char>)
    requires
        forall|a: int, b: int| 0 <= a < b < names.len() ==> names[a] != names[b],
        names.contains(c),
    ensures
        times_listed(names, c) == 1,
    decreases names.len(),
{
    let t = names.drop_last();
    assert forall|a: int, b: int| 0 <= a < b < t.len() implies t[a] != t[b] by {
        assert(t[a] == names[a] && t[b] == names[b]);
    }
    if names.last() == c {
        assert forall|k: int| 0 <= k < t.len() implies t[k] != c by {
            assert(names[k] != names[names.len() - 1]);
        }
        lemma_never_listed(t, c);
    } else {
        let k = choose|k: int| 0 <= k < names.len() && names[k] == c;
        assert(k < names.len() - 1);
        assert(t[k] == c);
        lemma_listed_once(t, c);
    }
}

proof fn lemma_never_listed(names: Seq<Seq<char>>, c: Seq<char>)
    requires
        forall|k: int| 0 <= k < names.len() ==> names[k] != c,
    ensures
        times_listed(names, c) == 0,
    decreases names.len(),
{
    if names.len() > 0 {
        lemma_never_listed(names.drop_last(), c);
    }
}

proof fn lemma_categories_cover(gs: Seq<GameView>, names: Seq<Seq<char>>)
    requires
        forall|a: int, b: int| 0 <= a < b < names.len() ==> names[a] != names[b],
        forall|j: int| 0 <= j < gs.len() ==> names.contains(#[trigger] gs[j].category),
    ensures
        games_in_categories(gs, names) == gs.len(),
    decreases gs.len(),
{
    if gs.len() == 0 {
        assert(gs =~= Seq::<GameView>::empty());
        lemma_categories_empty(names);
    } else {
        let t = gs.drop_last();
        assert forall|j: int| 0 <= j < t.len() implies names.contains(#[trigger] t[j].category) by {
            assert(t[j] == gs[j]);
        }
        lemma_categories_cover(t, names);
        lemma_categories_drop_game(gs, names);
        assert(names.contains(gs[gs.len() - 1].category));
        lemma_listed_once(names, gs.last().category);
    }
}

proof fn lemma_categories_empty(names: Seq<Seq<char>>)
    ensures
        games_in_categories(Seq::<GameView>::empty(), names) == 0,
    decreases names.len(),
{
    if names.len() > 0 {
        lemma_categories_empty(names.drop_last());
    }
}

proof fn lemma_counts_are_games(gs: Seq<GameView>, d: Seq<CategoryCount>)
    requires
        forall|k: int| 0 <= k < d.len() ==> #[trigger] d[k].count == games_in_category(gs, d[k].name@),
    ensures
        counts_total(d) == games_in_categories(gs, category_names(d)),
    decreases d.len(),
{
    if d.len() > 0 {
        let t = d.drop_last();
        assert forall|k: int| 0 <= k < t.len() implies #[trigger] t[k].count == games_in_category(
            gs,
            t[k].name@,
        ) by {
            assert(t[k] == d[k]);
        }
        lemma_counts_are_games(gs, t);
        assert(category_names(d).drop_last() =~= category_names(t));
        assert(d[d.len() - 1].count == games_in_category(gs, d[d.len() - 1].name@));
    }
}

/// The category distribution accounts for every game exactly once: its counts add up to
/// the number of games.
pub proof fn law_distribution_counts_every_game(gs: Seq<GameView>, d: Seq<CategoryCount>)
    requires
        is_distribution(gs, d),
    ensures
        counts_total(d) == gs.len(),
{
    let names = category_names(d);
    assert forall|a: int, b: int| 0 <= a < b < names.len() implies names[a] != names[b] by {}
    assert forall|j: int| 0 <= j < gs.len() implies names.contains(#[trigger] gs[j].category) by {
        let k = choose|k: int| 0 <= k < d.len() && #[trigger] d[k].name@ == gs[j].category;
        assert(names[k] == gs[j].category);
    }
    lemma_categories_cover(gs, names);
    lemma_counts_are_games(gs, d);
}

} // verus!
