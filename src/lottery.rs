//! The weighted commenter lottery over a leaderboard snapshot: commenters
//! of the leading commodities' documents are drawn with weights from their
//! spending and their position, by a ChaCha stream seeded from a beacon.

use vstd::prelude::*;
use crate::arith::{
    per_from_percent, per_from_rational, per_mul, percent_from_percent, percent_from_rational,
    percent_mul, lemma_from_rational_bounded, lemma_per_mul_bounded, PERCENT_ONE,
};
use crate::board::CommodityLeaderBoardData;
use crate::document::{CommentMaxRecord, CommentWeightData};
use crate::power::{AccountId, PowerSize};
use crate::error::Error;
use crate::table::bytes_eq;
use rand_chacha::rand_core::{RngCore, SeedableRng};

verus! {

/// The first `n` words of the ChaCha20 stream seeded with `seed`.
pub uninterp spec fn chacha_words(seed: Seq<u8>, n: nat) -> Seq<u32>;

/// Relies on `rand_chacha::ChaChaRng`: `from_seed` then `next_u32` `n`
/// times yields a stream that depends on the seed alone.
#[verifier::external_body]
pub(crate) fn draw_words(seed: [u8; 32], n: usize) -> (r: Vec<u32>)
    ensures
        r@ == chacha_words(seed@, n as nat),
        r@.len() == n,
{
    let mut rng = rand_chacha::ChaChaRng::from_seed(seed);
    (0..n).map(|_| rng.next_u32()).collect()
}

/// The comment pools reachable from one document: its own, and that of the
/// publish document of its product.
pub struct DocPools {
    pub pool: Vec<CommentWeightData>,
    pub publish_id: Vec<u8>,
    pub publish_pool: Vec<CommentWeightData>,
}

/// The documents linked to one commodity.
pub struct CommodityDocs {
    pub identify: Option<DocPools>,
    pub try_docs: Option<DocPools>,
}

/// One entry of a lottery record.
#[derive(Clone, Debug)]
pub struct LeaderBoardItem {
    pub cart_id: Vec<u8>,
    pub power: PowerSize,
    pub owner: AccountId,
}

/// A lottery record: the leading entries and the accounts drawn.
pub struct LeaderBoardResult {
    pub accounts: Vec<AccountId>,
    pub board: Vec<LeaderBoardItem>,
}

// ---------------------------------------------------------------------------
// Closest search
// ---------------------------------------------------------------------------

/// The binary search of `target` in `c[lo..hi]`: a position holding it, or
/// the position where it would go.
pub open spec fn closet_spec(c: Seq<u32>, target: u32, lo: int, hi: int) -> int
    decreases hi - lo,
{
    if lo < hi && 0 <= lo && hi <= c.len() {
        let m = (hi - lo) / 2 + lo;
        if target == c[m] {
            m
        } else if target < c[m] {
            closet_spec(c, target, lo, m)
        } else {
            closet_spec(c, target, m + 1, hi)
        }
    } else {
        lo
    }
}

proof fn lemma_closet_bounds(c: Seq<u32>, target: u32, lo: int, hi: int)
    requires
        0 <= lo <= hi <= c.len(),
    ensures
        lo <= closet_spec(c, target, lo, hi) <= hi,
    decreases hi - lo,
{
    if lo < hi {
        let m = (hi - lo) / 2 + lo;
        if target == c[m] {
        } else if target < c[m] {
            lemma_closet_bounds(c, target, lo, m);
        } else {
            lemma_closet_bounds(c, target, m + 1, hi);
        }
    }
}

/// Binary search in ascending values: a position holding `target`, or,
/// when none does, the position where it would go.
pub fn binary_search_closet(collection: &Vec<u32>, target: u32) -> (r: usize)
    ensures
        r == closet_spec(collection@, target, 0, collection@.len() as int),
        r <= collection@.len(),
{
    proof {
        lemma_closet_bounds(collection@, target, 0, collection@.len() as int);
    }
    let mut lo: usize = 0;
    let mut hi: usize = collection.len();
    while lo < hi
        invariant
            0 <= lo <= hi <= collection@.len(),
            closet_spec(collection@, target, lo as int, hi as int) == closet_spec(
                collection@,
                target,
                0,
                collection@.len() as int,
            ),
        decreases hi - lo,
    {
        let m = (hi - lo) / 2 + lo;
        if target == collection[m] {
            return m;
        } else if target < collection[m] {
            hi = m;
        } else {
            lo = m + 1;
        }
    }
    lo
}

// ---------------------------------------------------------------------------
// One pool
// ---------------------------------------------------------------------------

/// `x` scaled by `part` percent.
pub open spec fn pc(part: int, x: int) -> int {
    per_mul(PERCENT_ONE as int, part, x)
}

/// A commenter's weight: 88% of its cost against the highest cost and 8%
/// of its position against the highest count, each halved in a shared
/// publish pool.
pub open spec fn weight_of(c: CommentWeightData, max: CommentMaxRecord, is_pub: bool) -> int {
    let w1 = pc(
        per_from_percent(100, 88),
        pc(per_from_rational(100, c.cash_cost as int, max.max_fee as int), 100),
    );
    let w2 = pc(
        per_from_percent(100, 8),
        pc(per_from_rational(100, c.position as int, max.max_count as int), 100),
    );
    if is_pub {
        pc(per_from_percent(100, 50), w1) + pc(per_from_percent(100, 50), w2)
    } else {
        w1 + w2
    }
}

/// The sum of the weights of the first `n` commenters.
pub open spec fn weight_sum(pool: Seq<CommentWeightData>, max: CommentMaxRecord, is_pub: bool, n: int) -> int
    decreases n,
{
    if n <= 0 {
        0
    } else {
        weight_sum(pool, max, is_pub, n - 1) + weight_of(pool[n - 1], max, is_pub)
    }
}

/// The cumulative chance table of the first `n` commenters: each adds its
/// share of the total weight, in whole percent.
pub open spec fn chance_table(pool: Seq<CommentWeightData>, max: CommentMaxRecord, is_pub: bool, n: int) -> Seq<u32>
    decreases n,
{
    if n <= 0 {
        Seq::empty()
    } else {
        let prev = chance_table(pool, max, is_pub, n - 1);
        let chance = pc(
            per_from_rational(
                100,
                weight_of(pool[n - 1], max, is_pub),
                weight_sum(pool, max, is_pub, pool.len() as int),
            ),
            100,
        );
        let last = if n == 1 { 0 } else { prev.last() as int };
        prev.push((last + chance) as u32)
    }
}

/// How many draws a pool of `len` commenters gets: 30%, at most 100.
pub open spec fn hit_count(len: int) -> int {
    let h = pc(30, len);
    if h < 100 {
        h
    } else {
        100
    }
}

/// The commenter that a random word picks: the word modulo the table's
/// last value plus one is searched, a tie goes to the next commenter, and
/// the pick stays within the pool.
pub open spec fn pick_index(table: Seq<u32>, word: u32) -> int {
    let total = if table.len() == 0 { 0 } else { table.last() as int };
    let pos = (word as int % (total + 1)) as u32;
    let i0 = closet_spec(table, pos, 0, table.len() as int);
    let i1 = if i0 < table.len() && table[i0] <= pos { i0 + 1 } else { i0 };
    if i1 > table.len() - 1 {
        table.len() - 1
    } else {
        i1
    }
}

/// The accounts drawn from a pool with the given words.
pub open spec fn pool_draws(
    pool: Seq<CommentWeightData>,
    max: CommentMaxRecord,
    is_pub: bool,
    words: Seq<u32>,
) -> Seq<Seq<u8>> {
    let table = chance_table(pool, max, is_pub, pool.len() as int);
    words.map_values(|w: u32| pool[pick_index(table, w)].account@)
}

/// A pool whose weight sum (at most 200 per commenter) fits a `u32`.
pub open spec fn pool_fits(pool: Seq<CommentWeightData>) -> bool {
    200 * pool.len() <= u32::MAX
}

proof fn lemma_pc_bounded(part: int, x: int)
    requires
        0 <= part <= 100,
        x >= 0,
    ensures
        0 <= pc(part, x) <= x,
{
    lemma_per_mul_bounded(100, part, x);
}

proof fn lemma_weight_bounded(c: CommentWeightData, max: CommentMaxRecord, is_pub: bool)
    ensures
        0 <= weight_of(c, max, is_pub) <= 200,
{
    lemma_from_rational_bounded(100, c.cash_cost as int, max.max_fee as int);
    lemma_from_rational_bounded(100, c.position as int, max.max_count as int);
    let f1 = per_from_rational(100, c.cash_cost as int, max.max_fee as int);
    let f2 = per_from_rational(100, c.position as int, max.max_count as int);
    lemma_pc_bounded(f1, 100);
    lemma_pc_bounded(f2, 100);
    assert(per_from_percent(100, 88) == 88);
    assert(per_from_percent(100, 8) == 8);
    assert(per_from_percent(100, 50) == 50);
    lemma_pc_bounded(88, pc(f1, 100));
    lemma_pc_bounded(8, pc(f2, 100));
    let w1 = pc(88, pc(f1, 100));
    let w2 = pc(8, pc(f2, 100));
    lemma_pc_bounded(50, w1);
    lemma_pc_bounded(50, w2);
}

proof fn lemma_weight_sum_bounded(pool: Seq<CommentWeightData>, max: CommentMaxRecord, is_pub: bool, n: int)
    requires
        0 <= n <= pool.len(),
    ensures
        0 <= weight_sum(pool, max, is_pub, n) <= 200 * n,
    decreases n,
{
    if n > 0 {
        lemma_weight_sum_bounded(pool, max, is_pub, n - 1);
        lemma_weight_bounded(pool[n - 1], max, is_pub);
    }
}

proof fn lemma_chance_table_shape(pool: Seq<CommentWeightData>, max: CommentMaxRecord, is_pub: bool, n: int)
    requires
        0 <= n <= pool.len(),
        pool_fits(pool),
    ensures
        chance_table(pool, max, is_pub, n).len() == n,
        n > 0 ==> chance_table(pool, max, is_pub, n).last() <= 100 * n,
    decreases n,
{
    if n > 0 {
        lemma_chance_table_shape(pool, max, is_pub, n - 1);
        lemma_weight_bounded(pool[n - 1], max, is_pub);
        lemma_weight_sum_bounded(pool, max, is_pub, pool.len() as int);
        let f = per_from_rational(
            100,
            weight_of(pool[n - 1], max, is_pub),
            weight_sum(pool, max, is_pub, pool.len() as int),
        );
        lemma_from_rational_bounded(100, weight_of(pool[n - 1], max, is_pub), weight_sum(pool, max, is_pub, pool.len() as int));
        lemma_pc_bounded(f, 100);
    }
}

fn percent_of(part: u8, x: u64) -> (r: u64)
    requires
        part <= 100,
    ensures
        r == pc(part as int, x as int),
        r <= x,
{
    proof {
        lemma_per_mul_bounded(100, part as int, x as int);
    }
    percent_mul(part, x)
}

fn percent_const(x: u8) -> (r: u8)
    requires
        x <= 100,
    ensures
        r == per_from_percent(100, x as int),
        r == x,
{
    percent_from_percent(x)
}

fn comment_weight(c: &CommentWeightData, max: &CommentMaxRecord, is_pub: bool) -> (r: u32)
    ensures
        r == weight_of(*c, *max, is_pub),
{
    proof {
        lemma_weight_bounded(*c, *max, is_pub);
        lemma_from_rational_bounded(100, c.cash_cost as int, max.max_fee as int);
        lemma_from_rational_bounded(100, c.position as int, max.max_count as int);
    }
    let mut w1 = percent_of(percent_from_rational(c.cash_cost, max.max_fee), 100);
    w1 = percent_of(percent_const(88), w1);
    let mut w2 = percent_of(percent_from_rational(c.position, max.max_count), 100);
    w2 = percent_of(percent_const(8), w2);
    if is_pub {
        w1 = percent_of(percent_const(50), w1);
        w2 = percent_of(percent_const(50), w2);
    }
    (w1 + w2) as u32
}

fn chance_table_of(pool: &Vec<CommentWeightData>, max: &CommentMaxRecord, is_pub: bool) -> (r: Vec<u32>)
    requires
        pool_fits(pool@),
    ensures
        r@ == chance_table(pool@, *max, is_pub, pool@.len() as int),
{
    let mut sum: u32 = 0;
    let mut i: usize = 0;
    while i < pool.len()
        invariant
            0 <= i <= pool@.len(),
            pool_fits(pool@),
            sum == weight_sum(pool@, *max, is_pub, i as int),
        decreases pool@.len() - i,
    {
        proof {
            lemma_weight_sum_bounded(pool@, *max, is_pub, i + 1);
        }
        let w = comment_weight(&pool[i], max, is_pub);
        sum = sum + w;
        i = i + 1;
    }
    let mut table: Vec<u32> = Vec::new();
    let mut j: usize = 0;
    while j < pool.len()
        invariant
            0 <= j <= pool@.len(),
            pool_fits(pool@),
            sum == weight_sum(pool@, *max, is_pub, pool@.len() as int),
            table@ == chance_table(pool@, *max, is_pub, j as int),
        decreases pool@.len() - j,
    {
        proof {
            lemma_chance_table_shape(pool@, *max, is_pub, j as int);
            lemma_chance_table_shape(pool@, *max, is_pub, j + 1);
            lemma_weight_bounded(pool@[j as int], *max, is_pub);
            lemma_from_rational_bounded(
                100,
                weight_of(pool@[j as int], *max, is_pub),
                sum as int,
            );
        }
        let w = comment_weight(&pool[j], max, is_pub);
        let frac = percent_from_rational(w as u64, sum as u64);
        let chance = percent_of(frac, 100) as u32;
        let last: u32 = if j == 0 { 0 } else { table[j - 1] };
        table.push(last + chance);
        j = j + 1;
    }
    table
}

fn pick(table: &Vec<u32>, word: u32) -> (r: usize)
    requires
        table@.len() > 0,
        table@.last() < u32::MAX,
    ensures
        r == pick_index(table@, word),
        r < table@.len(),
{
    let total = table[table.len() - 1];
    let pos: u32 = word % (total + 1);
    let mut idx = binary_search_closet(table, pos);
    if idx < table.len() && table[idx] <= pos {
        idx = idx + 1;
    }
    if idx > table.len() - 1 {
        idx = table.len() - 1;
    }
    idx
}

/// How many draws a pool of `len` commenters gets.
pub fn hit_max_of(len: usize) -> (r: usize)
    ensures
        r == hit_count(len as int),
        r <= 100,
{
    let p = percent_const(30);
    let h = percent_of(p, len as u64);
    if h < 100 {
        h as usize
    } else {
        100
    }
}

/// Draws from one pool, one account per word.
fn draw_from_pool(
    pool: &Vec<CommentWeightData>,
    max: &CommentMaxRecord,
    is_pub: bool,
    words: &Vec<u32>,
    from: usize,
    count: usize,
    out: &mut Vec<AccountId>,
)
    requires
        pool_fits(pool@),
        from + count <= words@.len(),
        count > 0 ==> pool@.len() > 0,
    ensures
        final(out)@.map_values(|a: AccountId| a@) == old(out)@.map_values(|a: AccountId| a@) + pool_draws(
            pool@,
            *max,
            is_pub,
            words@.subrange(from as int, from + count),
        ),
{
    if count == 0 {
        proof {
            assert(words@.subrange(from as int, from as int) =~= Seq::<u32>::empty());
            assert(final(out)@.map_values(|a: AccountId| a@) =~= old(out)@.map_values(|a: AccountId| a@) + pool_draws(
                pool@,
                *max,
                is_pub,
                words@.subrange(from as int, from + count),
            ));
        }
        return ;
    }
    let table = chance_table_of(pool, max, is_pub);
    proof {
        lemma_chance_table_shape(pool@, *max, is_pub, pool@.len() as int);
    }
    let ghost start = out@.map_values(|a: AccountId| a@);
    let n_words = words.len();
    let mut k: usize = 0;
    while k < count
        invariant
            0 <= k <= count,
            from + count <= words@.len(),
            n_words == words@.len(),
            table@ == chance_table(pool@, *max, is_pub, pool@.len() as int),
            table@.len() == pool@.len(),
            pool@.len() > 0,
            pool_fits(pool@),
            table@.last() <= 100 * pool@.len(),
            out@.map_values(|a: AccountId| a@) == start + pool_draws(
                pool@,
                *max,
                is_pub,
                words@.subrange(from as int, from + k),
            ),
        decreases count - k,
    {
        let ghost before = out@;
        assert(from + k < words@.len());
        let idx = pick(&table, words[from + k]);
        let a = pool[idx].account.clone();
        out.push(a);
        proof {
            assert(words@.subrange(from as int, from + k + 1) =~= words@.subrange(from as int, from + k).push(
                words@[from + k],
            ));
            assert(out@.map_values(|a: AccountId| a@) =~= before.map_values(|a: AccountId| a@).push(
                pool@[idx as int].account@,
            ));
            assert(out@.map_values(|a: AccountId| a@) =~= start + pool_draws(
                pool@,
                *max,
                is_pub,
                words@.subrange(from as int, from + k + 1),
            ));
        }
        k = k + 1;
    }
}

// ---------------------------------------------------------------------------
// Visits and the whole lottery
// ---------------------------------------------------------------------------

/// A pool visit: a leader's position and a slot (0 its identify document's
/// pool, 1 that document's publish pool, 2 its try document's pool, 3 that
/// document's publish pool).
pub type Visit = (usize, u8);

/// Whether a slot is a shared publish pool.
pub open spec fn is_pub_slot(slot: u8) -> bool {
    slot == 1 || slot == 3
}

/// Whether a visit names documents that exist.
pub open spec fn visit_valid(docs: Seq<CommodityDocs>, v: Visit) -> bool {
    &&& v.0 < docs.len()
    &&& v.1 < 4
    &&& (v.1 < 2 ==> docs[v.0 as int].identify is Some)
    &&& (v.1 >= 2 ==> docs[v.0 as int].try_docs is Some)
}

/// The document pools that a visit reads.
pub open spec fn visit_docs(docs: Seq<CommodityDocs>, v: Visit) -> DocPools {
    if v.1 < 2 {
        docs[v.0 as int].identify.unwrap()
    } else {
        docs[v.0 as int].try_docs.unwrap()
    }
}

/// The pool that a visit samples.
pub open spec fn visit_pool(docs: Seq<CommodityDocs>, v: Visit) -> Seq<CommentWeightData> {
    if is_pub_slot(v.1) {
        visit_docs(docs, v).publish_pool@
    } else {
        visit_docs(docs, v).pool@
    }
}

/// Whether a publish document was visited already.
pub open spec fn seen(docs: Seq<CommodityDocs>, list: Seq<Visit>, p: Seq<u8>) -> bool {
    exists|k: int| 0 <= k < list.len() && is_pub_slot(list[k].1) && visit_docs(docs, list[k]).publish_id@ == p
}

/// The visits after leader `i`: its identify pool and, once, its publish
/// pool; then its try pool and, once, its publish pool.
pub open spec fn leader_visits(docs: Seq<CommodityDocs>, i: usize, prev: Seq<Visit>) -> Seq<Visit> {
    let d = docs[i as int];
    let a = if d.identify is Some { prev.push((i, 0u8)) } else { prev };
    let b = if d.identify is Some && !seen(docs, a, d.identify.unwrap().publish_id@) {
        a.push((i, 1u8))
    } else {
        a
    };
    let c = if d.try_docs is Some { b.push((i, 2u8)) } else { b };
    if d.try_docs is Some && !seen(docs, c, d.try_docs.unwrap().publish_id@) {
        c.push((i, 3u8))
    } else {
        c
    }
}

/// The visits of the first `n` leaders, in order.
pub open spec fn visits_upto(docs: Seq<CommodityDocs>, n: int) -> Seq<Visit>
    decreases n,
{
    if n <= 0 {
        Seq::empty()
    } else {
        leader_visits(docs, (n - 1) as usize, visits_upto(docs, n - 1))
    }
}

/// The draws of the first `n` visits.
pub open spec fn draws_total(docs: Seq<CommodityDocs>, visits: Seq<Visit>, n: int) -> int
    decreases n,
{
    if n <= 0 {
        0
    } else {
        draws_total(docs, visits, n - 1) + hit_count(visit_pool(docs, visits[n - 1]).len() as int)
    }
}

/// The accounts drawn in the first `n` visits, each visit consuming its
/// share of the words in order.
pub open spec fn all_draws(
    docs: Seq<CommodityDocs>,
    visits: Seq<Visit>,
    max: CommentMaxRecord,
    words: Seq<u32>,
    n: int,
) -> Seq<Seq<u8>>
    decreases n,
{
    if n <= 0 {
        Seq::empty()
    } else {
        all_draws(docs, visits, max, words, n - 1) + pool_draws(
            visit_pool(docs, visits[n - 1]),
            max,
            is_pub_slot(visits[n - 1].1),
            words.subrange(draws_total(docs, visits, n - 1), draws_total(docs, visits, n)),
        )
    }
}

/// How many leaders take part: a fifth of the commodities but at least
/// five (or all, when fewer), at most the board capacity and the board's
/// length.
pub open spec fn leader_count(total: u32, capacity: u32, board_len: int) -> int {
    let fifth = total as int * 20 / 100;
    let floor = if total < 5 { total as int } else { 5 };
    let wanted = if fifth > floor { fifth } else { floor };
    let capped = if wanted < capacity { wanted } else { capacity as int };
    if capped < board_len {
        capped
    } else {
        board_len
    }
}

/// The accounts that the lottery draws.
pub open spec fn lottery_accounts(
    seed: Seq<u8>,
    board_len: int,
    total: u32,
    capacity: u32,
    docs: Seq<CommodityDocs>,
    max: CommentMaxRecord,
) -> Seq<Seq<u8>> {
    let visits = visits_upto(docs, leader_count(total, capacity, board_len));
    let words = chacha_words(seed, draws_total(docs, visits, visits.len() as int) as nat);
    all_draws(docs, visits, max, words, visits.len() as int)
}

/// Every pool of every document is small enough to weigh.
pub open spec fn docs_fit(docs: Seq<CommodityDocs>) -> bool {
    forall|i: int|
        0 <= i < docs.len() ==> {
            &&& (#[trigger] docs[i]).identify is Some ==> pool_fits(docs[i].identify.unwrap().pool@)
                && pool_fits(docs[i].identify.unwrap().publish_pool@)
            &&& docs[i].try_docs is Some ==> pool_fits(docs[i].try_docs.unwrap().pool@)
                && pool_fits(docs[i].try_docs.unwrap().publish_pool@)
        }
}

fn visit_docs_ref<'a>(docs: &'a Vec<CommodityDocs>, v: Visit) -> (r: &'a DocPools)
    requires
        visit_valid(docs@, v),
    ensures
        *r == visit_docs(docs@, v),
{
    if v.1 < 2 {
        match &docs[v.0].identify {
            Some(d) => d,
            None => vstd::pervasive::unreached(),
        }
    } else {
        match &docs[v.0].try_docs {
            Some(d) => d,
            None => vstd::pervasive::unreached(),
        }
    }
}

fn is_seen(docs: &Vec<CommodityDocs>, list: &Vec<Visit>, p: &Vec<u8>) -> (r: bool)
    requires
        forall|k: int| 0 <= k < list@.len() ==> visit_valid(docs@, #[trigger] list@[k]),
    ensures
        r == seen(docs@, list@, p@),
{
    let mut k: usize = 0;
    while k < list.len()
        invariant
            0 <= k <= list@.len(),
            forall|j: int| 0 <= j < list@.len() ==> visit_valid(docs@, #[trigger] list@[j]),
            forall|j: int|
                0 <= j < k ==> !(is_pub_slot(list@[j].1) && visit_docs(docs@, list@[j]).publish_id@
                    == p@),
        decreases list@.len() - k,
    {
        let v = list[k];
        if v.1 == 1 || v.1 == 3 {
            let d = visit_docs_ref(docs, v);
            if bytes_eq(&d.publish_id, p) {
                return true;
            }
        }
        k = k + 1;
    }
    false
}

/// The pool visits of the first `count` leaders.
fn lottery_visits(docs: &Vec<CommodityDocs>, count: usize) -> (r: Vec<Visit>)
    requires
        count <= docs@.len(),
    ensures
        r@ == visits_upto(docs@, count as int),
        forall|k: int| 0 <= k < r@.len() ==> visit_valid(docs@, #[trigger] r@[k]),
        r@.len() <= 4 * count,
{
    let mut visits: Vec<Visit> = Vec::new();
    let mut i: usize = 0;
    while i < count
        invariant
            0 <= i <= count <= docs@.len(),
            visits@ == visits_upto(docs@, i as int),
            forall|k: int| 0 <= k < visits@.len() ==> visit_valid(docs@, #[trigger] visits@[k]),
            visits@.len() <= 4 * i,
        decreases count - i,
    {
        match &docs[i].identify {
            Some(d) => {
                visits.push((i, 0u8));
                if !is_seen(docs, &visits, &d.publish_id) {
                    visits.push((i, 1u8));
                }
            },
            None => {},
        }
        match &docs[i].try_docs {
            Some(d) => {
                visits.push((i, 2u8));
                if !is_seen(docs, &visits, &d.publish_id) {
                    visits.push((i, 3u8));
                }
            },
            None => {},
        }
        i = i + 1;
    }
    visits
}

fn visit_pool_ref<'a>(docs: &'a Vec<CommodityDocs>, v: Visit) -> (r: &'a Vec<CommentWeightData>)
    requires
        visit_valid(docs@, v),
    ensures
        r@ == visit_pool(docs@, v),
{
    let d = visit_docs_ref(docs, v);
    if v.1 == 1 || v.1 == 3 {
        &d.publish_pool
    } else {
        &d.pool
    }
}

proof fn lemma_draws_total_mono(docs: Seq<CommodityDocs>, visits: Seq<Visit>, a: int, b: int)
    requires
        0 <= a <= b <= visits.len(),
    ensures
        0 <= draws_total(docs, visits, a) <= draws_total(docs, visits, b),
        draws_total(docs, visits, b) <= 100 * b,
    decreases b,
{
    if b > 0 {
        let len = visit_pool(docs, visits[b - 1]).len() as int;
        lemma_pc_bounded(30, len);
        lemma_draws_total_mono(docs, visits, if a < b { a } else { b - 1 }, b - 1);
    }
}

/// Draws the lottery of a leaderboard snapshot: the leading entries take
/// part, each of their identify and try documents' comment pools is
/// sampled, and a publish document shared by several leaders is sampled
/// once. Nothing is drawn from an empty board or when no commodity exists.
pub fn leader_board_lottery(
    seed: [u8; 32],
    board: &Vec<CommodityLeaderBoardData>,
    total: u32,
    capacity: u32,
    docs: &Vec<CommodityDocs>,
    max: &CommentMaxRecord,
) -> (r: Option<LeaderBoardResult>)
    requires
        docs@.len() == board@.len(),
        400 * board@.len() <= usize::MAX,
        docs_fit(docs@),
    ensures
        (board@.len() == 0 || total == 0) <==> r is None,
        match r {
            Some(res) => {
                let n = leader_count(total, capacity, board@.len() as int);
                &&& res.accounts@.map_values(|a: AccountId| a@) == lottery_accounts(
                    seed@,
                    board@.len() as int,
                    total,
                    capacity,
                    docs@,
                    *max,
                )
                &&& res.board@.len() == n
                &&& forall|i: int|
                    0 <= i < n ==> (#[trigger] res.board@[i]).cart_id@ == board@[i].cart_id@
                        && res.board@[i].power == board@[i].power && res.board@[i].owner@
                        == board@[i].owner@
            },
            None => true,
        },
{
    if board.len() == 0 || total == 0 {
        return None;
    }
    let fifth: u64 = (total as u64) * 20 / 100;
    let floor: u64 = if total < 5 { total as u64 } else { 5 };
    let wanted: u64 = if fifth > floor { fifth } else { floor };
    let capped: u64 = if wanted < capacity as u64 { wanted } else { capacity as u64 };
    let count: usize = if capped < board.len() as u64 { capped as usize } else { board.len() };

    let visits = lottery_visits(docs, count);
    let mut needed: usize = 0;
    let mut k: usize = 0;
    while k < visits.len()
        invariant
            0 <= k <= visits@.len(),
            visits@.len() <= 4 * count,
            count <= docs@.len(),
            400 * count <= usize::MAX,
            forall|j: int| 0 <= j < visits@.len() ==> visit_valid(docs@, #[trigger] visits@[j]),
            needed == draws_total(docs@, visits@, k as int),
        decreases visits@.len() - k,
    {
        proof {
            lemma_draws_total_mono(docs@, visits@, k as int, k + 1);
        }
        let pool = visit_pool_ref(docs, visits[k]);
        needed = needed + hit_max_of(pool.len());
        k = k + 1;
    }
    let words = draw_words(seed, needed);

    let mut accounts: Vec<AccountId> = Vec::new();
    let mut cursor: usize = 0;
    let mut j: usize = 0;
    while j < visits.len()
        invariant
            0 <= j <= visits@.len(),
            forall|t: int| 0 <= t < visits@.len() ==> visit_valid(docs@, #[trigger] visits@[t]),
            docs_fit(docs@),
            words@.len() == needed,
            needed == draws_total(docs@, visits@, visits@.len() as int),
            cursor == draws_total(docs@, visits@, j as int),
            accounts@.map_values(|a: AccountId| a@) == all_draws(docs@, visits@, *max, words@, j as int),
        decreases visits@.len() - j,
    {
        proof {
            lemma_draws_total_mono(docs@, visits@, j + 1, visits@.len() as int);
            lemma_draws_total_mono(docs@, visits@, j as int, j + 1);
        }
        let v = visits[j];
        let pool = visit_pool_ref(docs, v);
        let hits = hit_max_of(pool.len());
        proof {
            let d = docs@[v.0 as int];
            assert(docs_fit(docs@));
            assert(pool_fits(pool@)) by {
                assert(v.0 < docs@.len());
                let i = v.0 as int;
                assert((docs@[i]).identify is Some ==> pool_fits(docs@[i].identify.unwrap().pool@)
                    && pool_fits(docs@[i].identify.unwrap().publish_pool@));
            }
            if hits > 0 {
                assert(pool@.len() > 0) by {
                    if pool@.len() == 0 {
                        assert(per_mul(100, 30, 0) == 0);
                    }
                }
            }
        }
        draw_from_pool(pool, max, v.1 == 1 || v.1 == 3, &words, cursor, hits, &mut accounts);
        cursor = cursor + hits;
        j = j + 1;
    }

    let mut items: Vec<LeaderBoardItem> = Vec::new();
    let mut i: usize = 0;
    while i < count
        invariant
            0 <= i <= count <= board@.len(),
            items@.len() == i,
            forall|t: int|
                0 <= t < i ==> (#[trigger] items@[t]).cart_id@ == board@[t].cart_id@ && items@[t].power
                    == board@[t].power && items@[t].owner@ == board@[t].owner@,
        decreases count - i,
    {
        let e = &board[i];
        items.push(LeaderBoardItem { cart_id: e.cart_id.clone(), power: e.power, owner: e.owner.clone() });
        i = i + 1;
    }
    Some(LeaderBoardResult { accounts, board: items })
}

/// The lottery is reproducible: the same beacon, snapshot and pools give
/// the same accounts, since what is drawn is a function of them alone.
pub proof fn lemma_lottery_reproducible(
    seed: Seq<u8>,
    board_len: int,
    total: u32,
    capacity: u32,
    docs: Seq<CommodityDocs>,
    max: CommentMaxRecord,
    first: Seq<Seq<u8>>,
    second: Seq<Seq<u8>>,
)
    requires
        first == lottery_accounts(seed, board_len, total, capacity, docs, max),
        second == lottery_accounts(seed, board_len, total, capacity, docs, max),
    ensures
        first == second,
{
}

/// Whether a new lottery record may be drawn for a board: only once more
/// than `interval` blocks have passed since the last one.
pub fn create_power_leader_board(
    is_valid_app: bool,
    last: Option<u32>,
    now: u32,
    interval: u32,
) -> (r: Result<(), Error>)
    ensures
        !is_valid_app ==> r == Err::<(), Error>(Error::AppIdInvalid),
        is_valid_app ==> (r is Ok <==> match last {
            Some(l) => now >= l && now - l > interval,
            None => true,
        }),
        r is Err && is_valid_app ==> r == Err::<(), Error>(Error::LeaderBoardCreateNotPermit),
{
    if !is_valid_app {
        return Err(Error::AppIdInvalid);
    }
    match last {
        Some(l) => {
            if now >= l && now - l > interval {
                Ok(())
            } else {
                Err(Error::LeaderBoardCreateNotPermit)
            }
        },
        None => Ok(()),
    }
}

} // verus!
