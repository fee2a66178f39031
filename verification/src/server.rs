use vstd::prelude::*;
use ahash::AHashMap;
use rand::rngs::ThreadRng;
use crate::{Error, Nums};
use crate::random::{thread_rng, shuffle_bytes};

verus! {

/// The hash map of `ahash`.
#[verifier::external_type_specification]
#[verifier::external_body]
#[verifier::reject_recursive_types(K)]
#[verifier::reject_recursive_types(V)]
#[verifier::reject_recursive_types(S)]
pub struct ExAHashMap<K, V, S>(ahash::AHashMap<K, V, S>);

/// The players that a map holds, by id.
pub uninterp spec fn players_of(map: AHashMap<usize, Player>) -> Map<usize, Player>;

/// Calls `ahash::AHashMap::with_capacity(4)`: a map with no players.
#[verifier::external_body]
fn new_player_map() -> (m: AHashMap<usize, Player>)
    ensures
        players_of(m).dom().len() == 0,
        players_of(m).dom().finite(),
{
    AHashMap::with_capacity(4)
}

/// Calls `keys` on the map (through its `HashMap`) and collects the ids in
/// the order in which the map walks them: each id of the map once. Which
/// order is not stated.
#[verifier::external_body]
fn player_ids(m: &AHashMap<usize, Player>) -> (ids: Vec<usize>)
    ensures
        ids@.no_duplicates(),
        ids@.to_set() == players_of(*m).dom(),
{
    m.keys().copied().collect()
}

/// Calls `ahash::AHashMap::remove`: takes the player with the id out of the
/// map, if there is one.
#[verifier::external_body]
fn remove_player(m: &mut AHashMap<usize, Player>, id: usize) -> (r: Option<Player>)
    ensures
        players_of(*final(m)) == players_of(*old(m)).remove(id),
        players_of(*old(m)).dom().contains(id) ==> r == Some(players_of(*old(m))[id]),
        !players_of(*old(m)).dom().contains(id) ==> r is None,
{
    m.remove(&id)
}

/// Calls `ahash::AHashMap::insert`: puts the player under the id, and hands
/// back the one it replaces, if any.
#[verifier::external_body]
fn insert_player(m: &mut AHashMap<usize, Player>, id: usize, player: Player) -> (r: Option<Player>)
    ensures
        players_of(*final(m)) == players_of(*old(m)).insert(id, player),
        players_of(*old(m)).dom().contains(id) ==> r == Some(players_of(*old(m))[id]),
        !players_of(*old(m)).dom().contains(id) ==> r is None,
{
    m.insert(id, player)
}

/// What a client knows of a player: nick, id, hand of numbers, and whether
/// it hosts the room.
pub struct Player {
    nick: String,
    id: usize,
    pub nums: Nums,
    host: bool,
}

impl Player {
    /// The player's nick.
    pub closed spec fn nick_view(&self) -> Seq<char> {
        self.nick@
    }

    /// The player's id.
    pub closed spec fn id_view(&self) -> usize {
        self.id
    }

    /// The player's hand of numbers.
    pub closed spec fn nums_view(&self) -> Seq<u8> {
        self.nums.nums@
    }

    /// Whether the player hosts the room.
    pub closed spec fn host_view(&self) -> bool {
        self.host
    }

    /// A player with the given nick, numbers and host flag, and id 0.
    pub fn new(nick: String, nums: Nums, host: bool) -> (r: Self)
        ensures
            r.nick_view() == nick@,
            r.id_view() == 0,
            r.nums_view() == nums.nums@,
            r.host_view() == host,
    {
        Self { nick, id: 0, nums, host }
    }

    /// Takes the last number of the hand, if there is one.
    pub fn pop_num(&mut self) -> (r: Option<u8>)
        ensures
            final(self).nick_view() == old(self).nick_view(),
            final(self).id_view() == old(self).id_view(),
            final(self).host_view() == old(self).host_view(),
            old(self).nums_view().len() == 0 ==> r is None && final(self).nums_view() == old(
                self,
            ).nums_view(),
            old(self).nums_view().len() > 0 ==> r == Some(old(self).nums_view().last())
                && final(self).nums_view() == old(self).nums_view().drop_last(),
    {
        self.nums.nums.pop()
    }

    /// Replaces the hand.
    pub fn set_nums(&mut self, nums: Vec<u8>)
        ensures
            final(self).nick_view() == old(self).nick_view(),
            final(self).id_view() == old(self).id_view(),
            final(self).host_view() == old(self).host_view(),
            final(self).nums_view() == nums@,
    {
        self.nums.nums = nums;
    }

    /// The player's nick.
    pub fn nick(&self) -> (r: &str)
        ensures
            r@ == self.nick_view(),
    {
        self.nick.as_str()
    }

    /// The player's id.
    pub fn id(&self) -> (r: usize)
        ensures
            r == self.id_view(),
    {
        self.id
    }

    /// Whether the player hosts the room.
    pub fn is_host(&self) -> (r: bool)
        ensures
            r == self.host_view(),
    {
        self.host
    }
}

/// `p` is `q` with the hand `nums`.
pub open spec fn same_but_hand(p: Player, q: Player, nums: Seq<u8>) -> bool {
    &&& p.nick_view() == q.nick_view()
    &&& p.id_view() == q.id_view()
    &&& p.host_view() == q.host_view()
    &&& p.nums_view() == nums
}

/// The deal of a level: `order` lists each player once, and the player at
/// position `i` of it holds the single number at `level * i` of the pool,
/// all else unchanged.
pub open spec fn dealt(
    before: Map<usize, Player>,
    after: Map<usize, Player>,
    order: Seq<usize>,
    pool: Seq<u8>,
    level: usize,
) -> bool {
    &&& order.no_duplicates()
    &&& order.to_set() == before.dom()
    &&& after.dom() == before.dom()
    &&& forall|i: int|
        0 <= i < order.len() ==> same_but_hand(
            #[trigger] after[order[i]],
            before[order[i]],
            seq![pool[level * i]],
        )
}

/// The number of numbers in a room's pool.
pub const POOL_SIZE: usize = 101;

/// The most stars a room holds.
pub const MAX_STARS: usize = 3;

/// The most health a room holds.
pub const MAX_HEALTH: usize = 5;

/// The pool that a room starts with: 0 to 100 in order.
pub open spec fn initial_pool() -> Seq<u8> {
    Seq::new(POOL_SIZE as nat, |i: int| i as u8)
}

/// Levels that grant a star.
pub open spec fn star_level(level: usize) -> bool {
    level == 2 || level == 5 || level == 8
}

/// Levels that grant health.
pub open spec fn health_level(level: usize) -> bool {
    level == 3 || level == 6 || level == 9
}

/// The smaller of two numbers.
pub open spec fn min_of(a: int, b: int) -> int {
    if a <= b {
        a
    } else {
        b
    }
}

/// Stars and health after the pickups of `level`: one more star on a star
/// level, one more health on a health level, each up to its cap.
pub open spec fn after_pickups(level: usize, stars: usize, health: usize) -> (int, int) {
    (
        if star_level(level) {
            min_of(stars + 1, MAX_STARS as int)
        } else {
            stars as int
        },
        if health_level(level) {
            min_of(health + 1, MAX_HEALTH as int)
        } else {
            health as int
        },
    )
}

/// Stars and health after the pickups of `level`.
pub fn pickups_for(level: usize, stars: usize, health: usize) -> (r: (usize, usize))
    requires
        star_level(level) ==> stars < usize::MAX,
        health_level(level) ==> health < usize::MAX,
    ensures
        r.0 == after_pickups(level, stars, health).0,
        r.1 == after_pickups(level, stars, health).1,
        (level == 2 || level == 5 || level == 8) ==> r.0 == (if stars + 1 <= MAX_STARS {
            stars + 1
        } else {
            MAX_STARS as int
        }),
        !(level == 2 || level == 5 || level == 8) ==> r.0 == stars,
        (level == 3 || level == 6 || level == 9) ==> r.1 == (if health + 1 <= MAX_HEALTH {
            health + 1
        } else {
            MAX_HEALTH as int
        }),
        !(level == 3 || level == 6 || level == 9) ==> r.1 == health,
{
    let mut stars = stars;
    let mut health = health;
    if level == 2 || level == 5 || level == 8 {
        stars = stars + 1;
        if stars > MAX_STARS {
            stars = MAX_STARS;
        }
    }
    if level == 3 || level == 6 || level == 9 {
        health = health + 1;
        if health > MAX_HEALTH {
            health = MAX_HEALTH;
        }
    }
    (stars, health)
}

/// Pickups never take stars or health past their caps.
pub proof fn lemma_pickups_within_caps(level: usize, stars: usize, health: usize)
    requires
        stars <= MAX_STARS,
        health <= MAX_HEALTH,
    ensures
        stars <= after_pickups(level, stars, health).0 <= MAX_STARS,
        health <= after_pickups(level, stars, health).1 <= MAX_HEALTH,
        after_pickups(level, stars, health).0 <= stars + 1,
        after_pickups(level, stars, health).1 <= health + 1,
{
}

/// Only levels 2, 5 and 8 grant a star, and only levels 3, 6 and 9 grant
/// health: on every other level the pickups leave stars and health as they
/// are, and on those levels each grows by one up to its cap.
pub proof fn lemma_pickup_levels(level: usize, stars: usize, health: usize)
    ensures
        level != 2 && level != 5 && level != 8 ==> after_pickups(level, stars, health).0 == stars,
        level != 3 && level != 6 && level != 9 ==> after_pickups(level, stars, health).1 == health,
        level == 2 || level == 5 || level == 8 ==> after_pickups(level, stars, health).0 == (if stars
            < 3 {
            stars + 1
        } else {
            3
        }),
        level == 3 || level == 6 || level == 9 ==> after_pickups(level, stars, health).1 == (if health
            < 5 {
            health + 1
        } else {
            5
        }),
        level < 2 || level > 9 ==> after_pickups(level, stars, health) == (stars as int, health as int),
        after_pickups(level, stars, health).0 == stars || after_pickups(level, stars, health).1
            == health,
{
}

/// A pool that holds 0 to 100 once each, in any order, has no number twice.
pub proof fn lemma_pool_distinct(pool: Seq<u8>)
    requires
        pool.to_multiset() == initial_pool().to_multiset(),
    ensures
        pool.no_duplicates(),
        pool.len() == POOL_SIZE,
{
    let init = initial_pool();
    assert(init.no_duplicates()) by {
        assert forall|i: int, j: int| 0 <= i < init.len() && 0 <= j < init.len() && i != j implies init[i]
            != init[j] by {
            assert(init[i] == i as u8);
            assert(init[j] == j as u8);
        }
    }
    init.lemma_multiset_has_no_duplicates();
    pool.lemma_multiset_has_no_duplicates_conv();
    vstd::seq_lib::to_multiset_len(pool);
    vstd::seq_lib::to_multiset_len(init);
}

/// At a level above 0, a deal from a pool of distinct numbers gives no two
/// players the same number.
pub proof fn lemma_deal_distinct(
    before: Map<usize, Player>,
    after: Map<usize, Player>,
    order: Seq<usize>,
    pool: Seq<u8>,
    level: usize,
    a: usize,
    b: usize,
)
    requires
        dealt(before, after, order, pool, level),
        level > 0,
        pool.to_multiset() == initial_pool().to_multiset(),
        order.len() == 0 || level * (order.len() - 1) < POOL_SIZE,
        before.dom().contains(a),
        before.dom().contains(b),
        a != b,
    ensures
        after[a].nums_view() != after[b].nums_view(),
{
    lemma_pool_distinct(pool);
    assert(order.to_set().contains(a));
    assert(order.to_set().contains(b));
    let i = choose|i: int| 0 <= i < order.len() && order[i] == a;
    let j = choose|j: int| 0 <= j < order.len() && order[j] == b;
    assert(same_but_hand(after[order[i]], before[order[i]], seq![pool[level * i]]));
    assert(same_but_hand(after[order[j]], before[order[j]], seq![pool[level * j]]));
    assert(i != j);
    assert(0 <= level * i < POOL_SIZE && 0 <= level * j < POOL_SIZE && level * i != level * j)
        by (nonlinear_arith)
        requires
            level > 0,
            0 <= i < order.len(),
            0 <= j < order.len(),
            i != j,
            level * (order.len() - 1) < POOL_SIZE,
    ;
    assert(seq![pool[level * i]][0] != seq![pool[level * j]][0]);
}

/// A game room: a stack of played numbers, the pool of numbers, the
/// players by id, stars, health, level and a random generator.
pub struct Room {
    stack: Vec<u8>,
    raw: Vec<u8>,
    players: AHashMap<usize, Player>,
    stars: usize,
    health: usize,
    level: usize,
    rng: ThreadRng,
}

impl Room {
    /// The stack of played numbers.
    pub closed spec fn stack_view(&self) -> Seq<u8> {
        self.stack@
    }

    /// The pool of numbers.
    pub closed spec fn raw_view(&self) -> Seq<u8> {
        self.raw@
    }

    /// The players by id.
    pub closed spec fn players_view(&self) -> Map<usize, Player> {
        players_of(self.players)
    }

    /// The stars.
    pub closed spec fn stars_view(&self) -> usize {
        self.stars
    }

    /// The health.
    pub closed spec fn health_view(&self) -> usize {
        self.health
    }

    /// The level.
    pub closed spec fn level_view(&self) -> usize {
        self.level
    }

    /// The room's invariant: the pool holds the numbers 0 to 100, each once,
    /// in some order; stars and health are within their caps; finitely many
    /// players.
    pub closed spec fn wf(&self) -> bool {
        &&& self.raw@.to_multiset() == initial_pool().to_multiset()
        &&& self.raw@.len() == POOL_SIZE
        &&& self.stars <= MAX_STARS
        &&& self.health <= MAX_HEALTH
        &&& players_of(self.players).dom().finite()
    }

    /// An empty room at level 0 with the pool 0 to 100 in order.
    pub fn new() -> (r: Result<Self, Error>)
        ensures
            r is Ok,
            r->Ok_0.wf(),
            r->Ok_0.stack_view().len() == 0,
            r->Ok_0.raw_view() == initial_pool(),
            r->Ok_0.players_view() == Map::<usize, Player>::empty(),
            r->Ok_0.stars_view() == 0,
            r->Ok_0.health_view() == 0,
            r->Ok_0.level_view() == 0,
    {
        let mut raw: Vec<u8> = Vec::new();
        let mut i: u8 = 0;
        while i <= 100
            invariant
                i <= 101,
                raw@ == Seq::new(i as nat, |j: int| j as u8),
            decreases 101 - i,
        {
            raw.push(i);
            assert(raw@ =~= Seq::new((i + 1) as nat, |j: int| j as u8));
            i = i + 1;
        }
        assert(raw@ =~= initial_pool());
        let players = new_player_map();
        proof {
            assert(players_of(players).dom() =~= Set::<usize>::empty());
        }
        Ok(Self {
            stack: Vec::with_capacity(50),
            raw,
            players,
            health: 0,
            stars: 0,
            level: 0,
            rng: thread_rng(),
        })
    }

    /// Applies the pickups of the current level to stars and health.
    pub fn pickups(&mut self)
        requires
            old(self).wf(),
        ensures
            final(self).wf(),
            final(self).stars_view() == after_pickups(
                old(self).level_view(),
                old(self).stars_view(),
                old(self).health_view(),
            ).0,
            final(self).health_view() == after_pickups(
                old(self).level_view(),
                old(self).stars_view(),
                old(self).health_view(),
            ).1,
            final(self).level_view() == old(self).level_view(),
            final(self).raw_view() == old(self).raw_view(),
            final(self).stack_view() == old(self).stack_view(),
            final(self).players_view() == old(self).players_view(),
    {
        let (stars, health) = pickups_for(self.level, self.stars, self.health);
        self.stars = stars;
        self.health = health;
    }

    /// Starts the next deal: clears the stack, shuffles the pool, applies the
    /// level's pickups, and gives each player, in the order in which the map
    /// walks them, the one number of the pool at `level` times the player's
    /// position as its new hand.
    pub fn lvl_up(&mut self)
        requires
            old(self).wf(),
            old(self).players_view().dom().len() == 0 || old(self).level_view() * (old(
                self,
            ).players_view().dom().len() - 1) < POOL_SIZE,
        ensures
            final(self).wf(),
            final(self).stack_view().len() == 0,
            final(self).raw_view().to_multiset() == old(self).raw_view().to_multiset(),
            final(self).stars_view() == after_pickups(
                old(self).level_view(),
                old(self).stars_view(),
                old(self).health_view(),
            ).0,
            final(self).health_view() == after_pickups(
                old(self).level_view(),
                old(self).stars_view(),
                old(self).health_view(),
            ).1,
            final(self).level_view() == old(self).level_view(),
            exists|order: Seq<usize>|
                dealt(
                    old(self).players_view(),
                    final(self).players_view(),
                    order,
                    final(self).raw_view(),
                    old(self).level_view(),
                ),
    {
        self.stack.clear();
        shuffle_bytes(&mut self.raw, &mut self.rng);
        self.pickups();
        let ids = player_ids(&self.players);
        let ghost before = players_of(self.players);
        let ghost pool = self.raw@;
        let ghost level = self.level;
        let ghost stars = self.stars;
        let ghost health = self.health;
        proof {
            ids@.unique_seq_to_set();
            vstd::seq_lib::seq_to_set_is_finite(ids@);
        }
        let mut k: usize = 0;
        while k < ids.len()
            invariant
                k <= ids@.len(),
                ids@.no_duplicates(),
                ids@.to_set() == before.dom(),
                ids@.len() == before.dom().len(),
                before.dom().finite(),
                ids@.len() == 0 || level * (ids@.len() - 1) < POOL_SIZE,
                self.raw@ == pool,
                self.raw@.len() == POOL_SIZE,
                pool.to_multiset() == initial_pool().to_multiset(),
                self.stack@.len() == 0,
                self.stars == stars,
                self.health == health,
                stars <= MAX_STARS,
                health <= MAX_HEALTH,
                self.level == level,
                players_of(self.players).dom() == before.dom(),
                forall|i: int|
                    0 <= i < k ==> same_but_hand(
                        #[trigger] players_of(self.players)[ids@[i]],
                        before[ids@[i]],
                        seq![pool[level * i]],
                    ),
                forall|i: int|
                    k <= i < ids@.len() ==> #[trigger] players_of(self.players)[ids@[i]]
                        == before[ids@[i]],
            decreases ids@.len() - k,
        {
            let key = ids[k];
            assert(ids@.to_set().contains(key)) by {
                assert(ids@.contains(key));
            }
            assert(level * k < POOL_SIZE) by (nonlinear_arith)
                requires
                    k < ids@.len(),
                    level * (ids@.len() - 1) < POOL_SIZE,
            ;
            let start = self.level * k;
            let mut nums: Vec<u8> = Vec::new();
            nums.push(self.raw[start]);
            let ghost prev = players_of(self.players);
            let removed = remove_player(&mut self.players, key);
            match removed {
                Some(mut player) => {
                    player.set_nums(nums);
                    insert_player(&mut self.players, key, player);
                },
                None => {},
            }
            proof {
                assert(players_of(self.players).dom() =~= before.dom());
                assert forall|i: int| 0 <= i < ids@.len() && i != k implies #[trigger] players_of(
                    self.players,
                )[ids@[i]] == prev[ids@[i]] by {
                    assert(ids@[i] != key);
                }
                assert(seq![self.raw@[start as int]] =~= seq![pool[level * k]]);
            }
            k = k + 1;
        }
        proof {
            assert(dealt(before, players_of(self.players), ids@, pool, level));
            assert(dealt(
                old(self).players_view(),
                self.players_view(),
                ids@,
                self.raw_view(),
                old(self).level_view(),
            ));
        }
    }

    /// The stars.
    pub fn stars(&self) -> (r: usize)
        ensures
            r == self.stars_view(),
    {
        self.stars
    }

    /// The health.
    pub fn health(&self) -> (r: usize)
        ensures
            r == self.health_view(),
    {
        self.health
    }

    /// The level.
    pub fn level(&self) -> (r: usize)
        ensures
            r == self.level_view(),
    {
        self.level
    }

    /// The pool of numbers.
    pub fn raw(&self) -> (r: &Vec<u8>)
        ensures
            r@ == self.raw_view(),
    {
        &self.raw
    }

    /// The stack of played numbers.
    pub fn stack(&self) -> (r: &Vec<u8>)
        ensures
            r@ == self.stack_view(),
    {
        &self.stack
    }
}

} // verus!
