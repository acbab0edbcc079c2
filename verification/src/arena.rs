//! The duel engine: a two-party escrow game.
//!
//! A game moves Open -> Staged -> Resolved.  `create_game` locks the
//! initiator's stake, `join_game` locks the competitor's, and `start_fight`
//! irreversibly settles the duel: it derives a win probability from the
//! fielded units' stats, decides the winner from the host-supplied public
//! random draw, and pays the whole pot plus the initiator's fielded unit
//! token to the winner.

use vstd::prelude::*;

use vstd::arithmetic::div_mod::{lemma_div_is_ordered, lemma_div_pos_is_pos};

use crate::effects::{action_models, fails_with, Action, ActionModel, TxError};
use crate::escrow::{balance_of, escrow_total, escrow_wf, lemma_escrow_total_nonneg, EscrowLedger};
use crate::tokens::clone_bytes;

verus! {

/// A combat unit fielded in a duel.
pub struct Soldier {
    pub token_id: Vec<u8>,
    pub nonce: u64,
    pub attack: u32,
    pub defense: u32,
}

/// Mathematical model of a [`Soldier`].
pub struct SoldierModel {
    pub token_id: Seq<u8>,
    pub nonce: u64,
    pub attack: u32,
    pub defense: u32,
}

impl View for Soldier {
    type V = SoldierModel;

    open spec fn view(&self) -> SoldierModel {
        SoldierModel {
            token_id: self.token_id@,
            nonce: self.nonce,
            attack: self.attack,
            defense: self.defense,
        }
    }
}

/// A duel between an initiator and (once joined) a competitor.
pub struct Game {
    pub initiator: u64,
    pub competitor: Option<u64>,
    pub soldier_initiator: Soldier,
    pub soldier_competitor: Option<Soldier>,
    pub entrance_fee: u64,
    pub completed: bool,
}

/// Mathematical model of a [`Game`].
pub struct GameModel {
    pub initiator: u64,
    pub competitor: Option<u64>,
    pub soldier_initiator: SoldierModel,
    pub soldier_competitor: Option<SoldierModel>,
    pub entrance_fee: u64,
    pub completed: bool,
}

impl View for Game {
    type V = GameModel;

    open spec fn view(&self) -> GameModel {
        GameModel {
            initiator: self.initiator,
            competitor: self.competitor,
            soldier_initiator: self.soldier_initiator@,
            soldier_competitor: match self.soldier_competitor {
                Option::Some(s) => Option::Some(s@),
                Option::None => Option::None,
            },
            entrance_fee: self.entrance_fee,
            completed: self.completed,
        }
    }
}

/// Game well-formedness: competitor and fielded competitor unit are both
/// absent or both present, and only a staged game can be completed.
pub open spec fn game_wf(g: GameModel) -> bool {
    &&& g.competitor is Some <==> g.soldier_competitor is Some
    &&& g.completed ==> g.competitor is Some
}

/// Open state: the competitor slot is still empty.
pub open spec fn game_open(g: GameModel) -> bool {
    g.competitor is None
}

/// Staged state: both parties are in.
pub open spec fn game_staged(g: GameModel) -> bool {
    g.competitor is Some
}

/// Joining is allowed only on an Open game, with the entrance fee covered.
pub open spec fn join_allowed(g: GameModel, payment: u64) -> bool {
    game_open(g) && payment >= g.entrance_fee
}

/// Resolution is allowed only on a Staged game that is not yet completed.
pub open spec fn fight_allowed(g: GameModel) -> bool {
    game_staged(g) && !g.completed
}

/// A unit's combat score.
pub open spec fn score(s: SoldierModel) -> int {
    s.attack + s.defense
}

/// The initiator's win chance in percent, from the two scores: 50, pushed
/// up or down by one point per full 100 points of score difference, with the
/// influence of the gap capped at 50 points either way.
pub open spec fn win_chance(score_i: int, score_c: int) -> int {
    if score_i >= score_c {
        let diff = score_i - score_c;
        let capped = if diff > 5000 {
            5000int
        } else {
            diff
        };
        let c = 50 + capped / 100;
        if c > 100 {
            100
        } else {
            c
        }
    } else {
        let diff = score_c - score_i;
        let capped = if diff > 5000 {
            5000int
        } else {
            diff
        };
        let c = 50 - capped / 100;
        if c < 0 {
            0
        } else {
            c
        }
    }
}

/// The winner of a staged duel, given the public random draw.
pub open spec fn duel_winner(g: GameModel, random: u64) -> u64 {
    if random as int % 100 < win_chance(score(g.soldier_initiator), score(g.soldier_competitor->0)) {
        g.initiator
    } else {
        g.competitor->0
    }
}

/// The payout action list of a resolved duel: the full pot, plus one unit
/// of the initiator's fielded combat-unit token, to the winner.
pub open spec fn payout_actions(winner: u64, pot: u64, unit: SoldierModel) -> Seq<ActionModel> {
    seq![
        ActionModel::SendCurrency { to: winner, amount: pot },
        ActionModel::SendTokens { to: winner, token: unit.token_id, nonce: unit.nonce, amount: 1 },
    ]
}

/// Probability bounds: the win chance always lies in [0, 100].
pub proof fn lemma_win_chance_in_range(score_i: int, score_c: int)
    requires
        score_i >= 0,
        score_c >= 0,
    ensures
        0 <= win_chance(score_i, score_c) <= 100,
{
    if score_i >= score_c {
        let diff = score_i - score_c;
        let capped = if diff > 5000 {
            5000int
        } else {
            diff
        };
        lemma_div_pos_is_pos(capped, 100);
    } else {
        let diff = score_c - score_i;
        let capped = if diff > 5000 {
            5000int
        } else {
            diff
        };
        lemma_div_pos_is_pos(capped, 100);
        lemma_div_is_ordered(capped, 5000, 100);
    }
}

/// Probability monotonicity: for a fixed competitor score, the initiator's
/// win chance never decreases as the initiator's score grows.
pub proof fn lemma_win_chance_monotonic(score_1: int, score_2: int, score_c: int)
    requires
        0 <= score_1 <= score_2,
        0 <= score_c,
    ensures
        win_chance(score_1, score_c) <= win_chance(score_2, score_c),
{
    if score_1 >= score_c {
        let d1 = score_1 - score_c;
        let d2 = score_2 - score_c;
        let c1 = if d1 > 5000 {
            5000int
        } else {
            d1
        };
        let c2 = if d2 > 5000 {
            5000int
        } else {
            d2
        };
        lemma_div_is_ordered(c1, c2, 100);
    } else if score_2 >= score_c {
        let d1 = score_c - score_1;
        let c1 = if d1 > 5000 {
            5000int
        } else {
            d1
        };
        lemma_div_pos_is_pos(c1, 100);
        let d2 = score_2 - score_c;
        let c2 = if d2 > 5000 {
            5000int
        } else {
            d2
        };
        lemma_div_pos_is_pos(c2, 100);
    } else {
        let d1 = score_c - score_1;
        let d2 = score_c - score_2;
        let c1 = if d1 > 5000 {
            5000int
        } else {
            d1
        };
        let c2 = if d2 > 5000 {
            5000int
        } else {
            d2
        };
        lemma_div_is_ordered(c2, c1, 100);
        lemma_div_is_ordered(c1, 5000, 100);
    }
}

/// State-machine safety: a Staged or Resolved game can never be joined.
pub proof fn lemma_join_game_safety(g: GameModel, payment: u64)
    requires
        game_wf(g),
        game_staged(g) || g.completed,
    ensures
        !join_allowed(g, payment),
{
}

/// State-machine safety: an Open or already-completed game can never be
/// fought.
pub proof fn lemma_start_fight_safety(g: GameModel)
    requires
        game_open(g) || g.completed,
    ensures
        !fight_allowed(g),
{
}

/// The initiator's win chance in percent (executable form).
pub fn win_chance_initiator(score_i: u64, score_c: u64) -> (c: u64)
    ensures
        c as int == win_chance(score_i as int, score_c as int),
        c <= 100,
{
    if score_i >= score_c {
        let diff = score_i - score_c;
        let capped = if diff > 5000 {
            5000
        } else {
            diff
        };
        proof {
            lemma_div_is_ordered(capped as int, 5000, 100);
            lemma_div_pos_is_pos(capped as int, 100);
        }
        let bonus = capped / 100;
        let c = 50 + bonus;
        if c > 100 {
            100
        } else {
            c
        }
    } else {
        let diff = score_c - score_i;
        let capped = if diff > 5000 {
            5000
        } else {
            diff
        };
        proof {
            lemma_div_is_ordered(capped as int, 5000, 100);
            lemma_div_pos_is_pos(capped as int, 100);
        }
        let malus = capped / 100;
        50 - malus
    }
}

/// One stored game under its identifier.
pub struct GameEntry {
    pub id: Vec<u8>,
    pub game: Game,
}

/// Mathematical model of a [`GameEntry`].
pub struct GameEntryModel {
    pub id: Seq<u8>,
    pub game: GameModel,
}

impl View for GameEntry {
    type V = GameEntryModel;

    open spec fn view(&self) -> GameEntryModel {
        GameEntryModel { id: self.id@, game: self.game@ }
    }
}

/// The game stored under `id`, if any.
pub open spec fn game_of(s: Seq<GameEntryModel>, id: Seq<u8>) -> Option<GameModel>
    decreases s.len(),
{
    if s.len() == 0 {
        Option::None
    } else if s[0].id == id {
        Option::Some(s[0].game)
    } else {
        game_of(s.drop_first(), id)
    }
}

/// No two games share an identifier.
pub open spec fn game_ids_unique(s: Seq<GameEntryModel>) -> bool {
    forall|i: int, j: int| 0 <= i < j < s.len() ==> s[i].id != s[j].id
}

/// Game store well-formedness: unique identifiers and well-formed games.
pub open spec fn games_wf(s: Seq<GameEntryModel>) -> bool {
    game_ids_unique(s) && forall|i: int| 0 <= i < s.len() ==> game_wf(#[trigger] s[i].game)
}

proof fn lemma_game_found(s: Seq<GameEntryModel>, i: int)
    requires
        0 <= i < s.len(),
        forall|j: int| 0 <= j < i ==> s[j].id != s[i].id,
    ensures
        game_of(s, s[i].id) == Option::Some(s[i].game),
    decreases i,
{
    if i > 0 {
        let rest = s.drop_first();
        assert(forall|j: int| 0 <= j < rest.len() ==> rest[j] == s[j + 1]);
        lemma_game_found(rest, i - 1);
    }
}

proof fn lemma_game_no_id(s: Seq<GameEntryModel>, id: Seq<u8>)
    requires
        forall|j: int| 0 <= j < s.len() ==> s[j].id != id,
    ensures
        game_of(s, id) is None,
    decreases s.len(),
{
    if s.len() > 0 {
        let rest = s.drop_first();
        assert(forall|j: int| 0 <= j < rest.len() ==> rest[j] == s[j + 1]);
        lemma_game_no_id(rest, id);
    }
}

proof fn lemma_game_push(s: Seq<GameEntryModel>, e: GameEntryModel)
    requires
        forall|j: int| 0 <= j < s.len() ==> s[j].id != e.id,
    ensures
        game_of(s.push(e), e.id) == Option::Some(e.game),
        forall|id2: Seq<u8>| id2 != e.id ==> game_of(s.push(e), id2) == game_of(s, id2),
    decreases s.len(),
{
    if s.len() == 0 {
        assert(s.push(e)[0] == e);
        assert forall|id2: Seq<u8>| id2 != e.id implies game_of(s.push(e), id2) == game_of(
            s,
            id2,
        ) by {
            assert(s.push(e).drop_first() =~= s);
        }
    } else {
        let rest = s.drop_first();
        assert(forall|j: int| 0 <= j < rest.len() ==> rest[j] == s[j + 1]);
        lemma_game_push(rest, e);
        assert(s.push(e).drop_first() =~= rest.push(e));
        assert(s.push(e)[0] == s[0]);
        assert forall|id2: Seq<u8>| id2 != e.id implies game_of(s.push(e), id2) == game_of(
            s,
            id2,
        ) by {
            if s[0].id != id2 {
                assert(game_of(s.push(e), id2) == game_of(rest.push(e), id2));
                assert(game_of(s, id2) == game_of(rest, id2));
            }
        }
        assert(game_of(s.push(e), e.id) == game_of(rest.push(e), e.id));
    }
}

proof fn lemma_game_update(s: Seq<GameEntryModel>, i: int, g2: GameModel)
    requires
        game_ids_unique(s),
        0 <= i < s.len(),
    ensures
        game_of(s.update(i, GameEntryModel { id: s[i].id, game: g2 }), s[i].id) == Option::Some(
            g2,
        ),
        forall|id2: Seq<u8>|
            id2 != s[i].id ==> game_of(s.update(i, GameEntryModel { id: s[i].id, game: g2 }), id2)
                == game_of(s, id2),
        game_ids_unique(s.update(i, GameEntryModel { id: s[i].id, game: g2 })),
    decreases s.len(),
{
    let u = s.update(i, GameEntryModel { id: s[i].id, game: g2 });
    assert(forall|j: int|
        0 <= j < s.len() ==> u[j] == (if j == i {
            GameEntryModel { id: s[i].id, game: g2 }
        } else {
            s[j]
        }));
    if i == 0 {
        assert(u[0].id == s[0].id);
        assert forall|id2: Seq<u8>| id2 != s[0].id implies game_of(u, id2) == game_of(s, id2) by {
            assert(u.drop_first() =~= s.drop_first());
        }
    } else {
        let rest = s.drop_first();
        assert(forall|j: int| 0 <= j < rest.len() ==> rest[j] == s[j + 1]);
        lemma_game_update(rest, i - 1, g2);
        assert(u.drop_first() =~= rest.update(i - 1, GameEntryModel { id: s[i].id, game: g2 }));
        assert(u[0] == s[0]);
        assert(rest[i - 1] == s[i]);
        assert forall|id2: Seq<u8>| id2 != s[i].id implies game_of(u, id2) == game_of(s, id2) by {
            if s[0].id != id2 {
                assert(game_of(u, id2) == game_of(u.drop_first(), id2));
                assert(game_of(s, id2) == game_of(rest, id2));
            }
        }
        assert(game_of(u, s[i].id) == game_of(u.drop_first(), s[i].id));
    }
}

/// The pot of a stored, fightable game whose competitor is its own
/// initiator fits the machine word.  A machine limit: such a game reads
/// the one balance twice, so its pot can exceed what the ledger invariant
/// bounds; for distinct parties the invariant already bounds the pot by
/// the ledger total, and a game that cannot be fought computes no pot.
pub open spec fn pot_fits(m: ArenaModel, id: Seq<u8>) -> bool {
    match game_of(m.games, id) {
        Option::Some(g) => match g.competitor {
            Option::Some(c) => (!g.completed && c == g.initiator) ==> balance_of(
                m.deposits,
                g.initiator,
            ) + balance_of(m.deposits, c) <= u64::MAX,
            Option::None => true,
        },
        Option::None => true,
    }
}

/// What a successful resolution did: the payout actions carry the whole pot
/// plus the initiator's unit token to the winner, both escrow balances are
/// drained, the game is completed, and nothing else moved.
pub open spec fn fight_outcome_holds(
    pre: ArenaModel,
    post: ArenaModel,
    id: Seq<u8>,
    random: u64,
    acts: Seq<ActionModel>,
) -> bool {
    match game_of(pre.games, id) {
        Option::Some(g) => {
            let c = g.competitor->0;
            let winner = duel_winner(g, random);
            let pot = balance_of(pre.deposits, g.initiator) + balance_of(pre.deposits, c);
            &&& acts == payout_actions(winner, pot as u64, g.soldier_initiator)
            &&& game_of(post.games, id) == Option::Some(
                GameModel {
                    initiator: g.initiator,
                    competitor: g.competitor,
                    soldier_initiator: g.soldier_initiator,
                    soldier_competitor: g.soldier_competitor,
                    entrance_fee: g.entrance_fee,
                    completed: true,
                },
            )
            &&& forall|id2: Seq<u8>| id2 != id ==> game_of(post.games, id2) == game_of(
                pre.games,
                id2,
            )
            &&& balance_of(post.deposits, g.initiator) == 0
            &&& balance_of(post.deposits, c) == 0
            &&& forall|o2: u64|
                o2 != g.initiator && o2 != c ==> balance_of(post.deposits, o2) == balance_of(
                    pre.deposits,
                    o2,
                )
            &&& (g.initiator != c ==> escrow_total(post.deposits) == escrow_total(pre.deposits)
                - pot)
        },
        Option::None => false,
    }
}

/// Conservation: a successful resolution pays the winner exactly the two
/// parties' deposits, and for distinct parties the escrow total shrinks by
/// exactly that payout — no value is created, none is left behind.  (A
/// game whose competitor is its own initiator reads the one balance twice,
/// so it is outside this law.)
pub proof fn lemma_duel_conservation(
    pre: ArenaModel,
    post: ArenaModel,
    id: Seq<u8>,
    random: u64,
    acts: Seq<ActionModel>,
)
    requires
        game_of(pre.games, id) is Some,
        fight_outcome_holds(pre, post, id, random, acts),
    ensures
        ({
            let g = game_of(pre.games, id)->0;
            let pot = balance_of(pre.deposits, g.initiator) + balance_of(
                pre.deposits,
                g.competitor->0,
            );
            &&& acts[0] == ActionModel::SendCurrency {
                to: duel_winner(g, random),
                amount: pot as u64,
            }
            &&& (g.initiator != g.competitor->0 ==> escrow_total(pre.deposits) - escrow_total(
                post.deposits,
            ) == pot)
        }),
{
}

/// Mathematical model of the whole duel engine state.
pub struct ArenaModel {
    pub games: Seq<GameEntryModel>,
    pub deposits: Seq<crate::escrow::DepositEntry>,
}

/// The duel engine: stored games plus the escrow ledger.
pub struct ArenaSc {
    pub games: Vec<GameEntry>,
    pub deposits: EscrowLedger,
}

impl View for ArenaSc {
    type V = ArenaModel;

    open spec fn view(&self) -> ArenaModel {
        ArenaModel {
            games: self.games@.map_values(|e: GameEntry| e@),
            deposits: self.deposits@,
        }
    }
}

impl ArenaSc {
    /// Engine well-formedness.
    pub open spec fn wf(&self) -> bool {
        games_wf(self@.games) && escrow_wf(self@.deposits)
    }

    /// A fresh engine with no games and no deposits.
    pub fn new() -> (r: ArenaSc)
        ensures
            r.wf(),
            r@.games =~= Seq::<GameEntryModel>::empty(),
            r@.deposits =~= Seq::<crate::escrow::DepositEntry>::empty(),
    {
        let r = ArenaSc { games: Vec::new(), deposits: EscrowLedger::new() };
        proof {
            assert(r@.games =~= Seq::<GameEntryModel>::empty());
        }
        r
    }

    /// The position of the game stored under `id`, if any.
    fn find(&self, id: &Vec<u8>) -> (r: Option<usize>)
        ensures
            match r {
                Option::Some(i) => i < self@.games.len() && self@.games[i as int].id == id@
                    && forall|j: int| 0 <= j < i ==> self@.games[j].id != id@,
                Option::None => forall|j: int| 0 <= j < self@.games.len() ==> self@.games[j].id
                    != id@,
            },
    {
        let mut i: usize = 0;
        while i < self.games.len()
            invariant
                i <= self.games@.len(),
                self@.games.len() == self.games@.len(),
                forall|j: int| 0 <= j < i ==> self@.games[j].id != id@,
            decreases self.games@.len() - i,
        {
            proof {
                assert(self@.games[i as int] == self.games@[i as int]@);
            }
            if crate::tokens::bytes_eq(&self.games[i].id, id) {
                return Some(i);
            }
            i += 1;
        }
        None
    }

    /// Create a game: lock the initiator's payment in escrow and store the
    /// game in the Open state.
    ///
    /// Fails with `Validation` when the payment does not cover the entrance
    /// fee, and with `StateConflict` when the identifier is already used; a
    /// failure changes nothing.
    pub fn create_game(
        &mut self,
        caller: u64,
        payment: u64,
        game_id: &Vec<u8>,
        unit: Soldier,
        entrance_fee: u64,
    ) -> (r: Result<(), TxError>)
        requires
            old(self).wf(),
            (payment >= entrance_fee && game_of(old(self)@.games, game_id@) is None)
                ==> escrow_total(old(self)@.deposits) + payment <= u64::MAX,
        ensures
            final(self).wf(),
            r is Ok <==> payment >= entrance_fee && game_of(old(self)@.games, game_id@) is None,
            fails_with(r, TxError::Validation) <==> payment < entrance_fee,
            fails_with(r, TxError::StateConflict) <==> (payment >= entrance_fee && game_of(
                old(self)@.games,
                game_id@,
            ) is Some),
            r is Err ==> final(self)@ == old(self)@,
            r is Ok ==> game_of(final(self)@.games, game_id@) == Option::Some(
                GameModel {
                    initiator: caller,
                    competitor: Option::None,
                    soldier_initiator: unit@,
                    soldier_competitor: Option::None,
                    entrance_fee,
                    completed: false,
                },
            ),
            r is Ok ==> forall|id2: Seq<u8>|
                id2 != game_id@ ==> game_of(final(self)@.games, id2) == game_of(
                    old(self)@.games,
                    id2,
                ),
            r is Ok ==> balance_of(final(self)@.deposits, caller) == balance_of(
                old(self)@.deposits,
                caller,
            ) + payment,
            r is Ok ==> forall|o2: u64|
                o2 != caller ==> balance_of(final(self)@.deposits, o2) == balance_of(
                    old(self)@.deposits,
                    o2,
                ),
            r is Ok ==> escrow_total(final(self)@.deposits) == escrow_total(old(self)@.deposits)
                + payment,
    {
        if payment < entrance_fee {
            return Err(TxError::Validation);
        }
        let ghost pre = self@.games;
        match self.find(game_id) {
            Some(i) => {
                proof {
                    lemma_game_found(pre, i as int);
                }
                Err(TxError::StateConflict)
            },
            None => {
                proof {
                    lemma_game_no_id(pre, game_id@);
                }
                let id2 = clone_bytes(game_id);
                let entry = GameEntry {
                    id: id2,
                    game: Game {
                        initiator: caller,
                        competitor: None,
                        soldier_initiator: unit,
                        soldier_competitor: None,
                        entrance_fee,
                        completed: false,
                    },
                };
                proof {
                    lemma_game_push(pre, entry@);
                }
                self.games.push(entry);
                proof {
                    assert(self@.games =~= pre.push(
                        GameEntryModel {
                            id: game_id@,
                            game: GameModel {
                                initiator: caller,
                                competitor: Option::None,
                                soldier_initiator: unit@,
                                soldier_competitor: Option::None,
                                entrance_fee,
                                completed: false,
                            },
                        },
                    ));
                }
                self.deposits.deposit(caller, payment);
                Ok(())
            },
        }
    }

    /// Join a game: lock the competitor's payment in escrow and move the
    /// game from Open to Staged.
    ///
    /// Fails with `StateConflict` when the game does not exist or already
    /// has a competitor (Staged or Resolved), and with `Validation` when the
    /// payment does not cover the entrance fee; a failure changes nothing.
    pub fn join_game(
        &mut self,
        caller: u64,
        payment: u64,
        game_id: &Vec<u8>,
        unit: Soldier,
    ) -> (r: Result<(), TxError>)
        requires
            old(self).wf(),
            (game_of(old(self)@.games, game_id@) matches Option::Some(g) && join_allowed(
                g,
                payment,
            )) ==> escrow_total(old(self)@.deposits) + payment <= u64::MAX,
        ensures
            final(self).wf(),
            r is Ok <==> (game_of(old(self)@.games, game_id@) matches Option::Some(g)
                && join_allowed(g, payment)),
            fails_with(r, TxError::StateConflict) <==> (game_of(old(self)@.games, game_id@) is None
                || (game_of(old(self)@.games, game_id@) matches Option::Some(g) && !game_open(g))),
            fails_with(r, TxError::Validation) <==> (game_of(old(self)@.games, game_id@)
                matches Option::Some(g) && game_open(g) && payment < g.entrance_fee),
            r is Err ==> final(self)@ == old(self)@,
            r is Ok ==> (game_of(old(self)@.games, game_id@) matches Option::Some(g)
                && game_of(final(self)@.games, game_id@) == Option::Some(
                GameModel {
                    initiator: g.initiator,
                    competitor: Option::Some(caller),
                    soldier_initiator: g.soldier_initiator,
                    soldier_competitor: Option::Some(unit@),
                    entrance_fee: g.entrance_fee,
                    completed: g.completed,
                },
            )),
            r is Ok ==> forall|id2: Seq<u8>|
                id2 != game_id@ ==> game_of(final(self)@.games, id2) == game_of(
                    old(self)@.games,
                    id2,
                ),
            r is Ok ==> balance_of(final(self)@.deposits, caller) == balance_of(
                old(self)@.deposits,
                caller,
            ) + payment,
            r is Ok ==> forall|o2: u64|
                o2 != caller ==> balance_of(final(self)@.deposits, o2) == balance_of(
                    old(self)@.deposits,
                    o2,
                ),
            r is Ok ==> escrow_total(final(self)@.deposits) == escrow_total(old(self)@.deposits)
                + payment,
    {
        let ghost pre = self@.games;
        match self.find(game_id) {
            None => {
                proof {
                    lemma_game_no_id(pre, game_id@);
                }
                Err(TxError::StateConflict)
            },
            Some(i) => {
                proof {
                    lemma_game_found(pre, i as int);
                }
                if self.games[i].game.competitor.is_some() {
                    return Err(TxError::StateConflict);
                }
                if payment < self.games[i].game.entrance_fee {
                    return Err(TxError::Validation);
                }
                let ghost g = pre[i as int].game;
                let ghost g2 = GameModel {
                    initiator: g.initiator,
                    competitor: Option::Some(caller),
                    soldier_initiator: g.soldier_initiator,
                    soldier_competitor: Option::Some(unit@),
                    entrance_fee: g.entrance_fee,
                    completed: g.completed,
                };
                self.games[i].game.competitor = Some(caller);
                self.games[i].game.soldier_competitor = Some(unit);
                proof {
                    assert(self@.games =~= pre.update(
                        i as int,
                        GameEntryModel { id: pre[i as int].id, game: g2 },
                    ));
                    lemma_game_update(pre, i as int, g2);
                }
                self.deposits.deposit(caller, payment);
                Ok(())
            },
        }
    }

    /// Resolve a Staged game: decide the winner from the public random
    /// draw, pay out the whole pot plus the initiator's unit token, drain
    /// both escrow balances and complete the game, irreversibly.
    ///
    /// Fails with `StateConflict`, changing nothing, when the game does not
    /// exist, has no competitor yet, or is already completed.
    pub fn start_fight(&mut self, game_id: &Vec<u8>, random: u64) -> (r: Result<
        Vec<Action>,
        TxError,
    >)
        requires
            old(self).wf(),
            pot_fits(old(self)@, game_id@),
        ensures
            final(self).wf(),
            r is Ok <==> (game_of(old(self)@.games, game_id@) matches Option::Some(g)
                && fight_allowed(g)),
            r matches Err(e) ==> e == TxError::StateConflict && final(self)@ == old(self)@,
            r matches Ok(acts) ==> fight_outcome_holds(
                old(self)@,
                final(self)@,
                game_id@,
                random,
                action_models(acts@),
            ),
    {
        let ghost pre = self@;
        match self.find(game_id) {
            None => {
                proof {
                    lemma_game_no_id(pre.games, game_id@);
                }
                Err(TxError::StateConflict)
            },
            Some(i) => {
                proof {
                    lemma_game_found(pre.games, i as int);
                    assert(game_wf(pre.games[i as int].game));
                }
                if self.games[i].game.completed {
                    return Err(TxError::StateConflict);
                }
                match (self.games[i].game.competitor, self.games[i].game.soldier_competitor.is_some()) {
                    (Some(comp), true) => {
                        let initiator = self.games[i].game.initiator;
                        let score_i = self.games[i].game.soldier_initiator.attack as u64
                            + self.games[i].game.soldier_initiator.defense as u64;
                        let score_c = match &self.games[i].game.soldier_competitor {
                            Some(s) => s.attack as u64 + s.defense as u64,
                            None => 0,
                        };
                        let token = clone_bytes(&self.games[i].game.soldier_initiator.token_id);
                        let unit_nonce = self.games[i].game.soldier_initiator.nonce;
                        let chance = win_chance_initiator(score_i, score_c);
                        let winner = if random % 100 < chance {
                            initiator
                        } else {
                            comp
                        };
                        proof {
                            if initiator != comp {
                                crate::escrow::lemma_two_balances_le_total(
                                    pre.deposits,
                                    initiator,
                                    comp,
                                );
                            }
                        }
                        let pot = self.deposits.settle(initiator, comp);
                        let ghost g = pre.games[i as int].game;
                        let ghost g2 = GameModel {
                            initiator: g.initiator,
                            competitor: g.competitor,
                            soldier_initiator: g.soldier_initiator,
                            soldier_competitor: g.soldier_competitor,
                            entrance_fee: g.entrance_fee,
                            completed: true,
                        };
                        self.games[i].game.completed = true;
                        proof {
                            assert(self@.games =~= pre.games.update(
                                i as int,
                                GameEntryModel { id: pre.games[i as int].id, game: g2 },
                            ));
                            lemma_game_update(pre.games, i as int, g2);
                        }
                        let mut acts: Vec<Action> = Vec::new();
                        acts.push(Action::SendCurrency { to: winner, amount: pot });
                        acts.push(
                            Action::SendTokens {
                                to: winner,
                                token,
                                nonce: unit_nonce,
                                amount: 1,
                            },
                        );
                        proof {
                            assert(winner == duel_winner(g, random));
                            assert(action_models(acts@) =~= payout_actions(
                                winner,
                                pot,
                                g.soldier_initiator,
                            ));
                        }
                        Ok(acts)
                    },
                    _ => {
                        proof {
                            assert(game_wf(pre.games[i as int].game));
                        }
                        Err(TxError::StateConflict)
                    },
                }
            },
        }
    }
}

} // verus!
