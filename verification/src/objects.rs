//! The objects that a level is made of, and what touching them does to the
//! score and to the run.

use vstd::prelude::*;
use crate::fixed::SCALE;
use crate::game::{collide, Size};
use crate::loader::{level_path, level_path_text, LoadLevelEvent, NextLevel, RunData};
use crate::math::{Vec2, Vector};
use crate::menu::SpawnScoreMenuEvent;
use crate::player::{touches, Body, BodyState};
use crate::state::{is_playing, playing, AppState, SimulationState};

verus! {

/// A rectangle of the plane by its centre and its size: what an obstacle, a
/// coin or a door stands for.
pub struct Rectangle {
    pub position: Vector,
    pub size: Vector,
}

/// A rectangle that stops the player's body and never moves.
#[derive(Clone, Copy, Debug, Default, PartialEq, Eq, Structural)]
pub struct ObstacleComponent {
    /// Centre of the rectangle.
    pub position: Vec2,
    pub size: Size,
}

/// A coin, which is worth one point to the body that touches it.
#[derive(Clone, Copy, Debug, Default, PartialEq, Eq, Structural)]
pub struct CoinComponent {
    /// Centre of the coin.
    pub position: Vec2,
    pub size: Size,
}

/// A door, through which the level is left once enough coins are in.
#[derive(Clone, Copy, Debug, Default, PartialEq, Eq, Structural)]
pub struct DoorComponent {
    /// Centre of the door.
    pub position: Vec2,
    pub size: Size,
}

impl View for ObstacleComponent {
    type V = Rectangle;

    open spec fn view(&self) -> Rectangle {
        Rectangle { position: self.position@, size: self.size@ }
    }
}

impl DeepView for ObstacleComponent {
    type V = Rectangle;

    open spec fn deep_view(&self) -> Rectangle {
        self@
    }
}

impl View for CoinComponent {
    type V = Rectangle;

    open spec fn view(&self) -> Rectangle {
        Rectangle { position: self.position@, size: self.size@ }
    }
}

impl DeepView for CoinComponent {
    type V = Rectangle;

    open spec fn deep_view(&self) -> Rectangle {
        self@
    }
}

impl View for DoorComponent {
    type V = Rectangle;

    open spec fn view(&self) -> Rectangle {
        Rectangle { position: self.position@, size: self.size@ }
    }
}

impl DeepView for DoorComponent {
    type V = Rectangle;

    open spec fn deep_view(&self) -> Rectangle {
        self@
    }
}

/// The coins collected in the current level, and those that its door asks
/// for.
#[derive(Clone, Copy, Debug, Default, PartialEq, Eq, Structural)]
pub struct Score {
    pub current: usize,
    pub needed: usize,
}

/// The objects of the level that is being played.
#[derive(Clone, Debug, Default, PartialEq, Eq)]
pub struct Level {
    pub obstacles: Vec<ObstacleComponent>,
    pub coins: Vec<CoinComponent>,
    pub doors: Vec<DoorComponent>,
}

/// The rectangles of a level, kind by kind: what a `Level` stands for.
pub struct LevelState {
    pub obstacles: Seq<Rectangle>,
    pub coins: Seq<Rectangle>,
    pub doors: Seq<Rectangle>,
}

impl View for Level {
    type V = LevelState;

    open spec fn view(&self) -> LevelState {
        LevelState {
            obstacles: self.obstacles.deep_view(),
            coins: self.coins.deep_view(),
            doors: self.doors.deep_view(),
        }
    }
}

/// What winning a level sets off.
#[derive(Clone, Debug, PartialEq, Eq)]
pub enum LevelWon {
    /// The next level of the run is to be loaded.
    Next(LoadLevelEvent),
    /// The run is over and its score is to be shown.
    Finished(SpawnScoreMenuEvent),
}

/// The coins that the body leaves behind: those it does not touch, in their
/// order.
pub open spec fn coins_left(body: BodyState, coins: Seq<Rectangle>) -> Seq<Rectangle> {
    coins.filter(|coin: Rectangle| !touches(body, coin))
}

/// The places, in the list of coins, of the coins that the body touches, in
/// rising order.
pub open spec fn coins_touched(body: BodyState, coins: Seq<Rectangle>) -> Seq<usize>
    decreases coins.len(),
{
    if coins.len() == 0 {
        seq![]
    } else {
        let earlier = coins_touched(body, coins.drop_last());
        if touches(body, coins.last()) {
            earlier.push((coins.len() - 1) as usize)
        } else {
            earlier
        }
    }
}

/// A count raised by `by`, which stops at the largest count there is.
pub open spec fn raised(count: usize, by: int) -> usize {
    if count + by > usize::MAX {
        usize::MAX
    } else {
        (count + by) as usize
    }
}

/// Every coin is either touched or left behind, and a touched coin's place
/// lies within the list.
pub proof fn lemma_coins_split(body: BodyState, coins: Seq<Rectangle>)
    ensures
        coins_left(body, coins).len() + coins_touched(body, coins).len() == coins.len(),
        forall|i: int|
            0 <= i < coins_touched(body, coins).len() ==> (#[trigger] coins_touched(
                body,
                coins,
            )[i]) < coins.len(),
    decreases coins.len(),
{
    reveal(Seq::filter);
    if coins.len() > 0 {
        lemma_coins_split(body, coins.drop_last());
    }
}

/// Collects the coins that the body touches: each of them leaves the level
/// and adds one point to the score. Returns the places that the collected
/// coins had in the list.
pub fn coin_player_collide(body: &Body, coins: &mut Vec<CoinComponent>, score: &mut Score) -> (collected:
    Vec<usize>)
    ensures
        collected@ == coins_touched(body@, old(coins).deep_view()),
        final(coins).deep_view() == coins_left(body@, old(coins).deep_view()),
        final(score).current == raised(old(score).current, collected@.len() as int),
        final(score).needed == old(score).needed,
{
    let mut left: Vec<CoinComponent> = Vec::new();
    let mut collected: Vec<usize> = Vec::new();
    let mut i: usize = 0;
    let ghost models = coins.deep_view();
    proof {
        reveal(Seq::filter);
        assert(left.deep_view() =~= coins_left(body@, models.take(0)));
    }
    while i < coins.len()
        invariant
            i <= coins.len(),
            *coins == *old(coins),
            models == coins.deep_view(),
            left.deep_view() == coins_left(body@, models.take(i as int)),
            collected@ == coins_touched(body@, models.take(i as int)),
            score.current == raised(old(score).current, collected@.len() as int),
            score.needed == old(score).needed,
        decreases coins.len() - i,
    {
        let coin = coins[i];
        let ghost before = left.deep_view();
        proof {
            reveal(Seq::filter);
            assert(models.take(i + 1).drop_last() =~= models.take(i as int));
            assert(models.take(i + 1).last() == coin@);
        }
        if collide(body.position, body.size.0, coin.position, coin.size.0) {
            collected.push(i);
            if score.current < usize::MAX {
                score.current = score.current + 1;
            }
        } else {
            left.push(coin);
            assert(left.deep_view() =~= before.push(coin@));
        }
        i += 1;
    }
    assert(models.take(coins.len() as int) =~= models);
    *coins = left;
    collected
}

/// Whether the body wins the level at a door: it touches the door while the
/// score has reached what the level asks for.
pub open spec fn wins_at(body: BodyState, door: Rectangle, score: Score) -> bool {
    touches(body, door) && score.current >= score.needed
}

/// The score after the doors have been tried one by one. A win takes the
/// collected coins away, so that the doors behind it are tried with none.
pub open spec fn score_after_doors(body: BodyState, doors: Seq<Rectangle>, score: Score) -> Score {
    doors.fold_left(
        score,
        |before: Score, door: Rectangle|
            if wins_at(body, door, before) {
                Score { current: 0, needed: before.needed }
            } else {
                before
            },
    )
}

/// The points of each win that trying the doors one by one brings, in the
/// order of the doors.
pub open spec fn wins_at_doors(body: BodyState, doors: Seq<Rectangle>, score: Score) -> Seq<usize>
    decreases doors.len(),
{
    if doors.len() == 0 {
        seq![]
    } else {
        let before = score_after_doors(body, doors.drop_last(), score);
        let earlier = wins_at_doors(body, doors.drop_last(), score);
        if wins_at(body, doors.last(), before) {
            earlier.push(before.current)
        } else {
            earlier
        }
    }
}

/// Whether `won` is what a win with `points` points at time `time` sets off
/// in the run `run`: the load of the run's next level, or the display of the
/// score where the run has no further level.
pub open spec fn announces(won: LevelWon, run: RunData, points: usize, time: i64) -> bool {
    match run.next {
        NextLevel::Next(number) => won matches LevelWon::Next(load) && load.path@
            == level_path_text(run.path@, number),
        NextLevel::Finish => won == LevelWon::Finished(SpawnScoreMenuEvent { points, time }),
    }
}

/// Tries every door: where the body touches one and the score suffices, the
/// level is won and the score starts again from zero.
pub fn door_player_collide(
    body: &Body,
    doors: &Vec<DoorComponent>,
    score: &mut Score,
    run: &RunData,
    game_time: i64,
) -> (won: Vec<LevelWon>)
    ensures
        *final(score) == score_after_doors(body@, doors.deep_view(), *old(score)),
        won@.len() == wins_at_doors(body@, doors.deep_view(), *old(score)).len(),
        forall|i: int|
            0 <= i < won@.len() ==> announces(
                #[trigger] won@[i],
                *run,
                wins_at_doors(body@, doors.deep_view(), *old(score))[i],
                game_time,
            ),
{
    let mut won: Vec<LevelWon> = Vec::new();
    let mut i: usize = 0;
    let ghost models = doors.deep_view();
    while i < doors.len()
        invariant
            i <= doors.len(),
            models == doors.deep_view(),
            *score == score_after_doors(body@, models.take(i as int), *old(score)),
            won@.len() == wins_at_doors(body@, models.take(i as int), *old(score)).len(),
            forall|k: int|
                0 <= k < won@.len() ==> announces(
                    #[trigger] won@[k],
                    *run,
                    wins_at_doors(body@, models.take(i as int), *old(score))[k],
                    game_time,
                ),
        decreases doors.len() - i,
    {
        let door = doors[i];
        proof {
            assert(models.take(i + 1).drop_last() =~= models.take(i as int));
            assert(models.take(i + 1).last() == door@);
        }
        if collide(body.position, body.size.0, door.position, door.size.0) && score.current
            >= score.needed {
            let event = match run.next {
                NextLevel::Next(number) => LevelWon::Next(
                    LoadLevelEvent { path: level_path(run.path.as_str(), number) },
                ),
                NextLevel::Finish => LevelWon::Finished(
                    SpawnScoreMenuEvent { points: score.current, time: game_time },
                ),
            };
            won.push(event);
            score.current = 0;
        }
        i += 1;
    }
    assert(models.take(doors.len() as int) =~= models);
    won
}

/// A door wins the level exactly when the body touches it with a score that
/// suffices; a win leaves no collected coin, and without a win the score
/// stays as it is.
pub proof fn lemma_one_door(body: BodyState, door: Rectangle, score: Score)
    ensures
        wins_at(body, door, score) ==> score_after_doors(body, seq![door], score) == (Score {
            current: 0,
            needed: score.needed,
        }) && wins_at_doors(body, seq![door], score) == seq![score.current],
        !wins_at(body, door, score) ==> score_after_doors(body, seq![door], score) == score
            && wins_at_doors(body, seq![door], score).len() == 0,
{
    let doors = seq![door];
    assert(doors.drop_last() =~= Seq::<Rectangle>::empty());
    assert(doors.last() == door);
    assert(score_after_doors(body, doors.drop_last(), score) == score);
    assert(wins_at_doors(body, doors.drop_last(), score) =~= Seq::<usize>::empty());
    if wins_at(body, door, score) {
        assert(wins_at_doors(body, doors, score) =~= seq![score.current]);
    }
}

/// The two obstacles of the level for trying things out: a floor and a
/// ledge above its middle.
pub open spec fn test_level() -> Seq<Rectangle> {
    seq![
        Rectangle {
            position: Vector { x: 350 * SCALE, y: 50 * SCALE },
            size: Vector { x: 600 * SCALE, y: 50 * SCALE },
        },
        Rectangle {
            position: Vector { x: 350 * SCALE, y: 100 * SCALE },
            size: Vector { x: 100 * SCALE, y: 10 * SCALE },
        },
    ]
}

/// Builds the obstacles of the level for trying things out.
pub fn spawn_test_level() -> (obstacles: Vec<ObstacleComponent>)
    ensures
        obstacles.deep_view() == test_level(),
{
    let mut obstacles: Vec<ObstacleComponent> = Vec::new();
    obstacles.push(
        ObstacleComponent {
            position: Vec2 { x: 350000, y: 50000 },
            size: Size(Vec2 { x: 600000, y: 50000 }),
        },
    );
    obstacles.push(
        ObstacleComponent {
            position: Vec2 { x: 350000, y: 100000 },
            size: Size(Vec2 { x: 100000, y: 10000 }),
        },
    );
    assert(obstacles.deep_view() =~= test_level());
    obstacles
}

/// What a frame did to the objects of a level.
#[derive(Clone, Debug, PartialEq, Eq)]
pub struct FrameOutcome {
    /// The places that the collected coins had in the level's list of coins.
    pub collected: Vec<usize>,
    /// What the wins of this frame set off, in the order of the doors.
    pub won: Vec<LevelWon>,
}

/// The rules for the objects of a level.
#[derive(Clone, Copy, Debug, Default, PartialEq, Eq, Structural)]
pub struct GameObjectsPlugin;

impl GameObjectsPlugin {
    /// Runs the rules for coins and doors for one frame, coins first. Outside
    /// a running game nothing happens.
    pub fn update(
        app: AppState,
        simulation: SimulationState,
        body: &Body,
        level: &mut Level,
        score: &mut Score,
        run: &RunData,
        game_time: i64,
    ) -> (outcome: FrameOutcome)
        ensures
            final(level).obstacles == old(level).obstacles,
            final(level).doors == old(level).doors,
            !playing(app, simulation) ==> {
                &&& *final(level) == *old(level)
                &&& *final(score) == *old(score)
                &&& outcome.collected@.len() == 0
                &&& outcome.won@.len() == 0
            },
            playing(app, simulation) ==> {
                let with_coins = Score {
                    current: raised(old(score).current, outcome.collected@.len() as int),
                    needed: old(score).needed,
                };
                &&& outcome.collected@ == coins_touched(body@, old(level)@.coins)
                &&& final(level)@.coins == coins_left(body@, old(level)@.coins)
                &&& *final(score) == score_after_doors(body@, old(level)@.doors, with_coins)
                &&& outcome.won@.len() == wins_at_doors(body@, old(level)@.doors, with_coins).len()
                &&& forall|i: int|
                    0 <= i < outcome.won@.len() ==> announces(
                        #[trigger] outcome.won@[i],
                        *run,
                        wins_at_doors(body@, old(level)@.doors, with_coins)[i],
                        game_time,
                    )
            },
    {
        if !is_playing(app, simulation) {
            return FrameOutcome { collected: Vec::new(), won: Vec::new() };
        }
        let collected = coin_player_collide(body, &mut level.coins, score);
        let won = door_player_collide(body, &level.doors, score, run, game_time);
        FrameOutcome { collected, won }
    }
}

} // verus!
