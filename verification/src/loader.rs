//! Level files: their lines, the objects they describe and where those go.

use vstd::prelude::*;
use vstd::string::StringSliceAdditionalSpecFns;
use crate::fixed::{clamp, div_toward_zero, saturate, trunc_div, SCALE};
use crate::game::Size;
use crate::math::{Vec2, Vector};
use crate::objects::{
    CoinComponent, DoorComponent, Level, LevelState, ObstacleComponent, Rectangle, Score,
};
use crate::player::{Body, BodyState};
use crate::text::{
    decimal_text, is_decimal, lines, parse_decimal, parsed_decimal, push_decimal,
    split_ascii_whitespace, split_lines, tokens,
};

verus! {

/// Radius of a coin.
pub const COIN_SIZE: i64 = 20000;

/// Side of the player's square.
pub const PLAYER_SIZE: i64 = 50000;

/// Ratio between the units of a level file and those of the game.
pub const LEGACY_SCALE: i64 = 2000;

/// Height, in the game's units, of the top edge of a level file's picture.
pub const LEGACY_HEIGHT: i64 = 960000;

/// Directory under which the levels of all runs lie.
pub const PATH_LEVELS: &'static str = "./assets/levels/";

/// A request to load the level file at `path`.
#[derive(Clone, Debug, PartialEq, Eq)]
pub struct LoadLevelEvent {
    pub path: String,
}

/// A request to start the run whose levels lie under `path`.
#[derive(Clone, Debug, PartialEq, Eq)]
pub struct LoadRunEvent {
    pub path: String,
}

/// Where a run goes on after the current level is won.
#[derive(Clone, Copy, Debug, PartialEq, Eq, Structural)]
pub enum NextLevel {
    /// The level with this number follows.
    Next(usize),
    /// The run is over.
    Finish,
}

/// The run that is being played.
#[derive(Clone, Debug, PartialEq, Eq)]
pub struct RunData {
    /// Directory of the run's levels.
    pub path: String,
    pub next: NextLevel,
}

/// Where a run goes on once the level with the number `loaded` is in play:
/// to the level with the next number, if the run has a file for it.
pub open spec fn following(loaded: usize, exists: bool) -> NextLevel {
    if exists && loaded < usize::MAX {
        NextLevel::Next((loaded + 1) as usize)
    } else {
        NextLevel::Finish
    }
}

impl RunData {
    /// The run under `path` with its first level, number zero, in play.
    /// `second_exists` tells whether the run has a file for level one.
    pub fn start(path: String, second_exists: bool) -> (run: RunData)
        ensures
            run.path == path,
            run.next == following(0, second_exists),
    {
        let next = if second_exists {
            NextLevel::Next(1)
        } else {
            NextLevel::Finish
        };
        RunData { path, next }
    }

    /// Moves the run on after its next level has come into play.
    /// `following_exists` tells whether the run has a file for the level
    /// behind that one. A run that is over stays over.
    pub fn advance(&mut self, following_exists: bool)
        ensures
            final(self).path == old(self).path,
            final(self).next == (match old(self).next {
                NextLevel::Next(loaded) => following(loaded, following_exists),
                NextLevel::Finish => NextLevel::Finish,
            }),
    {
        match self.next {
            NextLevel::Next(loaded) => {
                if following_exists && loaded < usize::MAX {
                    self.next = NextLevel::Next(loaded + 1);
                } else {
                    self.next = NextLevel::Finish;
                }
            },
            NextLevel::Finish => {},
        }
    }
}

/// One object of a level, as its file describes it.
#[derive(Clone, Copy, Debug, PartialEq, Eq)]
pub enum LevelObject {
    /// Centre and size of an obstacle.
    Obstacle((Vec2, Vec2)),
    /// Centre of a coin.
    Coin(Vec2),
    /// Centre and size of a door.
    Door(Vec2, Vec2),
    /// Centre of the player's body.
    PlayerPos(Vec2),
}

/// What a line of a level file places: what a `LevelObject` stands for.
pub enum Placement {
    Obstacle(Rectangle),
    Coin(Vector),
    Door(Rectangle),
    PlayerPos(Vector),
}

impl View for LevelObject {
    type V = Placement;

    open spec fn view(&self) -> Placement {
        match *self {
            LevelObject::Obstacle((position, size)) => Placement::Obstacle(
                Rectangle { position: position@, size: size@ },
            ),
            LevelObject::Coin(position) => Placement::Coin(position@),
            LevelObject::Door(position, size) => Placement::Door(
                Rectangle { position: position@, size: size@ },
            ),
            LevelObject::PlayerPos(position) => Placement::PlayerPos(position@),
        }
    }
}

impl DeepView for LevelObject {
    type V = Placement;

    open spec fn deep_view(&self) -> Placement {
        self@
    }
}

impl Default for LevelObject {
    fn default() -> (object: LevelObject)
        ensures
            object@ == Placement::Obstacle(
                Rectangle { position: Vector { x: 0, y: 0 }, size: Vector { x: 0, y: 0 } },
            ),
    {
        LevelObject::Obstacle((Vec2 { x: 0, y: 0 }, Vec2 { x: 0, y: 0 }))
    }
}

/// Why a line of a level file gave no object.
#[derive(Clone, Copy, Debug, PartialEq, Eq, Structural)]
pub enum Skipped {
    /// The line holds no word.
    Blank,
    /// The line sets a size that is fixed nowadays.
    Redundant,
    /// The first word of the line with this number names no kind of object.
    WrongIdentifier(usize),
    /// The line with this number lacks an argument, or one of its arguments
    /// is no number.
    WrongArguments(usize),
}

/// Where the game puts an object that a level file places at `pos` with
/// extent `size`.
///
/// A file gives the corner of an object nearest to its origin, counts
/// downward from the top, and uses units `LEGACY_SCALE` times as large as
/// the game's. The game wants the centre, counted upward from the bottom.
pub open spec fn aligned(pos: Vector, size: Vector) -> Vector {
    Vector {
        x: saturate(trunc_div(LEGACY_SCALE * (2 * pos.x + size.x), 2 * SCALE)),
        y: saturate(LEGACY_HEIGHT - trunc_div(LEGACY_SCALE * (2 * pos.y + size.y), 2 * SCALE)),
    }
}

/// With the scale of two that level files have, an object lands at twice
/// its corner plus its extent, counted from the left and from the top.
pub proof fn lemma_aligned(pos: Vector, size: Vector)
    ensures
        aligned(pos, size).x == saturate(2 * pos.x + size.x),
        aligned(pos, size).y == saturate(LEGACY_HEIGHT - (2 * pos.y + size.y)),
{
}

/// Twice a size.
pub open spec fn doubled(size: Vector) -> Vector {
    Vector { x: saturate(2 * size.x), y: saturate(2 * size.y) }
}

/// Turns a place of a level file into the place of the object's centre in
/// the game.
pub fn fix_aligment(pos: Vec2, size: Vec2) -> (placed: Vec2)
    ensures
        placed@ == aligned(pos@, size@),
{
    let scale: i128 = LEGACY_SCALE as i128;
    let unit: i128 = SCALE as i128;
    assert(scale == 2000 && unit == 1000);
    let across: i128 = div_toward_zero(scale * (2 * (pos.x as i128) + size.x as i128), 2 * unit);
    let down: i128 = div_toward_zero(scale * (2 * (pos.y as i128) + size.y as i128), 2 * unit);
    Vec2 { x: clamp(across), y: clamp(LEGACY_HEIGHT as i128 - down) }
}

fn twice(size: Vec2) -> (r: Vec2)
    ensures
        r@ == doubled(size@),
{
    Vec2 { x: clamp(2 * (size.x as i128)), y: clamp(2 * (size.y as i128)) }
}

/// Whether the words of a line hold numbers at the places `1` to `count`.
pub open spec fn has_arguments(words: Seq<Seq<u8>>, count: int) -> bool {
    &&& words.len() > count
    &&& forall|i: int| 1 <= i <= count ==> is_decimal(#[trigger] words[i])
}

/// The pair of numbers that starts at place `at` of a line's words.
pub open spec fn pair_at(words: Seq<Seq<u8>>, at: int) -> Vector {
    Vector {
        x: parsed_decimal(words[at]).unwrap() as int,
        y: parsed_decimal(words[at + 1]).unwrap() as int,
    }
}

/// The extent that a coin has in a level file.
pub open spec fn coin_extent() -> Vector {
    Vector { x: COIN_SIZE as int, y: COIN_SIZE as int }
}

/// The extent that the player has in a level file.
pub open spec fn player_extent() -> Vector {
    Vector { x: PLAYER_SIZE as int, y: PLAYER_SIZE as int }
}

/// What a line of a level file describes.
///
/// The first word names the kind of object; the numbers behind it give a
/// place and, for obstacles and doors, an extent. Words behind the last
/// number that a kind needs are ignored.
pub open spec fn parsed_line(text: Seq<u8>, number: usize) -> Result<Placement, Skipped> {
    let words = tokens(text);
    if words.len() == 0 {
        Err(Skipped::Blank)
    } else if words[0] == "BARRIER".spec_bytes() || words[0] == "OBSTACLE".spec_bytes() {
        if has_arguments(words, 4) {
            Ok(
                Placement::Obstacle(
                    Rectangle {
                        position: aligned(pair_at(words, 1), pair_at(words, 3)),
                        size: doubled(pair_at(words, 3)),
                    },
                ),
            )
        } else {
            Err(Skipped::WrongArguments(number))
        }
    } else if words[0] == "COIN".spec_bytes() {
        if has_arguments(words, 2) {
            Ok(Placement::Coin(aligned(pair_at(words, 1), coin_extent())))
        } else {
            Err(Skipped::WrongArguments(number))
        }
    } else if words[0] == "DOOR".spec_bytes() {
        if has_arguments(words, 4) {
            Ok(
                Placement::Door(
                    Rectangle {
                        position: aligned(pair_at(words, 1), pair_at(words, 3)),
                        size: doubled(pair_at(words, 3)),
                    },
                ),
            )
        } else {
            Err(Skipped::WrongArguments(number))
        }
    } else if words[0] == "PLAYER_POS".spec_bytes() {
        if has_arguments(words, 2) {
            Ok(Placement::PlayerPos(aligned(pair_at(words, 1), player_extent())))
        } else {
            Err(Skipped::WrongArguments(number))
        }
    } else if words[0] == "PLAYER_SIZE".spec_bytes() || words[0] == "COIN_SIZE".spec_bytes() {
        Err(Skipped::Redundant)
    } else {
        Err(Skipped::WrongIdentifier(number))
    }
}

/// What reading a line gave, as the rules see it.
pub open spec fn seen(r: Result<LevelObject, Skipped>) -> Result<Placement, Skipped> {
    match r {
        Ok(object) => Ok(object@),
        Err(reason) => Err(reason),
    }
}

fn same_bytes(a: &[u8], b: &[u8]) -> (same: bool)
    ensures
        same == (a@ == b@),
{
    if a.len() != b.len() {
        return false;
    }
    let mut i: usize = 0;
    while i < a.len()
        invariant
            i <= a.len(),
            a@.len() == b@.len(),
            forall|k: int| 0 <= k < i ==> a@[k] == b@[k],
        decreases a.len() - i,
    {
        if a[i] != b[i] {
            return false;
        }
        i += 1;
    }
    assert(a@ =~= b@);
    true
}

fn read_pair(words: &Vec<&[u8]>, at: usize) -> (pair: Option<Vec2>)
    requires
        at + 1 < words@.len(),
    ensures
        pair is Some <==> is_decimal(words@[at as int]@) && is_decimal(words@[at + 1]@),
        pair matches Some(v) ==> v.x == parsed_decimal(words@[at as int]@).unwrap() && v.y
            == parsed_decimal(words@[at + 1]@).unwrap(),
{
    let count: usize = words.len();
    assert(at + 1 < count);
    match parse_decimal(words[at]) {
        Some(x) => match parse_decimal(words[at + 1]) {
            Some(y) => Some(Vec2 { x, y }),
            None => None,
        },
        None => None,
    }
}

/// Reads one line of a level file. `number` is the line's place in the
/// file, counted from zero.
pub fn parse_line(text: &[u8], number: usize) -> (r: Result<LevelObject, Skipped>)
    ensures
        seen(r) == parsed_line(text@, number),
{
    let words = split_ascii_whitespace(text);
    let ghost model = tokens(text@);
    if words.len() == 0 {
        return Err(Skipped::Blank);
    }
    let kind: &[u8] = words[0];
    assert(kind@ == model[0]);
    if same_bytes(kind, "BARRIER".as_bytes()) || same_bytes(kind, "OBSTACLE".as_bytes()) {
        if words.len() < 5 {
            return Err(Skipped::WrongArguments(number));
        }
        match (read_pair(&words, 1), read_pair(&words, 3)) {
            (Some(pos), Some(size)) => Ok(
                LevelObject::Obstacle((fix_aligment(pos, size), twice(size))),
            ),
            _ => {
                assert(!has_arguments(model, 4)) by {
                    assert(words@[1]@ == model[1]);
                    assert(words@[2]@ == model[2]);
                    assert(words@[3]@ == model[3]);
                    assert(words@[4]@ == model[4]);
                }
                Err(Skipped::WrongArguments(number))
            },
        }
    } else if same_bytes(kind, "COIN".as_bytes()) {
        if words.len() < 3 {
            return Err(Skipped::WrongArguments(number));
        }
        match read_pair(&words, 1) {
            Some(pos) => Ok(
                LevelObject::Coin(fix_aligment(pos, Vec2 { x: COIN_SIZE, y: COIN_SIZE })),
            ),
            None => {
                assert(!has_arguments(model, 2)) by {
                    assert(words@[1]@ == model[1]);
                    assert(words@[2]@ == model[2]);
                }
                Err(Skipped::WrongArguments(number))
            },
        }
    } else if same_bytes(kind, "DOOR".as_bytes()) {
        if words.len() < 5 {
            return Err(Skipped::WrongArguments(number));
        }
        match (read_pair(&words, 1), read_pair(&words, 3)) {
            (Some(pos), Some(size)) => Ok(LevelObject::Door(fix_aligment(pos, size), twice(size))),
            _ => {
                assert(!has_arguments(model, 4)) by {
                    assert(words@[1]@ == model[1]);
                    assert(words@[2]@ == model[2]);
                    assert(words@[3]@ == model[3]);
                    assert(words@[4]@ == model[4]);
                }
                Err(Skipped::WrongArguments(number))
            },
        }
    } else if same_bytes(kind, "PLAYER_POS".as_bytes()) {
        if words.len() < 3 {
            return Err(Skipped::WrongArguments(number));
        }
        match read_pair(&words, 1) {
            Some(pos) => Ok(
                LevelObject::PlayerPos(
                    fix_aligment(pos, Vec2 { x: PLAYER_SIZE, y: PLAYER_SIZE }),
                ),
            ),
            None => {
                assert(!has_arguments(model, 2)) by {
                    assert(words@[1]@ == model[1]);
                    assert(words@[2]@ == model[2]);
                }
                Err(Skipped::WrongArguments(number))
            },
        }
    } else if same_bytes(kind, "PLAYER_SIZE".as_bytes()) || same_bytes(
        kind,
        "COIN_SIZE".as_bytes(),
    ) {
        Err(Skipped::Redundant)
    } else {
        Err(Skipped::WrongIdentifier(number))
    }
}

/// The path of the level with the given number in the run under `base`:
/// the two joined by a slash.
pub open spec fn level_path_text(base: Seq<char>, number: usize) -> Seq<char> {
    base + seq!['/'] + decimal_text(number as nat)
}

/// Builds the path of a level of a run.
pub fn level_path(base: &str, number: usize) -> (path: String)
    ensures
        path@ == level_path_text(base@, number),
{
    let mut path = base.to_owned();
    proof {
        reveal_strlit("/");
    }
    path.append("/");
    push_decimal(&mut path, number as u64);
    assert(path@ =~= level_path_text(base@, number));
    path
}

/// What the lines of a level file describe, line by line. A file of fewer
/// than two lines counts as unreadable and describes nothing.
pub open spec fn line_results(text: Seq<u8>) -> Seq<Result<Placement, Skipped>> {
    let rows = lines(text);
    if rows.len() > 1 {
        Seq::new(rows.len(), |i: int| parsed_line(rows[i], i as usize))
    } else {
        seq![]
    }
}

/// The objects among the results of a file's lines, in the order of the
/// lines.
pub open spec fn objects_of(results: Seq<Result<Placement, Skipped>>) -> Seq<Placement> {
    results.filter_map(
        |r: Result<Placement, Skipped>|
            match r {
                Ok(object) => Some(object),
                Err(_) => None,
            },
    )
}

/// The reasons for which lines gave no object, in the order of the lines.
pub open spec fn skips_of(results: Seq<Result<Placement, Skipped>>) -> Seq<Skipped> {
    results.filter_map(
        |r: Result<Placement, Skipped>|
            match r {
                Ok(_) => None,
                Err(skipped) => Some(skipped),
            },
    )
}

/// The objects that the text of a level file describes.
pub open spec fn described(text: Seq<u8>) -> Seq<Placement> {
    objects_of(line_results(text))
}

/// Every line of a file gives either an object or a reason.
pub proof fn lemma_every_line_counts(results: Seq<Result<Placement, Skipped>>)
    ensures
        objects_of(results).len() + skips_of(results).len() == results.len(),
    decreases results.len(),
{
    if results.len() > 0 {
        lemma_every_line_counts(results.drop_last());
    }
}

/// What a level file holds.
#[derive(Clone, Debug, PartialEq, Eq)]
pub struct LevelFile {
    /// The objects that the file describes, in the order of its lines.
    pub objects: Vec<LevelObject>,
    /// Why each of the other lines gave no object, in the order of the lines.
    pub skipped: Vec<Skipped>,
    /// Whether the file had the two lines that make it readable.
    pub readable: bool,
}

/// Reads the text of a level file into the objects that it describes.
pub fn load_level_data(text: &[u8]) -> (file: LevelFile)
    ensures
        file.objects.deep_view() == described(text@),
        file.skipped@ == skips_of(line_results(text@)),
        file.readable == (lines(text@).len() > 1),
{
    let rows = split_lines(text);
    let mut objects: Vec<LevelObject> = Vec::new();
    let mut skipped: Vec<Skipped> = Vec::new();
    let readable = rows.len() > 1;
    let ghost results = line_results(text@);
    assert(objects.deep_view() =~= Seq::<Placement>::empty());
    if readable {
        let mut n: usize = 0;
        assert(results.take(0) =~= Seq::<Result<Placement, Skipped>>::empty());
        while n < rows.len()
            invariant
                n <= rows.len(),
                rows@.len() == lines(text@).len(),
                rows@.len() > 1,
                results == line_results(text@),
                forall|i: int| 0 <= i < rows@.len() ==> (#[trigger] rows@[i])@ == lines(text@)[i],
                objects.deep_view() == objects_of(results.take(n as int)),
                skipped@ == skips_of(results.take(n as int)),
            decreases rows.len() - n,
        {
            let ghost before = objects.deep_view();
            proof {
                assert(results.take(n + 1).drop_last() =~= results.take(n as int));
                assert(results.take(n + 1).last() == parsed_line(rows@[n as int]@, n));
            }
            match parse_line(rows[n], n) {
                Ok(object) => {
                    objects.push(object);
                    assert(objects.deep_view() =~= before + seq![object@]);
                },
                Err(reason) => {
                    skipped.push(reason);
                },
            }
            n += 1;
        }
        assert(results.take(rows.len() as int) =~= results);
    }
    LevelFile { objects, skipped, readable }
}

/// The obstacles among the objects of a level, in their order.
pub open spec fn obstacles_in(objects: Seq<Placement>) -> Seq<Rectangle> {
    objects.filter_map(
        |object: Placement|
            match object {
                Placement::Obstacle(rectangle) => Some(rectangle),
                _ => None,
            },
    )
}

/// The coins among the objects of a level, in their order. Every coin is as
/// wide and as high as twice `COIN_SIZE`.
pub open spec fn coins_in(objects: Seq<Placement>) -> Seq<Rectangle> {
    objects.filter_map(
        |object: Placement|
            match object {
                Placement::Coin(position) => Some(
                    Rectangle { position, size: Vector { x: 2 * COIN_SIZE, y: 2 * COIN_SIZE } },
                ),
                _ => None,
            },
    )
}

/// The doors among the objects of a level, in their order.
pub open spec fn doors_in(objects: Seq<Placement>) -> Seq<Rectangle> {
    objects.filter_map(
        |object: Placement|
            match object {
                Placement::Door(rectangle) => Some(rectangle),
                _ => None,
            },
    )
}

/// The level that is made of the given objects.
pub open spec fn level_of(objects: Seq<Placement>) -> LevelState {
    LevelState {
        obstacles: obstacles_in(objects),
        coins: coins_in(objects),
        doors: doors_in(objects),
    }
}

/// The body after the objects of a level have been spawned: every place for
/// the player, in turn, puts the body there and brings it to rest.
pub open spec fn placed(body: BodyState, objects: Seq<Placement>) -> BodyState {
    objects.fold_left(
        body,
        |before: BodyState, object: Placement|
            match object {
                Placement::PlayerPos(position) => BodyState {
                    position,
                    speed: Vector { x: 0, y: 0 },
                    ..before
                },
                _ => before,
            },
    )
}

/// A level as it comes out of its file.
#[derive(Clone, Debug, PartialEq, Eq)]
pub struct SpawnedLevel {
    pub level: Level,
    /// How many coins the level holds.
    pub coin_count: usize,
    /// Why lines of the file gave no object, in the order of the lines.
    pub skipped: Vec<Skipped>,
    /// Whether the file had the two lines that make it readable.
    pub readable: bool,
}

/// Builds the level that the text of a level file describes, and puts the
/// player's body where the file wants it.
pub fn spawn_level(text: &[u8], body: &mut Body) -> (spawned: SpawnedLevel)
    ensures
        spawned.level@ == level_of(described(text@)),
        spawned.coin_count == coins_in(described(text@)).len(),
        spawned.skipped@ == skips_of(line_results(text@)),
        spawned.readable == (lines(text@).len() > 1),
        final(body)@ == placed(old(body)@, described(text@)),
{
    let file = load_level_data(text);
    let mut obstacles: Vec<ObstacleComponent> = Vec::new();
    let mut coins: Vec<CoinComponent> = Vec::new();
    let mut doors: Vec<DoorComponent> = Vec::new();
    let mut n: usize = 0;
    let ghost objects = file.objects.deep_view();
    proof {
        assert(objects.take(0) =~= Seq::<Placement>::empty());
        assert(obstacles.deep_view() =~= obstacles_in(objects.take(0)));
        assert(coins.deep_view() =~= coins_in(objects.take(0)));
        assert(doors.deep_view() =~= doors_in(objects.take(0)));
    }
    while n < file.objects.len()
        invariant
            n <= file.objects.len(),
            objects == file.objects.deep_view(),
            obstacles.deep_view() == obstacles_in(objects.take(n as int)),
            coins.deep_view() == coins_in(objects.take(n as int)),
            doors.deep_view() == doors_in(objects.take(n as int)),
            body@ == placed(old(body)@, objects.take(n as int)),
        decreases file.objects.len() - n,
    {
        let ghost obstacles_before = obstacles.deep_view();
        let ghost coins_before = coins.deep_view();
        let ghost doors_before = doors.deep_view();
        proof {
            assert(objects.take(n + 1).drop_last() =~= objects.take(n as int));
            assert(objects.take(n + 1).last() == file.objects@[n as int]@);
        }
        match file.objects[n] {
            LevelObject::Obstacle((position, size)) => {
                let obstacle = ObstacleComponent { position, size: Size(size) };
                obstacles.push(obstacle);
                assert(obstacles.deep_view() =~= obstacles_before + seq![obstacle@]);
            },
            LevelObject::Coin(position) => {
                let coin = CoinComponent {
                    position,
                    size: Size(Vec2 { x: 2 * COIN_SIZE, y: 2 * COIN_SIZE }),
                };
                coins.push(coin);
                assert(coins.deep_view() =~= coins_before + seq![coin@]);
            },
            LevelObject::Door(position, size) => {
                let door = DoorComponent { position, size: Size(size) };
                doors.push(door);
                assert(doors.deep_view() =~= doors_before + seq![door@]);
            },
            LevelObject::PlayerPos(position) => {
                body.position = position;
                body.speed.0.x = 0;
                body.speed.0.y = 0;
            },
        }
        n += 1;
    }
    assert(objects.take(file.objects.len() as int) =~= objects);
    let coin_count: usize = coins.len();
    SpawnedLevel {
        level: Level { obstacles, coins, doors },
        coin_count,
        skipped: file.skipped,
        readable: file.readable,
    }
}

/// What is to be done about the requests to load a level that came in since
/// the last frame.
#[derive(Clone, Debug, PartialEq, Eq)]
pub struct LoadPlan {
    /// The level that is in play is to be taken away.
    pub despawn: bool,
    /// The file at this path is to be read and its level spawned.
    pub path: Option<String>,
}

/// Decides what the requests to load a level lead to. Only the latest
/// request counts. It takes the level in play away, and its file is loaded
/// if there is a player to put into the level.
pub fn handle_loadlevelevent(
    events: &Vec<LoadLevelEvent>,
    level_exists: bool,
    player_exists: bool,
) -> (plan: LoadPlan)
    ensures
        plan.despawn == (events@.len() > 0 && level_exists),
        plan.path is Some <==> events@.len() > 0 && player_exists,
        plan.path matches Some(path) ==> path@ == events@.last().path@,
{
    if events.len() == 0 {
        return LoadPlan { despawn: false, path: None };
    }
    let path = if player_exists {
        Some(events[events.len() - 1].path.clone())
    } else {
        None
    };
    LoadPlan { despawn: level_exists, path }
}

/// Brings the level of a file into play: spawns it, puts the player's body
/// in place and lets the door ask for every coin of the level.
pub fn load_level(text: &[u8], body: &mut Body, score: &mut Score) -> (spawned: SpawnedLevel)
    ensures
        spawned.level@ == level_of(described(text@)),
        spawned.coin_count == coins_in(described(text@)).len(),
        spawned.skipped@ == skips_of(line_results(text@)),
        spawned.readable == (lines(text@).len() > 1),
        final(body)@ == placed(old(body)@, described(text@)),
        final(score).needed == coins_in(described(text@)).len(),
        final(score).current == old(score).current,
{
    let spawned = spawn_level(text, body);
    score.needed = spawned.coin_count;
    spawned
}

/// The path of the level that a game starts with.
pub open spec fn first_level_path() -> Seq<char> {
    "./assets/levels/og4/0"@
}

/// Asks for the level that a game starts with.
pub fn test_loading() -> (event: LoadLevelEvent)
    ensures
        event.path@ == first_level_path(),
{
    LoadLevelEvent { path: "./assets/levels/og4/0".to_owned() }
}

/// What can be wrong with the description of a level directory.
#[derive(Clone, Copy, Debug, PartialEq, Eq, Structural)]
pub enum InfoError {
    /// The description has no line.
    Empty,
    /// The first line has no word.
    NoMarker,
    /// The first line has no second word, which would be the name.
    NoName,
}

/// What a level directory says of itself.
#[derive(Clone, Debug, PartialEq, Eq)]
pub struct LevelData {
    /// Name of the levels, as bytes of text.
    pub name: Vec<u8>,
    pub author: u64,
    pub amount: u8,
}

/// The name that the description of a level directory gives: the second
/// word of its first line.
pub open spec fn name_in(info: Seq<u8>) -> Result<Seq<u8>, InfoError> {
    let rows = lines(info);
    if rows.len() == 0 {
        Err(InfoError::Empty)
    } else if tokens(rows[0]).len() == 0 {
        Err(InfoError::NoMarker)
    } else if tokens(rows[0]).len() == 1 {
        Err(InfoError::NoName)
    } else {
        Ok(tokens(rows[0])[1])
    }
}

fn copy_bytes(bytes: &[u8]) -> (copy: Vec<u8>)
    ensures
        copy@ == bytes@,
{
    let mut copy: Vec<u8> = Vec::new();
    let mut i: usize = 0;
    while i < bytes.len()
        invariant
            i <= bytes.len(),
            copy@ == bytes@.take(i as int),
        decreases bytes.len() - i,
    {
        copy.push(bytes[i]);
        assert(bytes@.take(i + 1) =~= bytes@.take(i as int).push(bytes@[i as int]));
        i += 1;
    }
    assert(bytes@.take(bytes.len() as int) =~= bytes@);
    copy
}

impl LevelData {
    /// Reads the description of a level directory from the text of its
    /// `info` file. Author and amount are not kept in the file and read as
    /// zero.
    pub fn read_dir(info: &[u8]) -> (r: Result<LevelData, InfoError>)
        ensures
            match r {
                Ok(data) => name_in(info@) == Ok::<Seq<u8>, InfoError>(data.name@) && data.author
                    == 0 && data.amount == 0,
                Err(e) => name_in(info@) == Err::<Seq<u8>, InfoError>(e),
            },
    {
        let rows = split_lines(info);
        if rows.len() == 0 {
            return Err(InfoError::Empty);
        }
        let words = split_ascii_whitespace(rows[0]);
        if words.len() == 0 {
            return Err(InfoError::NoMarker);
        }
        if words.len() == 1 {
            return Err(InfoError::NoName);
        }
        Ok(LevelData { name: copy_bytes(words[1]), author: 0, amount: 0 })
    }
}

} // verus!
