//! The dungeon as the player has opened it up: a stack of levels, the
//! player, and a short log.

use crate::engine::action::Action;
use crate::engine::doors::{
    choose_forward_door, door_seed, forward_door_of, lemma_door_is_off_the_spawn, level_seed,
    stamp, stamped,
};
use crate::engine::floors::{
    collect_floors, find_spawn, floor_cells, is_on_map, lemma_two_floors_are_listed, on_map,
    spawn_of,
};
use crate::engine::entity::{Player, STARTING_HP};
use crate::engine::text::{
    entered_message, entered_text, moved_message, moved_text, returned_message, returned_text,
    seed_message, seed_text,
};
use crate::map::generator::{
    floor_within_margin, generate_rooms_and_corridors, generated, within_margin, MIN_MAP_SIDE,
};
use crate::map::tile::Tile;
use crate::map::{is_floor, TileMap};
use crate::rng::{seeded_rng, seeded_state};
use std::collections::VecDeque;
use vstd::prelude::*;
use vstd::string::*;

verus! {

/// How many lines the log keeps.
pub const LOG_CAP: usize = 6;

/// One floor of the dungeon: its map and where its doors are.
#[derive(Debug)]
pub struct Level {
    pub map: TileMap,
    /// The door that leads one level deeper.
    pub forward_door: (i32, i32),
    /// The door that leads back up; the entry level has none.
    pub back_door: Option<(i32, i32)>,
}

/// A level as contracts see it.
#[verifier::ext_equal]
pub struct LevelView {
    pub grid: Seq<Seq<Tile>>,
    pub forward_door: (i32, i32),
    pub back_door: Option<(i32, i32)>,
}

impl View for Level {
    type V = LevelView;

    open spec fn view(&self) -> LevelView {
        LevelView { grid: self.map@, forward_door: self.forward_door, back_door: self.back_door }
    }
}

impl Clone for Level {
    /// A copy with the same map and the same doors.
    fn clone(&self) -> (copy: Level)
        ensures
            copy@ == self@,
            forall|width: usize, height: usize| self.wf(width, height) ==> copy.wf(width, height),
    {
        Level {
            map: self.map.clone(),
            forward_door: self.forward_door,
            back_door: self.back_door,
        }
    }
}

impl Level {
    /// The map is well formed and `width` by `height`; the forward door
    /// lies on it and is a forward-door tile; the back door, if there is
    /// one, lies on it and is a back-door tile.
    pub open spec fn wf(&self, width: usize, height: usize) -> bool {
        &&& self.map.wf()
        &&& self.map.width == width
        &&& self.map.height == height
        &&& on_map(self.forward_door, width, height)
        &&& self.map@[self.forward_door.1 as int][self.forward_door.0 as int] == Tile::DoorForward
        &&& self.back_door matches Some(door) ==> {
            &&& on_map(door, width, height)
            &&& self.map@[door.1 as int][door.0 as int] == Tile::DoorBack
        }
    }

    /// Checks at run time that the level is well formed for a `width` by
    /// `height` world.
    pub fn is_well_formed(&self, width: usize, height: usize) -> (ok: bool)
        ensures
            ok == self.wf(width, height),
    {
        if !self.map.is_well_formed() || self.map.width != width || self.map.height != height
            || !is_on_map(self.forward_door, width, height) {
            return false;
        }
        if self.map.get(self.forward_door.0 as usize, self.forward_door.1 as usize)
            != Tile::DoorForward {
            return false;
        }
        match self.back_door {
            Some(door) => is_on_map(door, width, height) && self.map.get(
                door.0 as usize,
                door.1 as usize,
            ) == Tile::DoorBack,
            None => true,
        }
    }
}

/// The level that a carved grid becomes: the forward door is stamped on the
/// cell drawn for it, then the back door, if there is one, on its cell.
pub open spec fn furnished(
    grid: Seq<Seq<Tile>>,
    seed: u64,
    back_door_at: Option<(i32, i32)>,
) -> LevelView {
    let door = forward_door_of(floor_cells(grid), spawn_of(grid), seeded_state(door_seed(seed)));
    let with_door = stamped(grid, door, Tile::DoorForward);
    LevelView {
        grid: match back_door_at {
            Some(back) => stamped(with_door, back, Tile::DoorBack),
            None => with_door,
        },
        forward_door: door,
        back_door: back_door_at,
    }
}

/// The carved grid of the level at `depth`, before any door is stamped.
pub open spec fn level_grid(base_seed: u64, depth: usize, width: usize, height: usize) -> Seq<
    Seq<Tile>,
> {
    generated(width, height, level_seed(base_seed, depth)).grid
}

/// The level at `depth` of the dungeon grown from `base_seed`.
pub open spec fn made_level(
    base_seed: u64,
    depth: usize,
    width: usize,
    height: usize,
    back_door_at: Option<(i32, i32)>,
) -> LevelView {
    furnished(
        level_grid(base_seed, depth, width, height),
        level_seed(base_seed, depth),
        back_door_at,
    )
}

/// Where the player enters the level at `depth`.
pub open spec fn level_spawn(base_seed: u64, depth: usize, width: usize, height: usize) -> (
    i32,
    i32,
) {
    spawn_of(level_grid(base_seed, depth, width, height))
}

/// Turns a carved map into a level: finds the spawn point, draws the forward
/// door with a generator seeded from `seed`, and stamps the doors. Returns
/// the level and the spawn point.
pub fn furnish_level(
    map: TileMap,
    seed: u64,
    back_door_at: Option<(i32, i32)>,
) -> (made: (Level, (i32, i32)))
    requires
        map.wf(),
        2 <= map.width <= i32::MAX,
        2 <= map.height <= i32::MAX,
        back_door_at matches Some(back) ==> on_map(back, map.width, map.height),
    ensures
        made.0@ == furnished(map@, seed, back_door_at),
        made.1 == spawn_of(map@),
        on_map(made.1, map.width, map.height),
        on_map(made.0.forward_door, map.width, map.height),
        made.0.map.wf(),
        made.0.map.width == map.width,
        made.0.map.height == map.height,
        back_door_at != Some(made.0.forward_door) ==> made.0.wf(map.width, map.height),
        floor_cells(map@).len() >= 1 ==> is_floor(map@, made.1.0 as int, made.1.1 as int),
        floor_cells(map@).len() >= 2 ==> made.0.forward_door != made.1 && is_floor(
            map@,
            made.0.forward_door.0 as int,
            made.0.forward_door.1 as int,
        ),
{
    let mut map = map;
    let ghost carved = map@;
    let spawn = find_spawn(&map);
    let floors = collect_floors(&map);
    let mut rng = seeded_rng(door_seed(seed));
    let forward_door = choose_forward_door(&floors, spawn, &mut rng);
    proof {
        if floors.len() >= 2 {
            lemma_door_is_off_the_spawn(carved, seeded_state(door_seed(seed)));
        }
    }
    stamp(&mut map, forward_door, Tile::DoorForward);
    match back_door_at {
        Some(back) => {
            stamp(&mut map, back, Tile::DoorBack);
        },
        None => {},
    }
    let level = Level { map, forward_door, back_door: back_door_at };
    assert(level@ =~~= furnished(carved, seed, back_door_at));
    (level, spawn)
}

/// The log after `line` is appended: the newest `LOG_CAP` lines, oldest
/// first.
pub open spec fn log_pushed(lines: Seq<Seq<char>>, line: Seq<char>) -> Seq<Seq<char>> {
    let all = lines.push(line);
    if all.len() > LOG_CAP {
        all.subrange(all.len() - LOG_CAP, all.len() as int)
    } else {
        all
    }
}

/// The lines every log starts with.
pub open spec fn opening_lines(seed: u64) -> Seq<Seq<char>> {
    seq![
        seed_text(seed),
        "Welcome to the dungeon."@,
        "Move with WASD or arrow keys. Press Q to quit."@,
        "Find the white door to go deeper."@,
    ]
}

/// The whole game state.
pub struct World {
    /// The levels entered so far; the last one is where the player is.
    pub levels: Vec<Level>,
    pub player: Player,
    /// The newest lines of the log, oldest first.
    pub logs: VecDeque<String>,
    /// The seed the whole dungeon grows from.
    pub seed: u64,
    /// The width of every level's map.
    pub width: usize,
    /// The height of every level's map.
    pub height: usize,
}

/// The game state as contracts see it.
#[verifier::ext_equal]
pub struct WorldView {
    pub levels: Seq<LevelView>,
    pub player: Player,
    pub lines: Seq<Seq<char>>,
    pub seed: u64,
    pub width: usize,
    pub height: usize,
}

impl View for World {
    type V = WorldView;

    open spec fn view(&self) -> WorldView {
        WorldView {
            levels: Seq::new(self.levels@.len(), |i: int| self.levels@[i]@),
            player: self.player,
            lines: Seq::new(self.logs@.len(), |i: int| self.logs@[i]@),
            seed: self.seed,
            width: self.width,
            height: self.height,
        }
    }
}

/// The state a new game starts in.
pub open spec fn new_world(seed: u64, width: usize, height: usize) -> WorldView {
    let spawn = level_spawn(seed, 0, width, height);
    WorldView {
        levels: seq![made_level(seed, 0, width, height, None)],
        player: Player { x: spawn.0, y: spawn.1, hp: STARTING_HP },
        lines: opening_lines(seed),
        seed,
        width,
        height,
    }
}

impl WorldView {
    /// The grid of the level the player is on.
    pub open spec fn grid(self) -> Seq<Seq<Tile>> {
        self.levels.last().grid
    }

    /// The tile the player stands on.
    pub open spec fn tile_underfoot(self) -> Tile {
        self.grid()[self.player.y as int][self.player.x as int]
    }

    /// The state with `line` appended to the log.
    pub open spec fn with_line(self, line: Seq<char>) -> WorldView {
        WorldView { lines: log_pushed(self.lines, line), ..self }
    }

    /// The state after the player has tried a step by `(dx, dy)`: a step
    /// that is taken is logged, a refused one leaves everything as it was.
    pub open spec fn moved(self, dx: i32, dy: i32) -> WorldView {
        let player = self.player.stepped(dx, dy, self.grid());
        if player.x != self.player.x || player.y != self.player.y {
            WorldView { player, ..self }.with_line(moved_text(player.x, player.y))
        } else {
            WorldView { player, ..self }
        }
    }

    /// The state after descending: a level for the next depth is made and
    /// pushed, its spawn point becomes its back door, and the player stands
    /// on it.
    pub open spec fn entered(self) -> WorldView {
        let depth = self.levels.len() as usize;
        let spawn = level_spawn(self.seed, depth, self.width, self.height);
        let draft = made_level(self.seed, depth, self.width, self.height, Some((0i32, 0i32)));
        let level = LevelView {
            grid: stamped(draft.grid, spawn, Tile::DoorBack),
            forward_door: draft.forward_door,
            back_door: Some(spawn),
        };
        WorldView {
            levels: self.levels.push(level),
            player: Player { x: spawn.0, y: spawn.1, hp: self.player.hp },
            ..self
        }.with_line(entered_text(depth))
    }

    /// The state after climbing back: the current level is dropped and the
    /// player stands on the forward door of the level below it. On the entry
    /// level nothing happens but a line in the log.
    pub open spec fn returned(self) -> WorldView {
        if self.levels.len() <= 1 {
            self.with_line("No previous level to return to."@)
        } else {
            let levels = self.levels.drop_last();
            let door = levels.last().forward_door;
            WorldView {
                levels,
                player: Player { x: door.0, y: door.1, hp: self.player.hp },
                ..self
            }.with_line(returned_text((levels.len() - 1) as usize))
        }
    }

    /// The state after one action. Only a move changes anything: the player
    /// steps if the target allows it, and a door under the player's feet
    /// then takes the player down or back up.
    pub open spec fn applied(self, action: Action) -> WorldView {
        match action {
            Action::Move(dx, dy) => {
                let after = self.moved(dx, dy);
                match after.tile_underfoot() {
                    Tile::DoorForward => after.with_line("You step through the door..."@).entered(),
                    Tile::DoorBack => after.with_line(
                        "You return to the previous area."@,
                    ).returned(),
                    _ => after,
                }
            },
            _ => self,
        }
    }
}

/// Whether the game goes on after `action`: it does unless the player quits.
pub open spec fn keeps_running(action: Action) -> bool {
    !(action is Quit)
}

/// Whether a world can have maps of this size: large enough for the
/// generator to place any room, and small enough for player coordinates and
/// for the tile array.
pub open spec fn playable_size(width: usize, height: usize) -> bool {
    &&& MIN_MAP_SIDE <= width <= i32::MAX
    &&& MIN_MAP_SIDE <= height <= i32::MAX
    &&& width * height <= usize::MAX
}

/// Checks at run time whether a world can have maps of this size.
pub fn is_playable_size(width: usize, height: usize) -> (ok: bool)
    ensures
        ok == playable_size(width, height),
{
    MIN_MAP_SIDE <= width && width <= i32::MAX as usize && MIN_MAP_SIDE <= height && height
        <= i32::MAX as usize && width.checked_mul(height).is_some()
}

impl World {
    /// The map size is playable; there is at least one level, and every
    /// level is well formed; the player stands on the current map; the log
    /// is within its cap.
    pub open spec fn wf(&self) -> bool {
        &&& playable_size(self.width, self.height)
        &&& self.levels.len() >= 1
        &&& forall|i: int|
            0 <= i < self.levels.len() ==> (#[trigger] self.levels[i]).wf(self.width, self.height)
        &&& forall|i: int|
            0 <= i < self.levels.len() ==> ((#[trigger] self.levels[i]).back_door is None <==> i
                == 0)
        &&& self.player.is_on(self.levels@.last().map@)
        &&& self.logs@.len() <= LOG_CAP
    }

    /// Checks at run time that the world is well formed.
    pub fn is_well_formed(&self) -> (ok: bool)
        ensures
            ok == self.wf(),
    {
        if !is_playable_size(self.width, self.height) || self.levels.len() == 0
            || self.logs.len() > LOG_CAP {
            return false;
        }
        let mut i: usize = 0;
        while i < self.levels.len()
            invariant
                i <= self.levels.len(),
                forall|k: int|
                    0 <= k < i ==> (#[trigger] self.levels[k]).wf(self.width, self.height),
                forall|k: int|
                    0 <= k < i ==> ((#[trigger] self.levels[k]).back_door is None <==> k == 0),
            decreases self.levels.len() - i,
        {
            if !self.levels[i].is_well_formed(self.width, self.height) {
                return false;
            }
            if self.levels[i].back_door.is_none() != (i == 0) {
                return false;
            }
            i += 1;
        }
        is_on_map((self.player.x, self.player.y), self.width, self.height)
    }

    /// Makes the level at `depth`: carves its map from the seed of that
    /// depth, then furnishes it. Returns the level and its spawn point.
    pub fn make_level(
        base_seed: u64,
        depth: usize,
        width: usize,
        height: usize,
        back_door_at: Option<(i32, i32)>,
    ) -> (made: (Level, (i32, i32)))
        requires
            playable_size(width, height),
            back_door_at matches Some(back) ==> on_map(back, width, height),
        ensures
            made.0@ == made_level(base_seed, depth, width, height, back_door_at),
            made.1 == level_spawn(base_seed, depth, width, height),
            on_map(made.1, width, height),
            on_map(made.0.forward_door, width, height),
            made.0.map.wf(),
            made.0.map.width == width,
            made.0.map.height == height,
            back_door_at != Some(made.0.forward_door) ==> made.0.wf(width, height),
            made.0.forward_door != made.1,
            is_floor(level_grid(base_seed, depth, width, height), made.1.0 as int, made.1.1 as int),
            is_floor(
                level_grid(base_seed, depth, width, height),
                made.0.forward_door.0 as int,
                made.0.forward_door.1 as int,
            ),
            floor_within_margin(level_grid(base_seed, depth, width, height), width, height),
    {
        let seed = level_seed(base_seed, depth);
        let map = generate_rooms_and_corridors(width, height, seed);
        proof {
            let layout = generated(width, height, seed);
            let room = layout.rooms[0];
            assert(within_margin(room, width, height));
            assert(room.covers(room.x1 as int, room.y1 as int));
            assert(room.covers(room.x1 + 1, room.y1 as int));
            assert(is_floor(layout.grid, room.x1 as int, room.y1 as int));
            assert(is_floor(layout.grid, room.x1 + 1, room.y1 as int));
            lemma_two_floors_are_listed(
                layout.grid,
                (room.x1 as int, room.y1 as int),
                (room.x1 + 1, room.y1 as int),
            );
        }
        furnish_level(map, seed, back_door_at)
    }

    /// A new game: the entry level of the dungeon grown from `seed`, the
    /// player on its spawn point, and the opening lines in the log.
    pub fn new(seed: u64, width: usize, height: usize) -> (world: World)
        requires
            playable_size(width, height),
        ensures
            world.wf(),
            world@ == new_world(seed, width, height),
    {
        let (level0, spawn) = Self::make_level(seed, 0, width, height, None);
        let mut logs: VecDeque<String> = VecDeque::new();
        logs.push_back(seed_message(seed));
        logs.push_back(String::from_str("Welcome to the dungeon."));
        logs.push_back(String::from_str("Move with WASD or arrow keys. Press Q to quit."));
        logs.push_back(String::from_str("Find the white door to go deeper."));
        let mut levels: Vec<Level> = Vec::new();
        levels.push(level0);
        let player = Player::new(spawn.0, spawn.1);
        let world = World { levels, player, logs, seed, width, height };
        assert(world@ =~~= new_world(seed, width, height));
        world
    }

    /// The level the player is on.
    pub fn current_level(&self) -> (level: &Level)
        requires
            self.levels.len() >= 1,
        ensures
            *level == self.levels@.last(),
    {
        &self.levels[self.levels.len() - 1]
    }

    /// The level the player is on, for changing it in place.
    pub fn current_level_mut(&mut self) -> (level: &mut Level)
        requires
            old(self).levels.len() >= 1,
        ensures
            *level == old(self).levels@.last(),
            final(self).levels@ == old(self).levels@.update(
                old(self).levels.len() - 1,
                *final(level),
            ),
            final(self).player == old(self).player,
            final(self).logs == old(self).logs,
            final(self).seed == old(self).seed,
            final(self).width == old(self).width,
            final(self).height == old(self).height,
    {
        let last: usize = self.levels.len() - 1;
        &mut self.levels[last]
    }

    /// The map of the level the player is on.
    pub fn current_map(&self) -> (map: &TileMap)
        requires
            self.levels.len() >= 1,
        ensures
            *map == self.levels@.last().map,
    {
        &self.current_level().map
    }

    /// The map of the level the player is on, for changing it in place.
    pub fn current_map_mut(&mut self) -> (map: &mut TileMap)
        requires
            old(self).levels.len() >= 1,
        ensures
            *map == old(self).levels@.last().map,
            final(self).levels@ == old(self).levels@.update(
                old(self).levels.len() - 1,
                (Level {
                    map: *final(map),
                    forward_door: old(self).levels@.last().forward_door,
                    back_door: old(self).levels@.last().back_door,
                }),
            ),
            final(self).player == old(self).player,
            final(self).logs == old(self).logs,
            final(self).seed == old(self).seed,
            final(self).width == old(self).width,
            final(self).height == old(self).height,
    {
        &mut self.current_level_mut().map
    }

    /// Appends `msg` to the log and drops the oldest lines beyond `LOG_CAP`.
    pub fn push_log(&mut self, msg: String)
        ensures
            final(self)@ == old(self)@.with_line(msg@),
            final(self).logs@.len() <= LOG_CAP,
            final(self).levels == old(self).levels,
            final(self).player == old(self).player,
            final(self).seed == old(self).seed,
            final(self).width == old(self).width,
            final(self).height == old(self).height,
    {
        self.logs.push_back(msg);
        let ghost all = self.logs@;
        while self.logs.len() > LOG_CAP
            invariant
                self.logs@.len() <= all.len(),
                self.logs@.len() >= LOG_CAP || self.logs@.len() == all.len(),
                self.logs@ == all.subrange(all.len() - self.logs@.len(), all.len() as int),
                self.levels == old(self).levels,
                self.player == old(self).player,
                self.seed == old(self).seed,
                self.width == old(self).width,
                self.height == old(self).height,
            decreases self.logs@.len(),
        {
            self.logs.pop_front();
        }
        assert(all == old(self).logs@.push(msg));
        assert(self@.lines =~~= log_pushed(old(self)@.lines, msg@));
        assert(self@.levels =~~= old(self)@.levels);
    }

    /// Descends: makes the level for the next depth, turns its spawn point
    /// into its back door, pushes it, and puts the player on that door.
    pub fn enter_new_level(&mut self)
        requires
            old(self).wf(),
        ensures
            final(self).wf(),
            final(self)@ == old(self)@.entered(),
    {
        let depth: usize = self.levels.len();
        let (mut level, spawn) = Self::make_level(
            self.seed,
            depth,
            self.width,
            self.height,
            Some((0, 0)),
        );
        stamp(&mut level.map, spawn, Tile::DoorBack);
        level.back_door = Some(spawn);
        self.levels.push(level);
        self.player.x = spawn.0;
        self.player.y = spawn.1;
        self.push_log(entered_message(depth));
        proof {
            assert(self.levels@.last() == level);
            assert forall|i: int| 0 <= i < self.levels.len() implies (#[trigger] self.levels[i]).wf(
                self.width,
                self.height,
            ) by {
                if i < old(self).levels.len() {
                    assert(self.levels[i] == old(self).levels[i]);
                }
            }
            assert(self@ =~~= old(self)@.entered());
        }
    }

    /// Climbs back: drops the current level and puts the player on the
    /// forward door of the level below. On the entry level it only logs
    /// that there is nowhere to return to.
    pub fn return_to_prev_level(&mut self)
        requires
            old(self).wf(),
        ensures
            final(self).wf(),
            final(self)@ == old(self)@.returned(),
    {
        if self.levels.len() <= 1 {
            self.push_log(String::from_str("No previous level to return to."));
            return ;
        }
        self.levels.pop();
        let previous = self.current_level().forward_door;
        self.player.x = previous.0;
        self.player.y = previous.1;
        let depth: usize = self.levels.len() - 1;
        proof {
            assert forall|i: int| 0 <= i < self.levels.len() implies (#[trigger] self.levels[i]).wf(
                self.width,
                self.height,
            ) by {
                assert(self.levels[i] == old(self).levels[i]);
            }
        }
        self.push_log(returned_message(depth));
        assert(self@ =~~= old(self)@.returned());
    }

    /// Carries out one action and says whether the game goes on.
    ///
    /// Only `Quit` ends the game. A move lets the player try one step,
    /// logs it if it was taken, and then follows a door under the player's
    /// feet down or back up. Every other action leaves the state as it is.
    pub fn apply_action(&mut self, action: Action) -> (keep_running: bool)
        requires
            old(self).wf(),
        ensures
            keep_running == keeps_running(action),
            final(self).wf(),
            final(self)@ == old(self)@.applied(action),
    {
        match action {
            Action::Move(dx, dy) => {
                let old_x: i32 = self.player.x;
                let old_y: i32 = self.player.y;
                let last: usize = self.levels.len() - 1;
                self.player.try_move(dx, dy, &self.levels[last].map);
                let new_x: i32 = self.player.x;
                let new_y: i32 = self.player.y;
                if old_x != new_x || old_y != new_y {
                    self.push_log(moved_message(new_x, new_y));
                }
                assert(self@ =~~= old(self)@.moved(dx, dy));
                let tile = self.current_map().get(new_x as usize, new_y as usize);
                match tile {
                    Tile::DoorForward => {
                        self.push_log(String::from_str("You step through the door..."));
                        self.enter_new_level();
                    },
                    Tile::DoorBack => {
                        self.push_log(String::from_str("You return to the previous area."));
                        self.return_to_prev_level();
                    },
                    _ => {},
                }
                true
            },
            Action::Quit => false,
            _ => true,
        }
    }
}

/// The log never outgrows its cap, the line just appended is always the
/// newest, and what is kept is the tail of what was there: lines leave in
/// the order in which they came.
pub proof fn lemma_log_keeps_the_newest(lines: Seq<Seq<char>>, line: Seq<char>)
    ensures
        log_pushed(lines, line).len() <= LOG_CAP,
        log_pushed(lines, line).len() == if lines.len() < LOG_CAP {
            lines.len() + 1
        } else {
            LOG_CAP as nat
        },
        log_pushed(lines, line).last() == line,
        forall|i: int|
            0 <= i < log_pushed(lines, line).len() - 1 ==> #[trigger] log_pushed(lines, line)[i]
                == lines[lines.len() + 1 - log_pushed(lines, line).len() + i],
{
}

/// No action makes the log longer than its cap.
pub proof fn lemma_log_stays_capped(before: WorldView, action: Action)
    requires
        before.lines.len() <= LOG_CAP,
    ensures
        before.applied(action).lines.len() <= LOG_CAP,
{
    match action {
        Action::Move(dx, dy) => {
            let after = before.moved(dx, dy);
            lemma_log_keeps_the_newest(before.lines, moved_text(after.player.x, after.player.y));
        },
        _ => {},
    }
}

/// Down and back up: when a move takes the player through a forward door,
/// and a later move on the new level takes the player through a back door,
/// the stack of levels is what it was before the descent and the player
/// stands on the forward door of the level that was left.
pub proof fn lemma_door_round_trip(
    before: WorldView,
    down: (i32, i32),
    inside: WorldView,
    up: (i32, i32),
)
    requires
        before.levels.len() >= 1,
        before.moved(down.0, down.1).tile_underfoot() == Tile::DoorForward,
        inside.levels == before.applied(Action::Move(down.0, down.1)).levels,
        inside.moved(up.0, up.1).tile_underfoot() == Tile::DoorBack,
    ensures
        inside.applied(Action::Move(up.0, up.1)).levels == before.levels,
        inside.applied(Action::Move(up.0, up.1)).player.x == before.levels.last().forward_door.0,
        inside.applied(Action::Move(up.0, up.1)).player.y == before.levels.last().forward_door.1,
{
    let arrived = before.applied(Action::Move(down.0, down.1));
    assert(arrived.levels.drop_last() =~= before.levels);
}

} // verus!
