# battlecode_engine

The game engine of Battlecode 2018, written in Verus: the rules of the game
(units, research, rockets, weather, the communication arrays, the turn and
round structure, the map format) with their behaviour stated in `requires` /
`ensures` contracts and proved.

## Layout

- `src/` is the verified library.
  - `world.rs`: the game world, every action a player can take, the ends of
    turns and rounds, and what each player is shown of the world.
  - `controller.rs`: the controller a player acts through, the turn messages
    exchanged with the manager, and the framing of the manager's stream into
    lines.
  - `unit.rs`, `unit_controller.rs`, `research.rs`, `rockets.rs`,
    `weather.rs`, `team_array.rs`, `id_generator.rs`: the parts of the world.
  - `map.rs`, `mapparser.rs`: the starting map, its validation, the seeded
    asteroid and orbit patterns, and the text map format.
  - `location.rs`, `quadtree.rs`, `spatialhashmap.rs`: locations and the
    spatial indexes.
  - `fnv_map.rs`, `rng.rs`: the contracts under which the library uses the
    `fnv` hash maps and the `rand` generators.
- `tests/` runs the library on concrete games.
- `app/` is what cannot be verified: the socket to the manager, the JSON
  encoding of messages, and the rocket flight time, which is computed with a
  floating-point sine.

The contracts are written over mathematical models (`Seq`, `Map`, `int`);
public proof functions state the laws that relate several operations, such
as that a team array written on one planet reaches the other after the
communication delay, or that the lines of the manager's stream are read
whole and in order.
