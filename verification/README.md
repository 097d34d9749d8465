# kessler

The rules of a small orbital game: the player earns science, buys research,
launches satellites, and has to keep the orbit from filling up with debris.

`src/` is the verified library (Verus):

- `model` — research tree, abilities, science, actions, launch payments and
  the launch queue, what becomes of dead satellites, collision risk levels;
- `orbit` — object trails, which pairs of objects are checked for collisions
  and which satellites a collision destroys;
- `localization` — the game text in every language, with fallback to English;
- `text` — greedy word wrapping;
- `assets` — which icon a research shows;
- `config` — the game configuration.

The library is generic over the type of real numbers that the game computes
with; it never computes with them itself.

`app/` holds what works with floating point numbers or files: the motion of
objects in orbit, stat multipliers, reading the configuration and the CSV
localization table.
