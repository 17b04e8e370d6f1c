# bevy_rpg

The rules of a small turn-based role-playing game, written in Verus with
their contracts proved, and a Bevy application around them.

- `src/` is the verified library: the turn order of a fight (a circular list
  ordered by speed), how skills change health and block, which units a skill
  may target, how the computer picks its skill, the turn cycle of a fight,
  the decisions of the combat interface, and the texts that describe skills.
- `app/` is the Bevy application: windows, sprites, input, the skill book
  file, and the systems that hand the world's data to the library.
- `tests/` runs the library on concrete values.
