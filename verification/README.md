# Thud & Tile

A falling-block puzzle with coloured tiles: blocks of one colour that touch
form chains, completed lines blink and are cleared or turn grey and are
pushed down until they rest as solid lines, and the chain bonus earned by
longer chains starts the erasing of solid lines at the bottom.

`src/` is the library, verified with Verus: the board logic (connected
groups, line analysis, isolated blocks), scoring, animations, pieces and
their rotation system, the seven-piece bag, the terminal game's engine
(`game_engine`: locking a piece, the blink of full lines, clearing the
bottom line or turning other lines grey, pushing grey lines down, starting
the erase of solid lines, recounting chains, and the play loop's decisions
on each command and each automatic fall), the platform-independent game
state as one value with the pure functions that advance it, the bridge between the
front end's state and that value, the terminal colour model, and the
terminal front end's rules (key repeat, render state, text frames), the
browser front end's game state (`web_game`: input codes, moves, wall kicks,
hard drop, locking and scoring), and drawing commands with the title
screen (`render`).  `app/` is the terminal program: it reads keys and the
clock with crossterm, drives the engine of `game_engine` (falling pieces,
input, animations), carries out the title screen's drawing commands and
writes the frames.
