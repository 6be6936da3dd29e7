# laberinto

The rules of a first-person maze shooter, verified with Verus.

- `src/` is the library, every function proved against its contract:
  - `maze`: reading a maze file's text into a padded grid, cell lookups, walls,
    finding cells;
  - `combat`: ammunition, reloads, cooldowns, damage, the shot's target,
    contact damage, the count of live enemies;
  - `sprites`: enemies and what a shot does to them, billboard items, tint
    blending;
  - `textures`: texel lookup with edge clamping and transparency;
  - `input`: keyboard directions, menu navigation and wrapping selections;
  - `game`: level set-up, cell size, the frame's billboards, the screen flow
    and the footsteps loop;
  - `hud`, `render`, `framebuffer`, `color`, `caster`: crosshair geometry,
    health tiers, flat cell colors, buffer clipping, colors and ray sides.
  Durations are whole microseconds.
- `app/` is the game around it: window, input devices, audio, file reading,
  and the floating-point geometry (ray casting, sprite projection, movement
  and collisions), which hands the library plain values.
- `tests/` runs the library on concrete cases.
