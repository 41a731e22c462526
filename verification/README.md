# ftty

The verified core of a Wayland terminal emulator, written in Verus.

| Module | What it holds |
| --- | --- |
| `grid` | cells, rows, scrolling, history, reflow on resize, image placements |
| `kitty` | the graphics protocol: framing, commands, payloads, answers |
| `input` | key combinations, shortcuts, VT and Kitty key encoding |
| `config` | settings, their defaults and merging, key bindings, file paths |
| `font` | font faces, glyph pictures, the atlas, the font cache, fallback faces |
| `event_loop` | geometry, shortcuts, pointer, clipboard, images, frames and signals |
| `ime` | pre-edit text and the rectangle of the cursor |
| `color` | colors and the palette |
| `error` | what can go wrong and what it says |
| `text`, `collections` | characters, numbers and collections for the others |

Contracts speak of mathematical models: `Grid`, for one, is viewed as a `GridModel`, and each of its
methods says which model it leaves. What holds of several functions at once is stated by the public
proof functions whose names begin with `law_`.

Calls into other crates stand behind small functions whose doc comments name the call and say what
is taken for granted: `base64`, `png`, `unicode-width`, `ttf-parser` and FreeType.

`app/` is the program around the core: files, fontconfig, xkbcommon, Wayland and the event loop
itself. `tests/` runs the core on concrete values.
