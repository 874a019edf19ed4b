# iexplorer

A desktop-themed adventure game: the player walks over a fake desktop,
opens folders that start mini-games (pinball, a jump scare, bug shooting),
chats with a companion that answers questions, and looks for the password
that opens the last e-mail.

- `src/` is the game's logic, verified with Verus: the companion's text
  handling (`text`, `tokens`, `strings`, `encoding`), its dialogue states
  (`rover`), its evasive answers and the password riddle (`deflections`),
  the vocabulary and word windows of its embedding (`dictionary`), the
  scene switches and menus (`states`, `email`) and the arcade counters and
  contact rules (`arcade`). Random draws go through `chance`.
- `app/` is the Bevy program around it: windows, sprites, input, asset
  loading, and the floating-point physics and geometry.
- `tests/` runs the library on concrete values.
