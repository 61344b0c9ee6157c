# input_service

The input service of a remote desktop server. It turns the mouse and key events of
the peers into actions on the machine, keeps the modifiers and locks of both sides
in line, lets go of keys that stay down, decides which peer may move the cursor, and
tells the peers where the cursor is and what it looks like.

`src/` is the library, verified with Verus. What is believed without proof is in
`text`: the contracts of three functions of the standard library.

- `keys`, `text`, `events`: keys, characters and events as they come in.
- `script`, `session`: the handling of an event as a list of steps, and the dialogue
  with the machine that carries them out.
- `keyboard`, `mouse`: the steps for key and mouse events, and the decision on who
  may use the mouse.
- `records`: the table of the keys that are down.
- `cursor`: what the peers are told about the cursor.
- `dialogue`, `notes`: every dialogue ends, lets go of what it pressed, and notes the
  one key that it is about, whatever the machine answers.
- `device`, `laws`: what the dialogues lead to on a machine that works as it should.

`app/` carries the actions out and connects the library to the rest of the server.
