# tang

The core of a minimal instrument host for the command line. It plays sessions:
instruments with effects, modulators, note remappings and patterns, mixed
through submix groups.

- `src/` is the library. It is written in Verus: every function has a contract,
  and the contracts are proved.
- `app/` is the program around it: the command line, files, devices, threads,
  and the arithmetic on audio samples.
- `tests/` runs the library on concrete values.

## The library

| Modules | What they do |
| --- | --- |
| `notes`, `text`, `scalar`, `event` | note names and ranges, text, numbers by their bits, MIDI messages |
| `modulation`, `rack`, `routes` | modulators, their targets and where their values go |
| `remap`, `pattern` | notes on other channels, recording and playing patterns |
| `lane`, `bus`, `graph`, `command`, `apply`, `render` | the audio graph: what each command does to it, and in which order a buffer is rendered |
| `config`, `session`, `save`, `document` | session files: reading, writing and their layout |
| `loader`, `setup`, `assembly` | turning a session into commands |
| `oscillator`, `reverb` | the built-in plugins |
| `midi`, `midi_monitor`, `play` | MIDI input and the playing loop |
| `cli`, `enumerate`, `paths`, `clock`, `tty` | the command line and what it prints |

What holds of the library as a whole stands as public proof functions, in the
modules named `*_laws` and at the end of the others. Among them:

- Targets keep naming the effects that they drive when an effect is inserted
  into a lane, removed from it or moved within it, and when a bus effect is
  removed or moved. (Inserting a bus effect shifts no target, and swapping two
  instruments leaves targets with their lanes.)
- Group targets keep naming their members when a lane leaves, joins or is
  removed.
- No queue of commands loses a plugin.
- Playback follows the latest key, stays inside its buffer, and leaves no note
  hanging.
- A saved session reads back, and a loaded session is what the graph plays.

Numbers with a fraction are carried by their bits (`scalar`). The library
compares, bounds and widens them; adding and multiplying them is left to the
program.
