# displayed

`displayed` keeps a laptop's built-in panel off while a chosen external monitor
is connected, and brings it back when none is. It turns displays on and off
with the `displayplacer` program and with macOS's own display services, and it
comes with an interactive terminal mode, a watcher, and a guard that `launchd`
runs for recovery.

## Layout

`src/` is a library that is verified with Verus. It holds every decision, every
file format and every text. `app/` is the program around it: it performs the
effects that the library asks for, and makes no decision of its own. `tests/`
runs the library, its procedures against a small model of a machine.

The library does no input or output. A procedure reads the replies to its
effects from a tape. Where the tape ends, it stops with the effect that it needs
next, and leaves the replies as they were; the program performs that effect, puts
the reply behind the others, and runs the procedure again from its start. The
contract of each procedure says what it does as a function of its arguments and of
the tape: the effect that it asks for, or the value that it ends with. A longer
tape is read as the shorter one first, which `replay_laws` proves of every
procedure and of every part of one. So the parts that had ended end as before, and
the new reply goes to the part that asked for it.

| Modules | What they hold |
| --- | --- |
| `text`, `number`, `ids`, `wording` | texts, numbers in texts, sets of numbers, names and captions |
| `display`, `placer` | displays, their identities, the output of `displayplacer` |
| `target`, `state` | the file of saved targets, the file of remembered displays |
| `policy` | what the guard, the watcher and the recovery decide |
| `agent`, `path`, `options`, `screen` | the launch agent, paths, command lines, the terminal's picture |
| `effect` | effects, replies, the tape |
| `files`, `commands`, `native` | procedures over files, programs and display services |
| `restore`, `guard`, `switching`, `watching` | restoring, guarding, turning off, watching |
| `snapshot`, `install`, `watch`, `command`, `interactive` | the commands and the interactive mode |
| `target_laws`, `state_laws`, `safety_laws`, `tape_laws`, `replay_laws`, `interactive_laws` | what holds of several of them together |

## What is proved

Each function states in its contract what it returns for every input. Beyond
that, the laws state among other things:

- what is saved reads back, and no display is lost from a list
- the guard, a restore, a safe reset and what is done before sleep never turn a
  display off
- the guard and a safe reset never rearrange displays
- without `--force`, a display is turned off only after a list was read in which
  two are on, by any command, by the watcher and in the interactive mode
- a dry run changes no display
- what a procedure ended with over some replies, it ends with over more
- a restore counts as done only once the panel was seen to be active

One contract is trusted: that `String::push` appends one character.
