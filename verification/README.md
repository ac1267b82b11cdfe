# agent-spy

A desktop automation tool for agents: it lists and inspects windows, moves,
resizes, focuses and raises them, captures the screen, and simulates keyboard
and mouse input, from a command line (`--cli`) or from a small desktop window.

The library under `src/` holds the tool's logic with Verus contracts:

- `cli`, `report`: the command-line grammar and the text the tool prints;
- `spy`, `message`: the desktop window's state and its reactions to the user,
  each returning the outside work it needs done;
- `engine`: which feature guards which action, and how text is delivered;
- `input`, `xtest`, `win32`: key names, key taps, XTest and Win32 input events;
- `platform`, `session`: windows, permissions, and per-platform decisions;
- `modes`, `overlay`: ways of cutting the screen into labelled areas, and the
  zooming overlay built on them;
- `text`: the few string operations the rest relies on.

`app/` is the program around it: argument handling, the window drawn with
iced, and the calls into the X server, the clipboard, screen capture and the
input libraries.
