# intern_local

The local agent of a PC-embodied assistant. It runs command sheets whose instructions
(`click <x> <y>`, `type: <text>`, `hotkey: CTRL+S`, `screenshot <path>`, `wait <ms>`, ...) drive
the keyboard, mouse and screen, and it reports and logs the result of each command.

- `src/` is the verified library: reading instructions (`instruction`, `text`), planning device
  events and deciding, event by event, how a plan is carried out (`input`), deciding and
  reporting a command's run (`body`, `command`), screenshot paths and encodings (`screen`),
  command-sheet order (`sheet`), WebSocket requests, message handling and batch order
  (`server`), prompt lines (`repl`), log records (`runner`) and the tray icon file (`tray`).
- `app/` is the program around it: command line, files, WebSocket server, tray, and the
  Windows device drivers that carry out the library's plans.
