# macSFTP

The decision logic of a two-pane SFTP client, written in Verus, and a thin terminal program
around it.

- `src/` is the library. Everything a window, a tab, a pane, a dialog or the process decides is a
  function here, with its contract: which entries a pane shows, where a step through the history
  leads, what an event of the runtime changes, which window asks a question, when an edited file
  may go back to the server, how a session is saved and restored. Laws that span several functions
  are public proof functions whose names begin with `law_`.
- `app/` reads files, talks to the SFTP service over a channel, and draws the windows as text. It
  performs what the library asks for and hands back what came of it.
- `tests/` run the library from outside.

Functions that need something done outside come in two parts: one gives the command, the other
takes the outcome (`Dispatch`, `DirectoryRead`, `TempLook`, ...) and changes the state. What the
library cannot know, such as the text of a size or the saved secret of a profile, is handed in.

The only thing taken on trust is `str::to_lowercase` of the standard library, behind
`text::to_lowercase`.
