# sam

The logic of Steam Achievement Manager, a desktop tool that unlocks and resets
the Steam achievements of games on your own account, as a library whose
behaviour is stated in contracts and proved with Verus.

- `src/` is the library. Every function in it is verified: parsing Steam's
  `libraryfolders.vdf` and `appmanifest_*.acf` files, the fuzzy search of the
  sidebar, the cached counts in the settings, what Steam's replies mean, and
  the window's state machine (which rows are pending, what Apply sends, how a
  reply changes the state, how the list is sorted and labelled, which games
  are taken out of the sidebar and brought back), when the settings are
  written, and how long to wait for Steam's global unlock percentages.
- `app/` is the program around it: the egui window, the Steamworks calls on
  their worker thread, the settings file and the command line. It makes the
  calls and draws; the decisions are the library's.
- `tests/` runs the library on concrete values.
