# chess

A networked chess application whose decisions are verified with Verus.

- `src/` is the verified library:
  - `piece`, `player`: the pieces, their board letters and figurines, and the players;
  - `text`: characters, white space, trimming, words, decimal numbers;
  - `moves`: the move in a web request, the move line sent to the game server, and
    the proof that the server reads back what the front end sends;
  - `http`: the routes of the web front end and the framing of its answers;
  - `session`: match-making of players and the turn order of a game;
  - `cli`: the command-line arguments of the programs.
- `app/` holds the programs around it: the asynchronous game server, the web
  front end, the communicator and the terminal front end. They do the I/O and
  JSON encoding and call the library for every decision.
- `tests/` runs the library on concrete values.
