# Aparatchi

Tracks movies and series, plays them in VLC and resumes where they were left.

- `src/` is the logic, verified with Verus. The library is a set of rows held in
  memory; every change to it is written down in a journal. What the user does is
  a method of the application's state, and what it does is stated as a function
  on the state's view. `readback.rs`, `restoring.rs`, `laws.rs`, `showing.rs` and
  `journaling.rs` hold what is proved of the operations together.
- `app/` is the program around it: the database that the journal is carried out
  in, the player's process and HTTP interface, link checks over the network,
  poster files, and a front end for the terminal.
- `tests/` runs the library.

What is finished: something that was played to nine tenths of its length or
further. Its resume point is cleared; everything else is resumed where it was
left. A player that is closed before it reported a length changes nothing.

A link pattern has `*` for the episode number and `#` for the season number, as
in `http://example.com/S#/Movie.S#E*.mkv`.
