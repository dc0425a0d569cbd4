# sonora

The logic behind a music client, written in Rust and proved with Verus.

- `src/` is the library. Every function in it carries a contract, and the laws that relate several
  functions are public proof functions beside them.
- `tests/` runs the library on concrete values.
- `app/` is the ordinary Rust around it: files, the environment, native windows, and everything
  that is measured in fractions.

Two functions of the standard library are trusted rather than proved, both in `src/text.rs`: the
lower case of a text and of a character is Unicode's, and only named.
