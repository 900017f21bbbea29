# min_loc

A verified library, with a small program around it, that keeps source code
short. Run as an editor hook before a file is written, it counts the file's
lines of code, asks a model for tests and for shorter versions of the code,
checks every shorter version against the tests, and refuses the edit with the
shortest passing version when it found one. The `check` command prints the
line counts of a file.

- `src/` is the library, written in Verus and verified: text and path
  handling, line counting, configuration, test file layout, the prompts, the
  compression session as a state machine, and the hook's request and answer.
- `app/` is the program: command line, files, processes, JSON and TOML, and
  the loop that performs each action the session asks for.
- `tests/` runs the library on concrete inputs, including comparisons with
  `std` for the text and path functions.

The program runs the model through the command-line program named by the
environment variable `MIN_LOC_MODEL_PROGRAM`.
