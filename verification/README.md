# LazyCruncher Workshop

LazyCruncher Workshop makes self-extracting Commodore 64 `.prg` files: load one
or more PRG files, pick a compression format, adjust the placement where needed,
and write an autostarting output file.

The rules of the workshop are a library whose behaviour is stated in contracts
and proved by [Verus](https://github.com/verus-lang/verus): the memory image, the
placement of decoder, buffer, mover and packed stream, the steps of a build, the
input fields, the log and the comparison of formats. Compressing, assembling,
unpacking and the window are done around it.

## Layout

- `src/` is the library.
  - `image`, `blocks`, `basic`, `address`, `text`, `names`: memory, free space,
    BASIC stubs, numbers and texts.
  - `formats`, `ranks`, `placement`, `plan`, `inplace`: what a format brings, how
    fast it is, what the user asks for, and where everything goes.
  - `sfx`: a build as a sequence of requests and replies.
  - `settings`, `start`, `import`, `report`, `compare`, `workshop`: the input
    fields and the workspace.
  - `*_laws`: what holds across functions.
- `tests/` runs the library on concrete values. The builds are driven by a small
  stand-in for the encoders and the assembler.
- `app/` is the desktop application: the window, files, threads, the outside
  encoders and the speed scores, which are floating-point numbers.

## Building a program

`build_sfx` starts a `Build`. As long as `Build::request` asks for something, the
application does it and hands the outcome to `Build::advance`; then
`Build::into_result` gives the program, or the reason why there is none.
