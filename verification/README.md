# Green Light

A desktop application for installing NVIDIA drivers from the official `.run`
files, built around a library whose logic is verified with Verus.

- `src/` is the library.
  - `versions`: the versions that NVIDIA lists, their branches and order, and the
    search for published checksums.
  - `download`: a download as a state machine, with its retries, and the
    verification of a file.
  - `install`: an install through `pkexec` as a state machine.
  - `system`: what the output of system tools says about the machine.
  - `ui`: what the window shows, and how the user's choices change what the
    application holds.
  - `digest`, `number`, `text`: SHA-256 digests, decimal numbers and text.
- `tests/` holds the tests of the library.
- `app/` is the application: it runs the tools, sends the requests, reads and
  writes the files and draws the window.

What the library calls outside of itself is stated in contracts that are not
proved: `Regex` of `regex`, `Html` and `Selector` of `scraper`, `Sha256` of
`sha2`, `encode` of `hex`, and three functions of the standard library.
