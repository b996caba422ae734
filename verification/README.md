# steam_tools

Two tools for a Steam installation, with their logic verified by Verus.

- The **pattern scanner** reads `steamclient64.dll` and `steamui.dll`, locates known
  functions by their byte signatures, and writes one TOML file for each library, named
  by the SHA-256 digest of the library.
- The **manifest downloader** reads Lua files, asks an information service for the
  public manifests of the depots that they name, and fetches the manifests that are not
  there yet.

## Layout

- `src/` is the library. Its functions take and return plain values; what they compute
  is stated in their contracts and proved.
  - Scanner: `text`, `fnv`, `digest`, `pattern`, `pe`, `signatures`, `scanner`.
  - Downloader: `modes`, `session`, `display`, `depots`, `manifest`, `download`, `jobs`,
    `job`, `batch`, `install`, and the machines `download_machine`, `job_machine` and
    `run_machine`, which decide what is done next; `course` states what holds of whole
    runs.
- `app/` is the program around the library: arguments, files, the network, the terminal.
  It performs the actions that the machines ask for and hands the results back.
- `tests/` runs the library on concrete values.

Laws that relate several functions are public proof functions, named `law_...`.

Calls into `regex` and `sha2`, and a few string functions of the standard library, stand
behind small functions or specifications whose contracts are believed; a doc comment
above each says what is claimed.
