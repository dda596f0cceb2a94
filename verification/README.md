# cnf

The verified core of a command-not-found handler for openSUSE, written in
Verus.

- `src/ini.rs`: splitting a `.repo` file into lines and reading its section
  name and whether it enables the repository, with the laws of that reading.
- `src/manager.rs`: the package managers (zypper, dnf, dnf5), the patterns
  of their repository files and solv caches, and the solv inputs.
- `src/search.rs`: which search matches are kept, the checks made before
  handing strings to libsolv, and the install advice.
- `src/error.rs`: the errors and their texts.
- `src/text.rs`: character helpers.
- `app/`: the program: arguments, file system, translations (`tr`),
  pattern matching of files (`glob`) and the libsolv pool (through `libc`
  and the C library).
