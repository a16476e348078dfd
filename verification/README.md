# azalea

Azalea takes links to tweets, finds the media behind them, downloads it, makes
it small enough to upload, and posts it to a channel or keeps it as a file.

The library in `src/` holds the rules of that work, each with a contract that
Verus proves:

- `media` reads links, and decides what becomes of temporary files;
- `pipeline` resolves, downloads, probes, shrinks and splits media, as state
  machines that are told what happened and answer what to do next;
- `storage` remembers what has been processed and counts what happened;
- `bot` answers commands and messages, runs jobs and uploads their files;
- `cli` reads a command line and plans local files;
- `config`, `concurrency` and `engine` hold settings and shared state;
- `text` has the text and number formats that the others are stated in.

The library holds floating-point settings by their bits and does no input or
output. `app/` does both: it drives the state machines with real files,
processes, sockets and clocks. One executable serves as the bot, as
`azalea-cli`, as `azalea-probe` and as `generate-schema`, by the name it is
started under.
