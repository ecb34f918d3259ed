# Damascene Volume

A volume control panel for PipeWire: the streams that play and record, the devices they use, the
cards and their profiles, with level meters and a spectrogram.

`src/` is the library. It holds what the panel decides and shows, with contracts that Verus proves:

- `model`, `demo`: the audio graph, and a fixed one.
- `backend`: the state that follows the PipeWire registry, the parameter objects it reads and
  writes, and the commands of the panel.
- `levels`: which nodes are metered and how, the ports that are linked for that, and the way from
  captured bytes to samples and spectrum columns.
- `routing`: where a stream plays or records.
- `app`, `keys`, `widgets`: the panel, and what an event changes in it or asks of the server.
- `menus`, `panels`, `frame`, `waterfall`: what the panel shows.
- `host`: the window.
- `artifacts`, `probe`: the decisions of the command-line tools.
- `text`, `util`: pieces of text.

Functions named `lemma_...` that are public state what holds of the library as a whole.

Two of Damascene's widgets and one function of the standard library are called from `src/` behind
contracts that are not proved; they are marked `external_body`, in `widgets` and `artifacts`.

`app/` is the program around the library: the PipeWire connection, the meters' threads, the window,
and everything that computes with floating-point numbers.

`tests/` holds the tests of the library.
