# kotoba

The verified core of a terminal Japanese reading and vocabulary tool.

- `src/` is the library, checked by Verus: text utilities and their
  specifications (`text`), sentence and paragraph splitting and token
  information (`tokenizer`), conjugation grouping (`conjugation`), romaji
  input (`romaji`), stored records and vocabulary status (`models`),
  JMdict entries and the assembly of entries from XML events
  (`dictionary`), sentence-analysis requests (`llm`), review outcomes
  (`srs`), the reader's sentences, conjugation groups and expressions
  (`reader`), the screens and their key handling (`screens`), the
  configuration (`config`), the background import queue and the tracking
  of import events (`background`), HTML queries (`html`), the importers'
  parsing (`import`), statistics (`stats`), the review session, card
  browser and settings screens (`review`), the mouse in the reader
  (`pointer`), the routing of keys and the home and statistics panels
  (`panels`), opening a chapter list and moving to the next chapter
  (`chapters`), and the library's listing, order and search (`library`).
- `tests/` holds the tests of the library.
- `app/` is the command line around it: the SQLite store, downloads,
  archive and XML reading, the clipboard, HTTP, the worker that drives the
  background import queue (`kotoba syosetu <ncode> --all`), and the
  serialisable copies of the library's records.

The analyzer (`tokenizer::create_tokenizer`) needs lindera's embedded UniDic
dictionary, which lindera only carries when built with its `embed-unidic`
feature. That feature downloads the dictionary while building, so this build
goes without it: here `create_tokenizer` always reports that the dictionary
failed to load, and the tokenizing paths are exercised through their
contracts and through the functions that take an analyzer's output
(`tokens_from_segments`, the conjugation grouping) rather than end to end.
