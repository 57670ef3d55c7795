# deepdecipher

A verified library for the data behind a neuron interpretability server:
neuron indices and their flat numbering, model metadata, the services and
data types a database is organised by, which items of a model still lack
data, neuron graphs in graphviz's dot language, neuron stores and the token
counts that neuron similarity is computed from, the neuroscope pages and
front-page table, and the compressed form in which pages are stored.

- `src/` is the library, written in Verus: every function carries a
  contract, and the properties that relate several functions are stated and
  proved as `law_*` proof functions.
- `tests/` runs the library on concrete values.
- `app/` is the part that talks to the outside world: the SQLite database,
  HTTP requests, files, logging, command lines, serialization, and the
  fields of pages that are floating-point numbers.
