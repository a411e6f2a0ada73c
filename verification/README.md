# esp_scanner_base

A verified library for reading and resolving ESP compliance definitions.
It takes the AST and symbol table that the ESP compiler produces (as JSON),
reads them into a resolution context, orders the symbols by their
dependencies, resolves variables, states, objects and SET operations, and
expands SET references in the criteria. Its contracts are proved with Verus.

## Layout

- `src/json.rs`, `src/strings.rs`, `src/string_map.rs`: the JSON model, string
  helpers (decimal and debug renderings) and insertion-ordered maps.
- `src/types/`: declarations (variables, states, objects, SETs, RUN
  operations, criteria) and the resolution context.
- `src/parser/`: reading each part of the AST, with the error types of each
  part and the checks of the definition's structure.
- `src/resolution/`: the dependency graph and its ordering, cycle
  detection, SET operations, SET expansion, field resolution, the symbol
  table reader and the resolution engine.
- `src/results/`: result errors, findings and statistics.
- `tests/`: tests of the library.
- `app/`: what stays outside the library: conversion from `serde_json`,
  the serialisable report types, host and user context and the float
  statistics.
