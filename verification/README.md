# xsar_display

Viewer for CSV logs of the xSAR NTC batch thermal sensor harvester.

- `src/` is the verified library: the harvester schema (`parameters`), the
  recogniser of numeric cells (`number`), CSV ingestion into runs aligned at
  elapsed time zero (`data`), and the viewer state that does not depend on
  floating-point arithmetic (`session`).
- `app/` is the egui desktop program: file I/O, plotting, the time window and
  the sentinel comparisons, which are floating-point.
- `tests/` exercises the library.
