# amber_shield_scan

A vulnerability and secret heatmap for a source tree, as a verified library
and a thin command-line program around it.

- `src/` is the library. Every function in it carries a contract that Verus
  proves: how a command line is read, how severities are ranked, how Trivy and
  GitLeaks findings are attributed to files (whole path components), how each
  file is scored (branch points from a tree-sitter parse, TODO-style marker
  lines, findings), how the heatmap is ordered, what the SARIF results say, and
  the decisions of the source-tree walk.
- `app/` is the program: it reads the environment and the filesystem, runs the
  scanner binaries, decodes and writes JSON, and prints the summary.
- `tests/` runs the library on concrete inputs.
