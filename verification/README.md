# reimg

A command-line tool that scans a project for images, finds the ones that no
text file refers to by file name, deletes them on request, converts the rest to
WebP or AVIF and rewrites the references in the project's text files.

- `src/` is the library, verified with Verus: classifying files (`filters`,
  `scanner`), finding unused images (`analyzer`), planning reference rewrites
  (`replacer`), parsing answers (`cli`), and the decisions of the interactive
  deletion and conversion runs (`remover`, `converter`). Calls into
  `aho-corasick` and `camino` stand behind the trusted items in `matcher` and
  `pathname`.
- `app/` is the program around it: argument parsing, the directory walk, file
  reading and writing, prompts, and image encoding.
- `tests/` runs the library on concrete inputs.
