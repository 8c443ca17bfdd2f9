# shadow_batch

The verified core of Shadow Batch Processor, a desktop tool that runs one
media pipeline (rename and number, convert images, video or audio, extract
audio, strip metadata) over many files. It writes copies unless the user
confirms replacing the originals.

- `src/` is the library, checked with Verus: output naming and preview
  (`pipeline`), the path model and unique output names (`paths`, `home`),
  sorting dropped paths (`files`), media kinds from what ffprobe found
  (`media`), the commands each step runs, the per-file job and what to do
  about a running tool (`ops`), the batch run (`runner`), checks on outputs
  (`validate`), presets, settings and what the window decides (`session`).
- `app/` is the GTK program around it: the window and dialogs, reading and
  writing settings and presets, probing media with ffprobe, running the
  tools, and temporary folders.
- `tests/` runs the library on concrete values, including comparisons of
  the path model with `std::path`.
