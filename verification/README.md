# render_slides

A slide renderer for LLM-authored decks. A deck is a JSON document (the
IR) whose slides name a layout and fill its slots with Markdown text or
images. The library validates decks, describes the layouts and the tweaks an
agent may request, applies those tweaks, renders an HTML preview, maps slides
onto an absolutely placed layout model and packages them as a PPTX file.

The library under `src/` is written in Verus; each function carries a
contract over a mathematical model of its data, and `src/laws.rs` states and
proves properties that span functions (escaped text is inert, what a
`set_text` tweak writes reads back, missing required slots are refused, every
editable path has operations, a package holds its required parts, ...).

- `json`: the JSON document model.
- `text`, `order`: string helpers and the order of strings.
- `manifest`: the layout templates, their geometry and their operations.
- `schema`: IR validation (JSON Schema, then required slots) and the
  layout, tweak and schema descriptions.
- `operations`, `templating`: editable paths, operations, slot names.
- `patch`: applying tweak requests.
- `theme`, `html_preview`, `ilm_html`: HTML output.
- `markdown`, `model`, `layout_map`, `expr`: the layout model and its inputs.
- `pptx`: the OpenXML package; `part_names`: its part names are distinct
  and fit a zip entry, so packaging fails only on a part over 4 GiB.
- `transport`: where reads and writes go.

`app/` is the Python extension around the library: JSON reading and
writing, the floating-point geometry and font fitting, PNG rasterisation,
file and HTTP transports, and the Python bindings.
