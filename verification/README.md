# retgui

The verified core of a retained-mode GUI toolkit, written in Verus.

`src/` holds the logic, each function with a contract that Verus proves:

- `store`: the element tree in a slot map, with parent/child/sibling
  navigation, target lists, subtree collection, copying and deletion.
- `events`, `dispatch`, `pointer_capture`: typed events, the capture /
  bubble / default order of a dispatch, pointer enter and leave, click
  detection, listener selection, the event queue, and pointer capture.
- `input`: window-event routing and window closing, keyboard shortcuts
  handled before dispatch, and tab navigation over the visible elements.
- `dropdown`, `controls`, `text_input`, `calendar`, `audio`: the decisions
  of the widgets, as state plus the effects to carry out, and the element
  trees of the calendar and the audio player.
- `markdown`: a markdown document, parsed by pulldown-cmark, rendered into
  headings, paragraphs, list items, code blocks, images and rules, each
  with its nesting depth, with the images queued for loading.
- `animation`, `resources`, `style`, `layout`, `options`: animation clocks
  and scheduling, resource loading, style values and cache keys.

Laws that span several calls are public proof functions named `lemma_*`.

`app/` holds what cannot be verified: the application state that the
platform's event loop drives, the loop that calls the application's
listeners in the order `dispatch` decides, and the floating-point geometry
of sliders, zoom and pointer positions.
