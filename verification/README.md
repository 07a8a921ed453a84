# contemporary

The logic of the Contemporary user interface toolkit, written in Verus: each
function states what it does in its contract, and Verus proves it.

- `src/` is the verified library: text editing (byte and UTF-16 offsets,
  grapheme boundaries, selections, composition), the layout of a text field's
  cursor and selection, the job manager and jobs, the asset URLs and bundled
  icons, the deployment configuration, and the decisions of the widgets
  (check boxes, switches, sliders, pagers, the spinner, context menus, the
  application menu, notifications, toasts and self updates).
- `tests/` runs the library on concrete values.
- `app/` is ordinary Rust around it: the configuration as serde reads it, the
  loading of asset files, and the floating-point colours, easing and geometry
  that turn the library's exact answers into what is drawn.

The drawing itself is the work of the gpui framework and stays outside this
crate.
