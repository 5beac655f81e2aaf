# neuron_app

The decisions of a desktop app for input devices and their lighting, verified with Verus.

- `src/` is the library. Each module holds one area: the macro tree and its canvas (`macros`,
  `canvas`, `canvas_laws`, `constructor`, `workshop`, `source_scan`), what devices push
  (`hidwatch`, `arming`, `reader`, `charge`, `registry`), the connections (`host`, `bridge`,
  `base_lighting`, `chroma_shm`, `obs`, `status`, `host_card`), the lighting page (`light_stack`,
  `light_session`, `light_surface`), and the other pages (`devices`, `editors`, `bindings`,
  `palette`, `weave`, `capture`, `profiles`, `system`, `naming`, `meters`). `text` and `textmap`
  are shared by all; `shared` is what the pages have in common.
- `tests/` runs the library on concrete values.
- `app/` is the shell: threads, the bus, drawing in floating point, the operating system.

Functions named `law_…` state what holds across several functions.
