# flow_edge

The worker layer of `flow`: a pool of supervised user workers around a JavaScript engine, with the
bundles that they are loaded from.

`src/` is the library. Everything in it is verified with Verus: each function states what it
returns or changes, and the functions named `law_…` state what holds of several of them together.

| module | what it decides |
| --- | --- |
| `bundle_cache` | which bundles the cache keeps, where they lie, and which download a key stands for |
| `eszip`, `eszip_trait`, `flow_eszip`, `graph` | what goes into an archive, how its data are read, and what it unpacks to |
| `module_loader`, `source_map_store` | where a module is found and loaded from, and where its errors point |
| `runtime`, `lifecycle`, `access` | how a runtime is put together, run, watched, entered and dropped |
| `worker`, `flags`, `permissions` | how a worker is named, started, supervised and limited |
| `inspector` | which worker a debugger reaches |
| `flow_config`, `flow_events`, `embed`, `deno_options`, `emitter` | what the command line, the environment and the program around it ask for |
| `paths`, `byte_path`, `urls`, `text` | what paths, URLs and texts are made of |

`app/` is the program: files, sockets, threads and the seam to the engine. It asks the library what
to do and does it.
