# Usticky

A floating sticky note for the desktop: one window, one list of todos, nothing
else. The rules of the list and of the windows around it are a verified library;
a thin program ties them to Tauri and to the operating system.

## The library (`src/`)

| Module | What it holds |
|---|---|
| `todo` | todos, attachments, the stored document |
| `sections` | the rules of the list, as spec functions |
| `store` | the document in memory and everything that changes it |
| `laws` | what holds of the list whatever is done to it |
| `commands`, `errors` | the front end's commands and what they answer |
| `attachment`, `path`, `persist` | file names, paths, and how the document gets to disk |
| `clipboard` | which of the clipboard's forms is taken |
| `image_head` | which image files may be handed to the decoders |
| `window`, `preview` | geometry of the floating window and its preview |
| `quick_add` | calling the window up for a quick note, and its shortcut |
| `platform`, `hover` | window layers and following the pointer |
| `tray` | the tray menu |
| `external` | the outside calls, each with what is relied upon |
| `text`, `seqs` | helpers over texts and sequences |

A contract speaks of the view of a value: `store@` is a `StoreView`, whose list
is a `Seq<TodoView>`. Functions that read the clock or make an identifier have a
sibling that takes them as arguments (`Store::add_at`, `Store::update_at`,
`Store::reorder_at`, `Store::snapshot_at`); their own contracts hold for every
reading.

## The program (`app/`)

`main`, the Tauri commands, the tray icon, the files and the window systems. It
holds no rule of its own, except where coordinates are floating point.

## Tests (`tests/`)

Ordinary tests of the library with the outside crates linked.
