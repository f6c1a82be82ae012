# MelkkiPDF

A fast, minimal PDF viewer. It opens documents instantly and stays out of the
way: no tabs to manage, no background indexing, just the page you are reading.

- Continuous and single-page reading modes
- Single, odd, and even page spreads
- Zoom, fit-width, and fit-page
- Bookmark sidebar with page thumbnails
- Keyboard-driven navigation

## Layout

`src/` is the viewer's core, verified with Verus. It decides what is shown, what
is rendered and in which order. It draws nothing and waits for nothing: an event
goes in, and the properties of the window and a list of commands come out.

- `layout`: how pages are grouped into rows
- `geometry`, `text`, `path`: lengths in whole micro-units, numbers as text, file
  names
- `model`: the viewer's state and steps as mathematics
- `viewer`: the viewer itself
- `cache`, `pixels`, `render`: what the render worker keeps and does next
- `outline`: the bookmark sidebar
- `app`: which document is open, and what each event does
- `testing`: a headless harness
- `laws`: what holds of the viewer as a whole

`app/` is the program around it: the window (Slint), reading and rendering pages
(MuPDF), the worker threads and the file dialog.
