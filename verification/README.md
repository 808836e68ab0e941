# rexpaper

A wallpaper manager for Windows: a gallery of static (image) and live
(video) wallpapers, filed under categories by folder, with search, a
thumbnail cache, and live wallpapers drawn behind the desktop icons by a
background `mpv`.

## Layout

- `src/` — the library, written in Verus and verified:
  - `text.rs`, `paths.rs`: strings and paths as character sequences
    (substring search, code-point order, trimming, lower-casing, number
    formatting; Windows paths with drives and roots: components, file
    stems and extensions, the folder below a root, joining).
  - `models.rs`: the gallery state, its categories and its filtering.
  - `scanner.rs`, `static_wallpaper.rs`: which files are wallpapers and
    which category each belongs to.
  - `live_wallpaper.rs`: the in-app preview controller, a state machine
    whose player commands the caller carries out.
  - `platform/windows.rs`: the desktop live wallpaper's state, pausing for
    full-screen windows, the choice of the window to draw into, and the
    command lines of `mpv` and `taskkill`.
  - `platform/tray.rs`: what the notification-area icon's clicks and menu
    entries mean.
  - `thumbnail.rs`: the names of cached thumbnails and of grabbed frames,
    the placeholder thumbnail, scaling an eight-bit RGB image through the
    `image` crate, and what to write once a video frame was grabbed.
  - `settings.rs`: the settings and the start-up registry entry.
  - `gallery.rs`: the cards and rows a gallery page shows.
- `tests/`: tests of the library.
- `app/`: the program around the library: walking folders, the settings
  file, the thumbnail cache on disk, libmpv, the Win32 calls and the
  notification-area icon.
