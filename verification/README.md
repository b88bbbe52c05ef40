# ams-yt-dw

A desktop front end for yt-dlp, with its decisions proved in Verus.

- `src/` is the verified library: the yt-dlp argument list (`args`), the
  reading of yt-dlp's output during a download (`download`), the log pane
  (`log`), the platform decisions — log font, tool and runtime lookup, page
  and folder openers, default output folder (`platform`), the CRC-16 and Pix
  BR code of the donation key (`checksum`, `pix`), the QR picture (`qr`), and
  the character-level text helpers they share (`text`).
- `app/` is the Slint window, the processes, threads, clipboard and file
  dialog around it.
- `tests/` runs the library on concrete values.
