# mstsc-mgr

A manager for Remote Desktop (MSTSC) connections: it keeps a list of saved
connections, stores their passwords only in DPAPI-protected form, and
launches `mstsc.exe` with a generated `.rdp` file or with credentials placed
in the Windows credential store.

## Layout

- `src/` is the library, verified with Verus. It holds everything that
  decides or computes: the `.rdp` file text and its UTF-16LE bytes, the
  domain/user split, endpoints and credential targets, the password blob
  framing (DPAPI is passed in as a service, base64 framing goes through the
  `base64` crate), profile list editing, settings and vault checks, the
  floating ball's visibility, menu and position rules, and the window-list
  ordering.
- `tests/` runs the library on concrete values.
- `app/` is the Windows program around it: Win32 windows and dialogs,
  DPAPI and the credential store through the `windows` crate, JSON files
  through `serde_json`, and the launch of `mstsc.exe`.
