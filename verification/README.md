# ingwe

The decisions of a desktop shell that shows one streaming service at a time in a child
webview, as a library verified with Verus, and the shell around it.

- `src/query.rs`: reading a parameter out of a URI's query and percent-decoding it.
- `src/state.rs`: the shared state (active service, fullscreen layout, overlays) and its changes.
- `src/navigation.rs`: parsing service URLs and opening or resetting a service.
- `src/protocol.rs`: the page's control and notification requests.
- `src/media.rs`, `src/debounce.rs`: media key bindings, dispatch and debouncing.
- `src/page.rs`: page load handling and the scripts run in the service page.
- `src/tray.rs`: tray menu entries.
- `src/error.rs`: errors and monitor work areas.
- `app/`: the window system, plugins, IPC commands and event wiring, which call the library.
