# pyapp splash screen, verified

The splash screen that a Python bootstrapper shows while it downloads Python
and installs an application, with its logic proved by Verus.

- `src/` is the verified library:
  - `splash::config`: hex colours (`Color::from_hex`, `Color::to_egui`) and the
    window settings (`SplashConfig::from_env`), read byte for byte as the
    standard library's number parsing reads them.
  - `splash::window`: the frame that the software-rendered window draws, and
    the answers to the events of its event loop.
  - `splash`: the API of a build without the splash feature, the build flag,
    and the order in which renderers are tried.
  - `network`: the bookkeeping of a download.
- `app/` holds what talks to the outside world: the egui and winit windows,
  the thread and channel between the work and the window, the build
  environment and the HTTP client.
- `tests/` runs the library on concrete values.
