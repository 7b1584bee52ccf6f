# burn_gradient_demo_app

A desktop application that queues tensor gradient jobs on an actor and serves
a small web interface, split into a verified library and the program around it.

- `src/` — the library, verified with Verus:
  - `message_buffer` — the bounded first-in first-out buffer of messages
    from the desktop app to the web app (at most 1000, oldest dropped);
  - `actors` — the gradient actor's state and message handling, and the
    registry that starts the actor once and hands it out;
  - `requests` — the decisions of the HTTP endpoints (which field is read,
    400 / 404 refusals, the answer texts, what is forwarded to agents);
  - `system_info` — the CPU and GPU report built from `/proc/cpuinfo` and the
    DRM devices, and what the header shows of it (report text parsed with
    serde_json);
  - `vae` — the layer arithmetic of the variational autoencoder: channel and
    size schedules and convolution geometry, convolution output sizes, loss
    alignment, image decoding and resizing (image crate), batch layout;
  - `checkpoint` — checkpoint file paths, the metadata file's text, and
    what loading decides from what it finds;
  - `timeline` — the web page's wait for its timeline library and its items;
  - `text` — string operations stated over `Seq<char>`.
- `tests/` — tests of the library on concrete values.
- `app/` — the program: ractor actors, axum servers, file and system reads;
  the dioxus interface and the burn tensor code are behind the `desktop`,
  `web` and `server` features.
