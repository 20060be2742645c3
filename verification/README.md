# Slide Creator

Slide decks that are built by talking. A realtime voice model understands what the user
wants and asks for a build; a slide model then edits the deck through tool calls, and the
deck is shown, saved and exported as one self-contained page.

- `src/` is the library: the deck and its pages, the operations on it, the rounds of a
  build, the voice session, the settings, the projects, the libraries of reference files
  and images, and the answers of the relay. All of it is verified with Verus: every
  function states what it returns or changes, and the `law_` functions state what holds of
  several of them together.
- `tests/` runs the library on concrete values.
- `app/` is the desktop app around it: files, sockets, requests to the models, windows.

What the library takes on trust is what it calls in `serde_json`, in `url` and in the
standard library; each such item says so where it is declared, most of them in
`src/json.rs`.

The page assets of the app (`web/`), among them the prompt of the slide model
(`web/slide_prompt.txt`), are resources of the bundle.
