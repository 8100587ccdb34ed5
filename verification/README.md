# rtk_js

Compact reports from the output of JavaScript tooling: the tests that failed, from
Playwright; the files that need formatting, from Prettier.

`src/` is a library verified with Verus. Every function states the text it returns
over sequences of characters; `text` is the vocabulary, `chars` its executable side.

- `prettier`: Prettier's output.
- `command`, `playwright`: how Playwright is called, and what becomes of its output.
- `document`, `rich`, `excerpt`: the JSON report, and the blocks of failed tests.
- `summary`, `install`: what is read of plain text, with the patterns of `pattern`.
- `laws`: what holds of these taken together.

`app/` runs the tools and decodes JSON. It gets the services of the surrounding
program through the trait `Host`.
