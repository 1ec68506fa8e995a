# scroll

A web browser for the terminal. Pages are rendered as text with numbered links, forms can be
filled in, and tabs are kept in sets, each with its own cookies.

The library in `src/` holds the browser's logic, verified with Verus:

- rendering: `dom`, `canvas`, `renderer`, `table`, `colors`, `highlight`, with what holds of
  every page in `render_laws`
- scripts: `scripts`, `js`, `rsc`, `runs`, with what holds of every run in `runs` and `js_laws`
- loading: `address`, `fetcher`, `cookies`, `firefox`, `adblock`, `images`, `servo_daemon`
- browsing: `tab`, `browser`, `pages`, `forms`, `search`, `passwords`, `commands`
- the screen: `bars`, `prefs`, `popup`, `help`, `listings`, `assistant`
- settings and files: `config`, `stored`
- texts, numbers and maps: `text`, `number`, `strmap`, `style`, `json`

What is believed rather than proved are the contracts of functions of other crates. Each stands
beside the code that needs it, with a comment that says what it claims.

The program in `app/` reads keys, draws the screen, reads and writes files, runs scripts in an
engine and makes requests. What a key, a page or an answer leads to, it asks the library.
