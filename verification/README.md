# privoxy

The request, response, action and filter logic of a filtering web proxy,
written in Verus and verified against its contracts.

Layout:

- `src/` — the verified library. Each module states its behaviour over
  mathematical models (`Seq`, `Map`, spec functions and views) and proves it.
  - `text`, `util`, `encode`: strings, content types, URL and HTML encoding.
  - `http`: request and response heads, header lists, serialising.
  - `config`, `forwarding`, `loaders`: the configuration file, the paths
    it names, forwarding rules, access lists, actions and trust files.
  - `action_string`, `action_rules_*`, `action`: action tokens, URL and tag
    matching, merging of actions and the canned responses.
  - `content_filter`, `filter`: filter files, filter jobs, URL patterns,
    block lists, access control lists and port lists.
  - `deanimate`, `compression`: GIF deanimation and (de)compression.
  - `cgiedit`, `cgi`, `template`, `pages`: the action editor, the web
    interface's routing, parameters and symbols, its page templates and its
    fixed pages.
  - `header_actions`, `filter_actions`: the actions that rewrite headers,
    and the filters and taggers run on headers and bodies.
  - `connection`, `server`: what a connection decides — answer at once or
    forward, through which hop, how often to retry, what the actions and
    filters make of the response — and whether an accepted connection is
    served.
  - `client_tags`, `state`, `errlog`, `feature`, `constants`.
  - `bindings`: the calls into std and the outside crates (regex, flate2,
    httparse, base64, chrono, rand), each with the contract it is trusted for.
- `tests/` — tests of the library on concrete values.
- `app/` — the program around the library: command line, file reading,
  clocks, sockets and a blocking server loop that asks the library for every
  decision.
