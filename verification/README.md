# llpha

A lightweight crawling toolkit and an ImgBB album workflow. The library in `src/` is
written in Verus and every function in it is verified; each carries a `requires`/`ensures`
contract, except the constructors of the two stateless HTML helpers (`HtmlExtractor` and
`HtmlParser`), which have nothing to state. The program in `app/` is the `imgbb` command line around it: argument parsing,
configuration and session files, logging, HTTP with `reqwest`, and concurrency with `tokio`.

## Library layout

| Module | What it holds |
| --- | --- |
| `text`, `path`, `form`, `url`, `time` | Character-level text helpers, path joining, form encoding, URLs through `reqwest::Url`, durations |
| `analysis` | A JSON value model with pointer lookups, CSS selection through `scraper`, and page extraction (title, text, links) |
| `downloader` | Header lists, requests and responses, browser headers, retry policy, proxy rotation, ranged-download planning, progress |
| `engine` | Tasks, actions, the task graph, the priority scheduler, the task pool, pages, link generation, and the workflow engine's bookkeeping |
| `plugin` | Plugin hooks and their registry |
| `fake` | Browser header profiles and the strategies that apply them |
| `websearch` | Search configuration, page URLs and requests for Bing, DuckDuckGo and SearXNG, result parsing, the paging state of a search, and the aggregate merge |
| `ibb` | ImgBB albums, profiles, login and cookies, management forms and answers, file naming, and session helpers |
| `config`, `error`, `collections`, `user_agents` | Configuration defaults, error kinds, an ordered string map, and a user-agent table |

Trusted boundaries are small wrappers marked `#[verifier::external_body]`: URL parsing and
editing (`reqwest::Url`), CSS selection (`scraper`), a random index (`rand`), `Duration`
conversions, `String::push`, `{:?}` formatting of a string, and `Path::exists`. Each one's
doc comment says what its contract claims. Where an answer depends on the disk (free file
names), a verified function takes the answers as an argument and the contract states the
result for any answers.

Laws that relate several calls are public proof functions named `law_*` (and a few
`lemma_*`), next to the functions they speak of. Invariants that every value of a type keeps
(a task graph's numbering, a user-agent table's distinct names, a search builder that always
builds, a random header strategy that is never empty, a ranged download with one part file per
range) are type invariants.

## Program layout

`app/main.rs` dispatches the commands; `app/flows.rs` runs the ImgBB flows, `app/search.rs`
the web searches (SearXNG instances come from `LLPHA_SEARXNG_URLS`, else the library's
default instance), `app/workflow.rs` a crawl with the workflow engine, `app/http.rs` the HTTP
client with streamed, retried and ranged downloads driven by the library's download state
machines, `app/progress.rs` the asynchronous progress callbacks, `app/cli.rs` the `clap`
definitions, and `app/convert.rs` the conversions between the library's types and
`serde`/`reqwest` values.
