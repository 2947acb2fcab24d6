# Domain scanner

A web server that looks for the subdomains of a domain and for the files of a
site, and streams what it finds to the browser.

- `src/` is the library: every rule and every decision of the two scans, with
  contracts that Verus proves. It makes no requests. A scan is a machine that is
  told what happened and says what to do next.
- `app/` is the server: it makes the requests and lookups that the library asks
  for, hands back what came of them, and sends the reports.
- `tests/` runs the library.

## Modules of the library

| Module | What it holds |
| --- | --- |
| `text`, `number` | trimming, splitting and searching; decimal numbers |
| `extension`, `content` | file extensions and the content types that fit them |
| `urls`, `resolve` | the parts of a URL, origins, directories; joining references |
| `html`, `references`, `json`, `manifest` | the links of a page |
| `options`, `brute` | what a scan is asked to do; the paths that are tried |
| `soft404`, `candidate` | which answers stand for a file that is there |
| `results`, `workers` | reports and counters; the workers that are still at it |
| `crawl`, `scan` | the file scan |
| `subdomain` | the subdomain scan |
| `rule_laws`, `scan_laws`, `link_laws`, `report_laws`, `end_laws`, `host_laws` | what holds of all inputs and of whole scans |

## What is not proved

`url`, `scraper` and `serde_json` parse URLs, pages and documents. Each call into
one of them stands behind a function whose contract is believed; its comment says
what is claimed of the call.
