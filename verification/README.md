# HTML to PDF

A web service that turns web pages and raw HTML into PDF documents, with its logic verified by
Verus.

- `src/` is the verified library.
  - `text`: trimming, splitting, matching, decimal numbers.
  - `network`, `url_parts`, `models`: which URLs may be visited, and the rules for requests.
  - `handlers`: from a request to a reply, and file names for documents.
  - `page_setup`: paper formats and margins.
  - `pdf_service`: attempts, waits between them, the stages of rendering, the limit on size.
  - `browser`: finding an executable, the life of a browser, the pool and its circuit breaker.
  - `config`, `error`: environment variables and messages.
- `tests/` runs the library.
- `app/` is the service around it: it resolves names, drives the browsers and speaks HTTP.

Whatever waits or does I/O is a step function in the library: it takes what happened last and
answers what to do next, and `app/` does it. Lengths are hundredths of an inch and times are
nanoseconds, so that the library needs no floating point. Each function whose contract is taken on
trust says so in its doc comment and names what it calls.
