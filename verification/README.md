# Abuse & Scraping Classifier

A gateway policy that reads the shape of a client's recent requests and decides whether the
client uses the API normally. Where the traffic is unusual, or a verdict is still fresh, it
tells the verdict to the upstream in the header `x-jev-abuse`. Verdicts that the configuration
lists are rejected with HTTP 429.

- `src/` is the library, written in Verus: all counting and deciding, with contracts and
  proofs.
  - `screen`: the window of request records, its summary, path templates, verdicts.
  - `jev`: requests to the judge, and how its replies are read.
  - `policy`: what is done with one exchange, from request to response.
  - `json`, `text`, `double`: documents, text and confidences. `json` and `text` also hold the
    declarations that are trusted about `serde_json` and `std`.
  - `config`, `common`: the configuration, and the modes of the policy.
- `app/` runs the library in the gateway: headers, cache, clock and the call to the judge.
- `tests/` runs the library on concrete values.

Proof functions named `law_*` state what holds across several functions, such as that a judge
that fails never leads to a rejection.
