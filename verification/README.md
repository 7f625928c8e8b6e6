# catalogue

The catalogue of preserved game objects behind a GraphQL API, as a Verus-verified
library (`src/`) with a thin server around it (`app/`).

- `src/text.rs`: characters, trimming, unsigned decimal numbers.
- `src/codec.rs`: opaque cursors (URL-safe base64 over UTF-8 text).
- `src/object.rs`: coded enumerations, locales, localized fields, objects and
  their classification (type, bundle).
- `src/schema.rs`: the database query (match stage, sort, keyset cursor),
  facet counts, and assembled pages.
- `src/meili.rs`: search-index documents, requests, facets, result pages, and
  the batching of the initial synchronisation.
- `src/collection.rs`, `src/auth.rs`, `src/api.rs`: collections, user tokens,
  and database indexes.
- `app/`: HTTP, GraphQL, MongoDB and Meilisearch plumbing.
