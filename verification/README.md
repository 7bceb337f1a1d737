# calebhamilton_org

The logic of a personal website with a markdown blog, verified with Verus,
and the Leptos/Axum server around it.

- `src/` is the verified library:
  - `text` — decimal numbers, digit grouping with commas, trimming;
  - `time` — post dates (`Timestamp`) and how chrono writes them;
  - `markdown` — comrak's parse of a post as a flat list of nodes, and its HTML rendering;
  - `counter` — a post's length and word count;
  - `front_matter` — finding the front matter and cutting out its TOML text;
  - `errors` — loading and lookup errors;
  - `post` — post metadata, rendering a post, which posts are listed and in which order;
  - `post_meta` — the details line and reading time of a post;
  - `feed` — the RSS feed;
  - `pages` — links and the decisions of the blog and post pages.
- `app/` is the web server: reading the `posts` directory and the
  highlighting themes, serde's reading of front matter, the Leptos components
  and the Axum routes.
- `tests/` runs the library on concrete posts.
