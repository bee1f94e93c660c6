# cooklang_bindings

The data model that the Cooklang bindings hand to foreign-language callers,
with the rules that build it, verified with Verus.

- `src/` — the verified library:
  - `extensions.rs`: the extension switches and their conversion to and from
    cooklang's flag set;
  - `diagnostics.rs`: spans, diagnostics, reports and the queries over them;
  - `recipe.rs`: sections, blocks, steps and step items, built from the
    parser's section layout;
  - `reference.rs`: references to other recipe files and their paths;
  - `relation.rs`: definition / reference relations between components;
  - `component.rs`: ingredients, cookware, timers;
  - `quantity.rs`: amounts, values, and grouped quantities (merged by unit
    and kind of value);
  - `ingredient_list.rs`: grouped quantities by ingredient name;
  - `metadata.rs`: metadata keys, servings, names with URLs, times.
  Numbers in quantities are a type parameter; where two numbers are summed,
  the caller's addition is used.
- `app/` — the UniFFI surface: copies of the types with the UniFFI derives,
  the values with `f64` numbers, and the unpacking of cooklang's parse output
  into the library's input types.
- `tests/` — tests of the library.
