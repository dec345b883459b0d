# caustics_macros

The verified core of the caustics entity macros.

`src/` is a Verus library:

- `attrs` — the parts of a derive input the macros read, as plain values
  (attributes and their `name = "value"` arguments, model fields, relation
  enum variants);
- `caustics` — the `Caustics` derive: its input read with `syn`, the
  per-field Column variants, the entity registry and the client's accessor
  names;
- `naming` — case conversions delegated to `heck`, `Inflector` and std;
- `text` — verified string helpers (`::` separators, substring search, joining);
- `entity::name_resolution` — one entity's names in every convention;
- `entity::types` — fields and relations, with key and field-name helpers;
- `entity::relation_extraction` — relations read from `#[sea_orm(...)]`
  attributes of the relation enum;
- `entity` — the single-key relation model;
- `entity::table_name` — the table name of an entity;
- `entity::relation_submodules` — what each relation submodule offers;
- `entity::code_gen` — the decisions behind the generated entity code;
- `entity::field_plan` — field kinds, primary keys, the create plan, atomic
  updates and unique-where parameters;
- `entity::fetcher_plan` — the keys of each relation fetcher;
- `entity::entity_plan` — the plan of one entity's generated module, made
  from those decisions.

`app/` is the macro side: it converts `syn` trees into the library's input
types (attribute arguments travel as their token text, which the library
reads with `syn`) and writes the generated code with `quote` from the
library's plans.  It writes the entity module's parameter enums, `Create`
with the client's `create` and `create_many`, the relation fetcher,
`ModelWithRelations`, the relation submodules and the lookups.  Most of a
full entity module is not generated: the client's find, update, delete,
aggregate and group-by builders and the where-parameter operations.
