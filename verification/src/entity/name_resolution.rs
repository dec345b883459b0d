//! Entity name resolution: one entity's names in every naming convention
//! (entity, snake_case, table, module), derived from a single source so that
//! they stay consistent with each other.

use vstd::prelude::*;
use crate::naming::{heck_pascal_case, heck_snake_case, pascal_case, snake_case};
use crate::text::{concat, ends_with_char, without_last_char};

verus! {

/// The naming conventions of one entity.
#[derive(Debug, Clone)]
pub struct EntityNameContext {
    /// The entity name in PascalCase (e.g. "User", "Post")
    pub entity_name: String,
    /// The entity name in snake_case (e.g. "user", "post")
    pub entity_name_snake: String,
    /// The table name (e.g. "users", "posts")
    pub table_name: String,
    /// The module name (e.g. "user", "post")
    pub module_name: String,
}

/// The names of an entity as character sequences.
pub struct EntityNames {
    pub entity_name: Seq<char>,
    pub entity_name_snake: Seq<char>,
    pub table_name: Seq<char>,
    pub module_name: Seq<char>,
}

impl View for EntityNameContext {
    type V = EntityNames;

    open spec fn view(&self) -> EntityNames {
        EntityNames {
            entity_name: self.entity_name@,
            entity_name_snake: self.entity_name_snake@,
            table_name: self.table_name@,
            module_name: self.module_name@,
        }
    }
}

/// The singular of a table name: one trailing `s` is dropped, unless the
/// name is that `s` alone.
pub open spec fn singular_of_table(table: Seq<char>) -> Seq<char> {
    if table.len() > 1 && table.last() == 's' {
        table.drop_last()
    } else {
        table
    }
}

/// The plural of a snake_case name: an `s` appended.
pub open spec fn plural_of_snake(snake: Seq<char>) -> Seq<char> {
    snake.push('s')
}

/// The names resolved from a table name.
pub open spec fn names_from_table(table: Seq<char>) -> EntityNames {
    let snake = singular_of_table(table);
    EntityNames {
        entity_name: heck_pascal_case(snake),
        entity_name_snake: snake,
        table_name: table,
        module_name: snake,
    }
}

/// The names resolved from a PascalCase entity name.
pub open spec fn names_from_entity(entity: Seq<char>) -> EntityNames {
    let snake = heck_snake_case(entity);
    EntityNames {
        entity_name: entity,
        entity_name_snake: snake,
        table_name: plural_of_snake(snake),
        module_name: snake,
    }
}

/// The names resolved from a snake_case module name.
pub open spec fn names_from_module(module: Seq<char>) -> EntityNames {
    EntityNames {
        entity_name: heck_pascal_case(module),
        entity_name_snake: module,
        table_name: plural_of_snake(module),
        module_name: module,
    }
}

/// `s` with an `s` appended.
fn append_s(s: &str) -> (res: String)
    ensures
        res@ == plural_of_snake(s@),
{
    let res = concat(s, "s");
    proof {
        reveal_strlit("s");
        assert(res@ =~= s@.push('s'));
    }
    res
}

impl EntityNameContext {
    /// Resolves the names from a table name, which is typically plural
    /// ("users" gives the entity "User", snake_case and module "user").
    pub fn from_table_name(table_name: &str) -> (res: Self)
        ensures
            res@ == names_from_table(table_name@),
    {
        let entity_name_snake = if ends_with_char(table_name, 's') && table_name.unicode_len() > 1 {
            without_last_char(table_name)
        } else {
            String::from_str(table_name)
        };
        let entity_name = pascal_case(entity_name_snake.as_str());
        let module_name = entity_name_snake.clone();
        EntityNameContext {
            entity_name,
            entity_name_snake,
            table_name: String::from_str(table_name),
            module_name,
        }
    }

    /// Resolves the names from a PascalCase entity name ("User" gives
    /// "user" and the table "users").
    pub fn from_entity_name(entity_name: &str) -> (res: Self)
        ensures
            res@ == names_from_entity(entity_name@),
    {
        let entity_name_snake = snake_case(entity_name);
        let table_name = append_s(entity_name_snake.as_str());
        let module_name = entity_name_snake.clone();
        EntityNameContext {
            entity_name: String::from_str(entity_name),
            entity_name_snake,
            table_name,
            module_name,
        }
    }

    /// Resolves the names from a snake_case module name ("user" gives the
    /// entity "User" and the table "users").
    pub fn from_module_name(module_name: &str) -> (res: Self)
        ensures
            res@ == names_from_module(module_name@),
    {
        let entity_name = pascal_case(module_name);
        let table_name = append_s(module_name);
        EntityNameContext {
            entity_name,
            entity_name_snake: String::from_str(module_name),
            table_name,
            module_name: String::from_str(module_name),
        }
    }

    /// The entity name used for registry lookups (PascalCase).
    pub fn registry_name(&self) -> (res: &str)
        ensures
            res@ == self.entity_name@,
    {
        self.entity_name.as_str()
    }

    /// The entity name used for fetcher lookups (snake_case).
    pub fn fetcher_name(&self) -> (res: &str)
        ensures
            res@ == self.entity_name_snake@,
    {
        self.entity_name_snake.as_str()
    }

    /// The table name used for database operations.
    pub fn table_name(&self) -> (res: &str)
        ensures
            res@ == self.table_name@,
    {
        self.table_name.as_str()
    }

    /// The module name used for module paths.
    pub fn module_name(&self) -> (res: &str)
        ensures
            res@ == self.module_name@,
    {
        self.module_name.as_str()
    }
}

/// Whichever way the names are resolved, the module name is the snake_case
/// entity name.
pub proof fn lemma_module_name_is_snake_name(name: Seq<char>)
    ensures
        names_from_table(name).module_name == names_from_table(name).entity_name_snake,
        names_from_entity(name).module_name == names_from_entity(name).entity_name_snake,
        names_from_module(name).module_name == names_from_module(name).entity_name_snake,
{
}

/// Resolving from the table name that an entity name resolves to gives back
/// the same snake_case name, module name and table name, whenever the
/// snake_case name is not empty.
pub proof fn lemma_entity_table_round_trip(entity: Seq<char>)
    requires
        heck_snake_case(entity).len() > 0,
    ensures
        ({
            let from_entity = names_from_entity(entity);
            let back = names_from_table(from_entity.table_name);
            &&& back.entity_name_snake == from_entity.entity_name_snake
            &&& back.module_name == from_entity.module_name
            &&& back.table_name == from_entity.table_name
            &&& back.entity_name == heck_pascal_case(from_entity.entity_name_snake)
        }),
{
    let snake = heck_snake_case(entity);
    assert(plural_of_snake(snake).drop_last() =~= snake);
}

/// Resolving from the table name that a module name resolves to gives back
/// every one of the same names, whenever the module name is not empty.
pub proof fn lemma_module_table_round_trip(module: Seq<char>)
    requires
        module.len() > 0,
    ensures
        names_from_table(names_from_module(module).table_name) == names_from_module(module),
{
    assert(plural_of_snake(module).drop_last() =~= module);
}

/// The table name resolved from a snake_case name is that name plural, and
/// dropping the plural `s` gives the name back.
pub proof fn lemma_table_name_singular(snake: Seq<char>)
    requires
        snake.len() > 0,
    ensures
        singular_of_table(plural_of_snake(snake)) == snake,
        names_from_module(snake).table_name == names_from_table(plural_of_snake(snake)).table_name,
{
    assert(plural_of_snake(snake).drop_last() =~= snake);
}

} // verus!
