//! The keys each relation fetcher works with: the foreign key column it
//! filters on, the target key it looks rows up by, and, for a composite
//! relation, every key column.

use vstd::prelude::*;
use crate::entity::code_gen::{
    belongs_to_key_column, belongs_to_key_column_spec, target_entity_name, target_entity_name_spec,
    target_primary_key, target_primary_key_spec,
};
use crate::entity::types::{Relation, RelationKind, RelationView};
use crate::naming::{heck_pascal_case, heck_snake_case, pascal_case, snake_case};

verus! {

/// The keys of one relation fetcher.
#[derive(Debug)]
pub struct FetcherPlan {
    /// The relation name as the query layer knows it (snake_case).
    pub relation_name: String,
    /// The foreign key column: the first of the relation's foreign key
    /// columns, else its single one; `None` when it names none.
    pub foreign_key_column: Option<String>,
    /// That column in snake_case.
    pub foreign_key_column_snake: Option<String>,
    /// The Column variant of the target that the fetcher filters on: for
    /// belongs-to the target's key column, otherwise the foreign key column
    /// in PascalCase.  `None` without a foreign key column.
    pub lookup_column: Option<String>,
    /// The target key that rows are looked up and paged by.
    pub target_primary_key: Option<String>,
    /// That key as a Column variant (PascalCase).
    pub target_primary_key_column: Option<String>,
    /// The target entity's name.
    pub target_entity: Option<String>,
    /// The relation has a composite key.
    pub is_composite: bool,
    /// For a composite relation with foreign key columns, each of them as a
    /// Column variant; otherwise empty.
    pub composite_columns: Vec<String>,
}

pub struct FetcherPlanView {
    pub relation_name: Seq<char>,
    pub foreign_key_column: Option<Seq<char>>,
    pub foreign_key_column_snake: Option<Seq<char>>,
    pub lookup_column: Option<Seq<char>>,
    pub target_primary_key: Option<Seq<char>>,
    pub target_primary_key_column: Option<Seq<char>>,
    pub target_entity: Option<Seq<char>>,
    pub is_composite: bool,
    pub composite_columns: Seq<Seq<char>>,
}

impl DeepView for FetcherPlan {
    type V = FetcherPlanView;

    open spec fn deep_view(&self) -> FetcherPlanView {
        FetcherPlanView {
            relation_name: self.relation_name@,
            foreign_key_column: self.foreign_key_column.deep_view(),
            foreign_key_column_snake: self.foreign_key_column_snake.deep_view(),
            lookup_column: self.lookup_column.deep_view(),
            target_primary_key: self.target_primary_key.deep_view(),
            target_primary_key_column: self.target_primary_key_column.deep_view(),
            target_entity: self.target_entity.deep_view(),
            is_composite: self.is_composite,
            composite_columns: self.composite_columns.deep_view(),
        }
    }
}

/// The foreign key column of a relation: the first of its foreign key
/// columns, else its single one.
pub open spec fn fetcher_foreign_key_column(r: RelationView) -> Option<Seq<char>> {
    if r.foreign_key_columns.len() > 0 {
        Some(r.foreign_key_columns[0])
    } else {
        r.foreign_key_column
    }
}

pub open spec fn fetcher_plan_spec(r: RelationView, current_pk: Seq<char>) -> FetcherPlanView {
    let fk = fetcher_foreign_key_column(r);
    let target_pk = target_primary_key_spec(r, current_pk);
    FetcherPlanView {
        relation_name: heck_snake_case(r.name),
        foreign_key_column: fk,
        foreign_key_column_snake: match fk {
            Some(c) => Some(heck_snake_case(c)),
            None => None,
        },
        lookup_column: match fk {
            Some(c) => Some(
                if r.kind == RelationKind::BelongsTo {
                    belongs_to_key_column_spec(r)
                } else {
                    heck_pascal_case(c)
                },
            ),
            None => None,
        },
        target_primary_key: target_pk,
        target_primary_key_column: match target_pk {
            Some(k) => Some(heck_pascal_case(k)),
            None => None,
        },
        target_entity: target_entity_name_spec(r),
        is_composite: r.is_composite,
        composite_columns: if r.is_composite && r.foreign_key_columns.len() > 0 {
            r.foreign_key_columns.map_values(|c: Seq<char>| heck_pascal_case(c))
        } else {
            Seq::empty()
        },
    }
}

/// The names in PascalCase, in order.
fn pascal_all(names: &Vec<String>) -> (res: Vec<String>)
    ensures
        res.deep_view() == names.deep_view().map_values(|c: Seq<char>| heck_pascal_case(c)),
{
    let mut res: Vec<String> = Vec::new();
    let mut i: usize = 0;
    while i < names.len()
        invariant
            i <= names.len(),
            res.len() == i,
            forall|k: int| 0 <= k < i ==> (#[trigger] res[k])@ == heck_pascal_case(names[k]@),
        decreases names.len() - i,
    {
        res.push(pascal_case(names[i].as_str()));
        i = i + 1;
    }
    assert(res.deep_view() =~= names.deep_view().map_values(|c: Seq<char>| heck_pascal_case(c)));
    res
}

/// The keys of the fetcher of one relation of an entity whose primary key
/// is `current_pk`.
pub fn plan_fetcher(relation: &Relation, current_pk: &str) -> (res: FetcherPlan)
    ensures
        res.deep_view() == fetcher_plan_spec(relation.deep_view(), current_pk@),
{
    let fk: Option<String> = if relation.foreign_key_columns.len() > 0 {
        Some(relation.foreign_key_columns[0].clone())
    } else {
        match &relation.foreign_key_column {
            Some(c) => Some(c.clone()),
            None => None,
        }
    };
    let (fk_snake, lookup) = match &fk {
        Some(c) => {
            let lookup = if relation.kind == RelationKind::BelongsTo {
                belongs_to_key_column(relation)
            } else {
                pascal_case(c.as_str())
            };
            (Some(snake_case(c.as_str())), Some(lookup))
        },
        None => (None, None),
    };
    let target_pk = target_primary_key(relation, current_pk);
    let target_pk_column = match &target_pk {
        Some(k) => Some(pascal_case(k.as_str())),
        None => None,
    };
    let composite_columns = if relation.is_composite && relation.foreign_key_columns.len() > 0 {
        pascal_all(&relation.foreign_key_columns)
    } else {
        Vec::new()
    };
    let plan = FetcherPlan {
        relation_name: snake_case(relation.name.as_str()),
        foreign_key_column: fk,
        foreign_key_column_snake: fk_snake,
        lookup_column: lookup,
        target_primary_key: target_pk,
        target_primary_key_column: target_pk_column,
        target_entity: target_entity_name(relation),
        is_composite: relation.is_composite,
        composite_columns,
    };
    proof {
        if !(relation.is_composite && relation.foreign_key_columns.len() > 0) {
            assert(plan.composite_columns.deep_view() =~= Seq::<Seq<char>>::empty());
        }
    }
    plan
}

/// The keys of the fetcher of each relation, in order.
pub fn plan_fetchers(relations: &Vec<Relation>, current_pk: &str) -> (res: Vec<FetcherPlan>)
    ensures
        res.deep_view() == Seq::new(
            relations.len() as nat,
            |i: int| fetcher_plan_spec(relations.deep_view()[i], current_pk@),
        ),
{
    let mut res: Vec<FetcherPlan> = Vec::new();
    let mut i: usize = 0;
    while i < relations.len()
        invariant
            i <= relations.len(),
            res.len() == i,
            forall|k: int|
                0 <= k < i ==> (#[trigger] res[k]).deep_view() == fetcher_plan_spec(
                    relations.deep_view()[k],
                    current_pk@,
                ),
        decreases relations.len() - i,
    {
        res.push(plan_fetcher(&relations[i], current_pk));
        i = i + 1;
    }
    assert(res.deep_view() =~= Seq::new(
        relations.len() as nat,
        |i: int| fetcher_plan_spec(relations.deep_view()[i], current_pk@),
    ));
    res
}


/// The keys of a relation fetcher: it filters on the relation's first
/// foreign key column (else its single one); for belongs-to it looks the
/// target up by the target's key column, and otherwise by that foreign key
/// column in PascalCase; it has a lookup column exactly when it has a foreign
/// key column; its target key is the relation's primary key field, else
/// (for has-many and has-one) the current entity's key; a composite relation
/// filters on every foreign key column in PascalCase, in order.
pub proof fn lemma_fetcher_keys(r: RelationView, current_pk: Seq<char>)
    ensures
        ({
            let f = fetcher_plan_spec(r, current_pk);
            &&& f.relation_name == heck_snake_case(r.name)
            &&& r.foreign_key_columns.len() > 0 ==> f.foreign_key_column == Some(
                r.foreign_key_columns[0],
            )
            &&& r.foreign_key_columns.len() == 0 ==> f.foreign_key_column == r.foreign_key_column
            &&& (f.lookup_column is Some <==> f.foreign_key_column is Some)
            &&& (f.foreign_key_column_snake is Some <==> f.foreign_key_column is Some)
            &&& (f.foreign_key_column is Some && r.kind != RelationKind::BelongsTo) ==> f.lookup_column
                == Some(heck_pascal_case(f.foreign_key_column.unwrap()))
            &&& (f.foreign_key_column is Some && r.kind == RelationKind::BelongsTo) ==> f.lookup_column
                == Some(belongs_to_key_column_spec(r))
            &&& f.foreign_key_column is Some ==> f.foreign_key_column_snake == Some(
                heck_snake_case(f.foreign_key_column.unwrap()),
            )
            &&& (r.primary_key_field is Some ==> f.target_primary_key == r.primary_key_field)
            &&& (r.primary_key_field is None && r.kind != RelationKind::BelongsTo)
                ==> f.target_primary_key == Some(current_pk)
            &&& (f.target_primary_key_column is Some <==> f.target_primary_key is Some)
            &&& f.target_primary_key is Some ==> f.target_primary_key_column == Some(
                heck_pascal_case(f.target_primary_key.unwrap()),
            )
            &&& f.is_composite == r.is_composite
            &&& (r.is_composite && r.foreign_key_columns.len() > 0) ==> (f.composite_columns.len()
                == r.foreign_key_columns.len() && forall|k: int|
                0 <= k < f.composite_columns.len() ==> #[trigger] f.composite_columns[k]
                    == heck_pascal_case(r.foreign_key_columns[k]))
            &&& !(r.is_composite && r.foreign_key_columns.len() > 0) ==> f.composite_columns.len()
                == 0
        }),
{
}

} // verus!
