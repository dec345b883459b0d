//! The table name of an entity: `#[sea_orm(table_name = "...")]` on the model
//! if it is given, otherwise the snake_case name of the model struct.

use vstd::prelude::*;
use crate::attrs::{ident_is, ident_matches, sea_orm_args, sea_orm_args_of, Attribute, AttributeView, MetaItem, MetaItemView};
use crate::naming::{heck_snake_case, snake_case};

verus! {

/// The first `table_name = "..."` value among the items.
pub open spec fn table_name_in_items(items: Seq<MetaItemView>) -> Option<Seq<char>>
    decreases items.len(),
{
    if items.len() == 0 {
        None
    } else {
        match items[0] {
            MetaItemView::NameValue { key, str_value } => if ident_is(key, "table_name"@)
                && str_value is Some {
                str_value
            } else {
                table_name_in_items(items.skip(1))
            },
            MetaItemView::Other => table_name_in_items(items.skip(1)),
        }
    }
}

/// The first `table_name = "..."` value in the `sea_orm` attributes.
pub open spec fn table_name_in_attrs(attrs: Seq<AttributeView>) -> Option<Seq<char>>
    decreases attrs.len(),
{
    if attrs.len() == 0 {
        None
    } else {
        let here = match sea_orm_args(attrs[0]) {
            Some(items) => table_name_in_items(items),
            None => None,
        };
        if here is Some {
            here
        } else {
            table_name_in_attrs(attrs.skip(1))
        }
    }
}

/// The table name of a model with these attributes and struct name.
pub open spec fn table_name_spec(attrs: Seq<AttributeView>, struct_name: Seq<char>) -> Seq<char> {
    match table_name_in_attrs(attrs) {
        Some(t) => t,
        None => heck_snake_case(struct_name),
    }
}

fn table_name_in_list(items: &Vec<MetaItem>) -> (res: Option<String>)
    ensures
        res.deep_view() == table_name_in_items(items.deep_view()),
{
    let mut k: usize = 0;
    assert(items.deep_view().skip(0) =~= items.deep_view());
    while k < items.len()
        invariant
            k <= items.len(),
            table_name_in_items(items.deep_view()) == table_name_in_items(
                items.deep_view().skip(k as int),
            ),
        decreases items.len() - k,
    {
        assert(items.deep_view().skip(k as int).skip(1) =~= items.deep_view().skip(k + 1));
        assert(items.deep_view().skip(k as int)[0] == items.deep_view()[k as int]);
        match &items[k] {
            MetaItem::NameValue { key, str_value } => {
                if ident_matches(key, "table_name") {
                    match str_value {
                        Some(v) => {
                            return Some(v.clone());
                        },
                        None => {},
                    }
                }
            },
            MetaItem::Other => {},
        }
        k = k + 1;
    }
    None
}

/// The table name of an entity: the `table_name` argument of its first
/// `#[sea_orm(...)]` attribute that has one, or else the snake_case form of
/// the model struct's name.
pub fn extract_table_name(attrs: &Vec<Attribute>, struct_name: &str) -> (res: String)
    ensures
        res@ == table_name_spec(attrs.deep_view(), struct_name@),
{
    let mut j: usize = 0;
    assert(attrs.deep_view().skip(0) =~= attrs.deep_view());
    while j < attrs.len()
        invariant
            j <= attrs.len(),
            table_name_in_attrs(attrs.deep_view()) == table_name_in_attrs(
                attrs.deep_view().skip(j as int),
            ),
        decreases attrs.len() - j,
    {
        assert(attrs.deep_view().skip(j as int).skip(1) =~= attrs.deep_view().skip(j + 1));
        assert(attrs.deep_view().skip(j as int)[0] == attrs.deep_view()[j as int]);
        match sea_orm_args_of(&attrs[j]) {
            Some(items) => {
                match table_name_in_list(&items) {
                    Some(t) => {
                        return t;
                    },
                    None => {},
                }
            },
            None => {},
        }
        j = j + 1;
    }
    // default to the snake_case form of the struct name
    snake_case(struct_name)
}


/// The item sets the table name: `table_name = "..."` with a string value.
pub open spec fn names_table(item: MetaItemView) -> bool {
    item matches MetaItemView::NameValue { key, str_value } && ident_is(key, "table_name"@)
        && str_value is Some
}

proof fn lemma_table_name_in_items(items: Seq<MetaItemView>)
    ensures
        (forall|k: int| 0 <= k < items.len() ==> !names_table(#[trigger] items[k]))
            ==> table_name_in_items(items) is None,
        forall|k: int|
            0 <= k < items.len() && names_table(#[trigger] items[k]) && (forall|j: int|
                0 <= j < k ==> !names_table(#[trigger] items[j])) ==> table_name_in_items(items)
                == items[k]->NameValue_str_value,
    decreases items.len(),
{
    if items.len() > 0 {
        let rest = items.skip(1);
        lemma_table_name_in_items(rest);
        assert(forall|k: int| 0 <= k < rest.len() ==> rest[k] == #[trigger] items[k + 1]);
        assert forall|k: int|
            0 <= k < items.len() && names_table(#[trigger] items[k]) && (forall|j: int|
                0 <= j < k ==> !names_table(#[trigger] items[j])) implies table_name_in_items(items)
            == items[k]->NameValue_str_value by {
            if k > 0 {
                assert(!names_table(items[0]));
                assert(rest[k - 1] == items[k]);
                assert forall|j: int| 0 <= j < k - 1 implies !names_table(#[trigger] rest[j]) by {
                    assert(rest[j] == items[j + 1]);
                }
            }
        }
        if forall|k: int| 0 <= k < items.len() ==> !names_table(#[trigger] items[k]) {
            assert(!names_table(items[0]));
            assert forall|k: int| 0 <= k < rest.len() implies !names_table(#[trigger] rest[k]) by {
                assert(rest[k] == items[k + 1]);
            }
        }
    }
}

proof fn lemma_table_name_in_attrs_none(attrs: Seq<AttributeView>)
    requires
        forall|i: int|
            0 <= i < attrs.len() ==> (sea_orm_args(#[trigger] attrs[i]) matches Some(items) ==> forall|k: int|
                0 <= k < items.len() ==> !names_table(#[trigger] items[k])),
    ensures
        table_name_in_attrs(attrs) is None,
    decreases attrs.len(),
{
    if attrs.len() > 0 {
        let rest = attrs.skip(1);
        assert forall|i: int| 0 <= i < rest.len() implies (sea_orm_args(#[trigger] rest[i]) matches Some(items)
            ==> forall|k: int| 0 <= k < items.len() ==> !names_table(#[trigger] items[k])) by {
            assert(rest[i] == attrs[i + 1]);
        }
        lemma_table_name_in_attrs_none(rest);
        match sea_orm_args(attrs[0]) {
            Some(items) => lemma_table_name_in_items(items),
            None => {},
        }
    }
}

/// The table name: the value of the first `table_name = "..."` item of the
/// first `sea_orm` attribute that has one, and the struct name in
/// snake_case when no `sea_orm` attribute sets it.
pub proof fn lemma_table_name(attrs: Seq<AttributeView>, struct_name: Seq<char>)
    ensures
        (forall|i: int|
            0 <= i < attrs.len() ==> (sea_orm_args(#[trigger] attrs[i]) matches Some(items) ==> forall|k: int|
                0 <= k < items.len() ==> !names_table(#[trigger] items[k]))) ==> table_name_spec(
            attrs,
            struct_name,
        ) == heck_snake_case(struct_name),
        (attrs.len() > 0 && (sea_orm_args(attrs[0]) matches Some(items) && items.len() > 0
            && names_table(items[0]))) ==> table_name_spec(attrs, struct_name) == sea_orm_args(
            attrs[0],
        ).unwrap()[0]->NameValue_str_value.unwrap(),
{
    if forall|i: int|
        0 <= i < attrs.len() ==> (sea_orm_args(#[trigger] attrs[i]) matches Some(items) ==> forall|k: int|
            0 <= k < items.len() ==> !names_table(#[trigger] items[k])) {
        lemma_table_name_in_attrs_none(attrs);
    }
    if attrs.len() > 0 {
        match sea_orm_args(attrs[0]) {
            Some(items) => lemma_table_name_in_items(items),
            None => {},
        }
    }
}

} // verus!
