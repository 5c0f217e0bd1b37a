//! User-defined categories: creation, renaming and deletion, where
//! deleting a category clears the reference on every time entry that used
//! it without touching the entries themselves.

use vstd::prelude::*;

use crate::db::{
    Store, category_rows, db_clear_category_refs, db_delete_category, db_fetch_categories,
    db_insert_category, db_update_category, row_without_category, rows_match_category,
    same_category_table, same_idle_table, same_process_table, same_screenshot_table,
    same_time_table, same_window_table, store_unchanged, time_rows,
};
use crate::errors::{AppError, AppResult};
use crate::time_entries::{clone_opt_string, label_blank, text_is_blank};
use crate::types::{Category, CategoryInput, opt_str_view};

verus! {

/// Reads every stored category.
pub fn get_categories_impl(s: &Store) -> (r: AppResult<Vec<Category>>)
    ensures
        r matches Ok(v) ==> rows_match_category(v@, category_rows(s.conn)),
        r is Err ==> r matches Err(AppError::Storage(_)),
{
    db_fetch_categories(s)
}

/// Creates a category.
///
/// Fails with `Validation` exactly when the name is blank; on success the
/// store gains exactly this category under a fresh id.
pub fn create_category_impl(s: &mut Store, category: &CategoryInput) -> (r: AppResult<Category>)
    ensures
        (r matches Err(AppError::Validation(_))) <==> label_blank(category.name@),
        r is Err ==> (r matches Err(AppError::Validation(_))) || (r matches Err(
            AppError::Storage(_),
        )),
        r matches Ok(c) ==> {
            &&& c.id > 0
            &&& !category_rows(old(s).conn).dom().contains(c.id as int)
            &&& c.name@ == category.name@
            &&& opt_str_view(c.color) == opt_str_view(category.color)
            &&& category_rows(final(s).conn) == category_rows(old(s).conn).insert(
                c.id as int,
                (category.name@, opt_str_view(category.color)),
            )
            &&& same_time_table(*old(s), *final(s))
            &&& same_window_table(*old(s), *final(s))
            &&& same_screenshot_table(*old(s), *final(s))
            &&& same_idle_table(*old(s), *final(s))
            &&& same_process_table(*old(s), *final(s))
        },
        r is Err ==> store_unchanged(*old(s), *final(s)),
{
    if text_is_blank(category.name.as_str()) {
        return Err(AppError::Validation(String::from_str("Category name cannot be empty")));
    }
    match db_insert_category(s, &category.name, &category.color) {
        Ok(id) => Ok(
            Category {
                id,
                name: category.name.clone(),
                color: clone_opt_string(&category.color),
            },
        ),
        Err(e) => Err(e),
    }
}

/// Renames or recolors the category with the given id.
///
/// Fails with `Validation` exactly when the new name is blank and with
/// `NotFound` when the id is not stored; on success exactly that row now
/// carries the new name and color.
pub fn update_category_impl(s: &mut Store, id: i64, category: &CategoryInput) -> (r: AppResult<
    Category,
>)
    ensures
        (r matches Err(AppError::Validation(_))) <==> label_blank(category.name@),
        r matches Err(AppError::NotFound(_)) ==> !category_rows(old(s).conn).dom().contains(
            id as int,
        ),
        !category_rows(old(s).conn).dom().contains(id as int) ==> !(r is Ok),
        r is Err ==> (r matches Err(AppError::Validation(_))) || (r matches Err(
            AppError::NotFound(_),
        )) || (r matches Err(AppError::Storage(_))),
        r matches Ok(c) ==> {
            &&& category_rows(old(s).conn).dom().contains(id as int)
            &&& c.id == id
            &&& c.name@ == category.name@
            &&& opt_str_view(c.color) == opt_str_view(category.color)
            &&& category_rows(final(s).conn) == category_rows(old(s).conn).insert(
                id as int,
                (category.name@, opt_str_view(category.color)),
            )
            &&& same_time_table(*old(s), *final(s))
            &&& same_window_table(*old(s), *final(s))
            &&& same_screenshot_table(*old(s), *final(s))
            &&& same_idle_table(*old(s), *final(s))
            &&& same_process_table(*old(s), *final(s))
        },
        r is Err ==> store_unchanged(*old(s), *final(s)),
{
    if text_is_blank(category.name.as_str()) {
        return Err(AppError::Validation(String::from_str("Category name cannot be empty")));
    }
    match db_update_category(s, id, &category.name, &category.color) {
        Ok(n) => {
            if n == 0 {
                Err(AppError::NotFound(String::from_str("Category not found")))
            } else {
                Ok(
                    Category {
                        id,
                        name: category.name.clone(),
                        color: clone_opt_string(&category.color),
                    },
                )
            }
        },
        Err(e) => Err(e),
    }
}

/// Deletes the category with the given id, first clearing the category
/// reference of every time entry that used it. No time entry is deleted.
///
/// Fails with `NotFound` exactly when the id is not stored; the reference
/// cleanup still applies in that case, as the row scan runs first.
pub fn delete_category_impl(s: &mut Store, id: i64) -> (r: AppResult<()>)
    ensures
        r is Ok ==> {
            &&& category_rows(old(s).conn).dom().contains(id as int)
            &&& category_rows(final(s).conn) == category_rows(old(s).conn).remove(id as int)
            &&& time_rows(final(s).conn).dom() == time_rows(old(s).conn).dom()
            &&& forall|k: int|
                #[trigger] time_rows(old(s).conn).dom().contains(k) ==> time_rows(final(s).conn)[k]
                    == row_without_category(time_rows(old(s).conn)[k], id as int)
            &&& same_window_table(*old(s), *final(s))
            &&& same_screenshot_table(*old(s), *final(s))
            &&& same_idle_table(*old(s), *final(s))
            &&& same_process_table(*old(s), *final(s))
        },
        r matches Err(AppError::NotFound(_)) ==> !category_rows(old(s).conn).dom().contains(
            id as int,
        ),
        !category_rows(old(s).conn).dom().contains(id as int) ==> !(r is Ok),
        r is Err ==> (r matches Err(AppError::NotFound(_))) || (r matches Err(
            AppError::Storage(_),
        )),
        r is Err ==> same_category_table(*old(s), *final(s)) && same_window_table(
            *old(s),
            *final(s),
        ) && same_screenshot_table(*old(s), *final(s)) && same_idle_table(*old(s), *final(s))
            && same_process_table(*old(s), *final(s)),
{
    match db_clear_category_refs(s, id) {
        Ok(()) => (),
        Err(e) => {
            return Err(e);
        },
    }
    match db_delete_category(s, id) {
        Ok(n) => {
            if n == 0 {
                proof {
                    assert(category_rows(final(s).conn) =~= category_rows(old(s).conn));
                }
                Err(AppError::NotFound(String::from_str("Category not found")))
            } else {
                Ok(())
            }
        },
        Err(e) => Err(e),
    }
}

} // verus!
