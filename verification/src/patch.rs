//! Partial updates: a field takes its new value where there is one.
use crate::table::{self, Row};
use crate::text;
use vstd::prelude::*;

verus! {

/// The new value of a field where there is one, else the present one.
pub open spec fn pick<T>(new: Option<T>, present: T) -> T {
    match new {
        Some(v) => v,
        None => present,
    }
}

/// The new value of an optional field where there is one, else the present one.
pub open spec fn pick_opt<T>(new: Option<T>, present: Option<T>) -> Option<T> {
    if new is Some {
        new
    } else {
        present
    }
}

/// Gives a field its new value where there is one.
pub fn renew<T>(slot: &mut T, new: Option<T>)
    ensures
        *final(slot) == pick(new, *old(slot)),
{
    if let Some(v) = new {
        *slot = v;
    }
}

/// Gives an optional field its new value where there is one.
pub fn renew_opt<T>(slot: &mut Option<T>, new: Option<T>)
    ensures
        *final(slot) == pick_opt(new, *old(slot)),
{
    if let Some(v) = new {
        *slot = Some(v);
    }
}

/// Gives a text its new value where there is one.
pub fn renew_text(slot: &mut String, new: Option<String>)
    ensures
        final(slot)@ == pick(text::opt_text(new), old(slot)@),
{
    if let Some(v) = new {
        *slot = v;
    }
}

/// Gives an optional text its new value where there is one.
pub fn renew_opt_text(slot: &mut Option<String>, new: Option<String>)
    ensures
        text::opt_text(*final(slot)) == pick_opt(text::opt_text(new), text::opt_text(*old(slot))),
{
    if let Some(v) = new {
        *slot = Some(v);
    }
}

/// Gives a list of texts its new value where there is one.
pub fn renew_texts(slot: &mut Vec<String>, new: Option<Vec<String>>)
    ensures
        text::texts(final(slot)@) == pick(text::opt_texts(new), text::texts(old(slot)@)),
{
    if let Some(v) = new {
        *slot = v;
    }
}

/// Gives a row its new value where there is one.
pub fn renew_row<R: Row>(slot: &mut R, new: Option<R>)
    ensures
        final(slot)@ == pick(table::opt_view(new), old(slot)@),
{
    if let Some(v) = new {
        *slot = v;
    }
}

/// Gives an optional row its new value where there is one.
pub fn renew_opt_row<R: Row>(slot: &mut Option<R>, new: Option<R>)
    ensures
        table::opt_view(*final(slot)) == pick_opt(table::opt_view(new), table::opt_view(*old(slot))),
{
    if let Some(v) = new {
        *slot = Some(v);
    }
}

/// Gives an optional list of rows its new value where there is one.
pub fn renew_opt_rows<R: Row>(slot: &mut Option<Vec<R>>, new: Option<Vec<R>>)
    ensures
        table::opt_row_views(*final(slot)) == pick_opt(
            table::opt_row_views(new),
            table::opt_row_views(*old(slot)),
        ),
{
    if let Some(v) = new {
        *slot = Some(v);
    }
}

/// Gives a list of rows its new value where there is one.
pub fn renew_rows<R: Row>(slot: &mut Vec<R>, new: Option<Vec<R>>)
    ensures
        table::row_views(final(slot)@) == pick(
            table::opt_row_views(new),
            table::row_views(old(slot)@),
        ),
{
    if let Some(v) = new {
        *slot = v;
    }
}

} // verus!
