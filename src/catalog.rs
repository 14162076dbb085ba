//! The catalog of cloud event types, and the lookup of an event type by
//! the tail of its identifier.

use vstd::prelude::*;
use crate::error::CloudRunError;
use crate::text::{chars_of, ends_with, ends_with_chars};

verus! {

/// How many identifiers the event catalog holds.
pub const EVENT_PATH_COUNT: usize = 322;

/// The identifier at position `i` of the event catalog.
pub uninterp spec fn event_path(i: int) -> Seq<char>;

/// The event catalog, in its declared order.
pub open spec fn event_catalog() -> Seq<Seq<char>> {
    Seq::new(EVENT_PATH_COUNT as nat, |i: int| event_path(i))
}

/// Relies on `google_cloudevents::ALL_EVENT_PATHS`, the fixed list of
/// fully qualified event type paths; it holds 322 of them.
#[verifier::external_body]
fn all_event_paths() -> (r: Vec<&'static str>)
    ensures
        r@.len() == EVENT_PATH_COUNT,
        forall|i: int| 0 <= i < r@.len() ==> r@[i]@ == event_path(i),
{
    google_cloudevents::ALL_EVENT_PATHS.to_vec()
}

/// The entries of `catalog` that end with `suffix`, in catalog order.
pub open spec fn suffix_matches(catalog: Seq<Seq<char>>, suffix: Seq<char>) -> Seq<Seq<char>> {
    catalog.filter(|e: Seq<char>| ends_with(e, suffix))
}

/// The one entry that ends with `suffix`; an error where none or several do.
pub open spec fn lookup(catalog: Seq<Seq<char>>, suffix: Seq<char>) -> Result<Seq<char>, CloudRunError> {
    let m = suffix_matches(catalog, suffix);
    if m.len() == 0 {
        Err(CloudRunError::UnknownEventType)
    } else if m.len() == 1 {
        Ok(m[0])
    } else {
        Err(CloudRunError::AmbiguousEventType)
    }
}

/// `r` is what `lookup` gives.
pub open spec fn lookup_agrees(r: Result<String, CloudRunError>, l: Result<Seq<char>, CloudRunError>) -> bool {
    match l {
        Ok(e) => r is Ok && r->Ok_0@ == e,
        Err(x) => r == Err::<String, CloudRunError>(x),
    }
}

/// Looks `suffix` up in `catalog`: the one entry that ends with it, or
/// `UnknownEventType` where none does, or `AmbiguousEventType` where more
/// than one does.
pub fn resolve_event_type(catalog: &Vec<&str>, suffix: &str) -> (r: Result<String, CloudRunError>)
    ensures
        lookup_agrees(r, lookup(catalog@.map_values(|e: &str| e@), suffix@)),
{
    let ghost cat = catalog@.map_values(|e: &str| e@);
    let ghost pred = |e: Seq<char>| ends_with(e, suffix@);
    let suf = chars_of(suffix);
    let mut count: usize = 0;
    let mut first: usize = 0;
    let mut i: usize = 0;
    while i < catalog.len()
        invariant
            i <= catalog.len(),
            cat == catalog@.map_values(|e: &str| e@),
            pred == (|e: Seq<char>| ends_with(e, suffix@)),
            suf@ == suffix@,
            count == cat.take(i as int).filter(pred).len(),
            count <= i,
            count > 0 ==> first < i && cat[first as int] == cat.take(i as int).filter(pred)[0],
        decreases catalog.len() - i,
    {
        let e = chars_of(catalog[i]);
        let hit = ends_with_chars(&e, &suf);
        proof {
            reveal(Seq::filter);
            let t = cat.take(i + 1);
            assert(t.drop_last() =~= cat.take(i as int));
            assert(t.last() == cat[i as int]);
            assert(cat[i as int] == e@);
            assert(pred(e@) == hit);
            if hit {
                assert(t.filter(pred) == cat.take(i as int).filter(pred).push(cat[i as int]));
            } else {
                assert(t.filter(pred) == cat.take(i as int).filter(pred));
            }
        }
        if hit {
            if count == 0 {
                first = i;
            }
            count += 1;
        }
        i += 1;
    }
    assert(cat.take(i as int) =~= cat);
    if count == 0 {
        Err(CloudRunError::UnknownEventType)
    } else if count == 1 {
        Ok(catalog[first].to_owned())
    } else {
        Err(CloudRunError::AmbiguousEventType)
    }
}

/// Looks `suffix` up in the event catalog.
pub fn map_event_type(suffix: &str) -> (r: Result<String, CloudRunError>)
    ensures
        lookup_agrees(r, lookup(event_catalog(), suffix@)),
{
    let catalog = all_event_paths();
    assert(catalog@.map_values(|e: &str| e@) =~= event_catalog());
    resolve_event_type(&catalog, suffix)
}

} // verus!
