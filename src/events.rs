//! Which runtime lifecycle events invalidate the discovery cache.
use vstd::prelude::*;

verus! {

/// The lifecycle actions the watcher listens for: a container created,
/// updated or deleted.
pub fn watched_actions() -> (r: Vec<String>)
    ensures
        r.deep_view() == seq!["create"@, "update"@, "delete"@],
{
    let mut r: Vec<String> = Vec::new();
    r.push(String::from_str("create"));
    r.push(String::from_str("update"));
    r.push(String::from_str("delete"));
    assert(r.deep_view() =~= seq!["create"@, "update"@, "delete"@]);
    r
}

/// Whether `s` is one of `items`.
fn contains_string(items: &Vec<String>, s: &String) -> (r: bool)
    ensures
        r == items.deep_view().contains(s@),
{
    let mut i: usize = 0;
    while i < items.len()
        invariant
            i <= items.len(),
            forall|j: int| 0 <= j < i ==> items.deep_view()[j] != s@,
        decreases items.len() - i,
    {
        if items[i] == *s {
            assert(items.deep_view()[i as int] == s@);
            return true;
        }
        i += 1;
    }
    false
}

/// Whether an event with the given action marks the cache stale: it has an
/// action, and that action is one of `accepted`. Other events are dropped.
pub fn event_accepted(action: &Option<String>, accepted: &Vec<String>) -> (r: bool)
    ensures
        r == match action {
            Some(a) => accepted.deep_view().contains(a@),
            None => false,
        },
{
    match action {
        None => false,
        Some(a) => contains_string(accepted, a),
    }
}

} // verus!
