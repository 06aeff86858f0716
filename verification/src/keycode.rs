//! The key names that the keyboard poller knows.
//!
//! `device_query::Keycode` is carried through as an opaque value. The items
//! here that touch it are believed, not proved.

use device_query::Keycode;
use std::str::FromStr;
use vstd::prelude::*;

verus! {

/// `device_query::Keycode`, one value per key that can be polled. Nothing of
/// its inside is visible to the proofs.
#[verifier::external_type_specification]
#[verifier::external_body]
pub struct ExKeycode(device_query::Keycode);

/// The key that `Keycode::from_str` gives for a name, or `None` for a name
/// it does not know. The table has one entry per key and is not repeated here.
pub uninterp spec fn keycode_named(name: Seq<char>) -> Option<Keycode>;

/// The text with which `Keycode::from_str` turns a name down.
pub open spec fn unknown_key_message() -> Seq<char> {
    "failed to parse keycode"@
}

/// Calls `Keycode::from_str` of device_query. That function is one `match`
/// on the whole name: a known name gives its key, every other name gives the
/// same fixed message.
#[verifier::external_body]
fn keycode_from_str(name: &str) -> (r: Result<Keycode, String>)
    ensures
        match r {
            Ok(k) => keycode_named(name@) == Some(k),
            Err(e) => keycode_named(name@) is None && e@ == unknown_key_message(),
        },
{
    Keycode::from_str(name)
}

/// Calls `==` on two `Keycode`s, which device_query derives for an enum
/// without fields: it holds exactly when both are the same key.
#[verifier::external_body]
pub(crate) fn keycode_eq(a: &Keycode, b: &Keycode) -> (same: bool)
    ensures
        same == (*a == *b),
{
    *a == *b
}

/// Every name of `names` is the name of a key.
pub open spec fn all_known(names: Seq<Seq<char>>) -> bool {
    forall|i: int| 0 <= i < names.len() ==> (#[trigger] keycode_named(names[i])) is Some
}

/// The keys that the names stand for, in their order.
pub open spec fn keycodes_named(names: Seq<Seq<char>>) -> Seq<Keycode> {
    Seq::new(names.len(), |i: int| keycode_named(names[i])->Some_0)
}

/// Looks every name up. One unknown name fails the whole list.
pub fn parse_keycodes(names: &Vec<String>) -> (r: Result<Vec<Keycode>, String>)
    ensures
        match r {
            Ok(keycodes) => all_known(names.deep_view()) && keycodes@ == keycodes_named(
                names.deep_view(),
            ),
            Err(e) => !all_known(names.deep_view()) && e@ == unknown_key_message(),
        },
{
    let ghost views = names.deep_view();
    let mut keycodes: Vec<Keycode> = Vec::new();
    let mut i: usize = 0;
    while i < names.len()
        invariant
            i <= names.len(),
            views == names.deep_view(),
            keycodes@.len() == i,
            forall|j: int| 0 <= j < i ==> #[trigger] keycode_named(views[j]) == Some(keycodes@[j]),
        decreases names.len() - i,
    {
        match keycode_from_str(names[i].as_str()) {
            Ok(keycode) => {
                keycodes.push(keycode);
            },
            Err(e) => {
                assert(keycode_named(views[i as int]) is None);
                return Err(e);
            },
        }
        i += 1;
    }
    Ok(keycodes)
}

} // verus!
