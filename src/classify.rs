use vstd::prelude::*;
use crate::types::{Friend, FriendResource};

verus! {

/// The client surface whose presence changes are tracked.
pub const TRACKED_PRODUCT: &'static str = "league_of_legends";

/// How one friend's new record relates to what was last seen of that friend.
#[derive(Clone, Copy, Debug, PartialEq, Eq, Structural)]
pub enum Transition {
    /// The friend had not been seen before: the record becomes the baseline.
    FirstSighting,
    /// The availability did not change.
    Unchanged,
    /// The availability changed, but not through the tracked client surface.
    ForeignProduct,
    /// The friend went from an offline-like to an online-like state.
    CameOnline,
    /// Any other change of availability.
    Changed,
}

/// What to do when a friend's availability changed outside the tracked surface.
#[derive(Clone, Copy, Debug, PartialEq, Eq, Structural)]
pub enum MismatchPolicy {
    /// Stop classifying the rest of the roster for this cycle.
    AbandonCycle,
    /// Leave that friend as last recorded and go on with the next one.
    SkipFriend,
}

/// States in which a friend cannot be playing: offline, or on a phone.
pub open spec fn offline_like(a: Seq<char>) -> bool {
    a == "mobile"@ || a == "offline"@
}

/// States in which a friend is present in the client.
pub open spec fn online_like(a: Seq<char>) -> bool {
    a == "chat"@ || a == "dnd"@ || a == "away"@
}

/// Whether a presence comes from the tracked client surface.
pub open spec fn tracked_product(p: Seq<char>) -> bool {
    p == TRACKED_PRODUCT@
}

/// The classification of `new` against the previous record of the same friend.
pub open spec fn transition_of(prev: Option<Friend>, new: Friend) -> Transition {
    match prev {
        None => Transition::FirstSighting,
        Some(p) => if p.availability == new.availability {
            Transition::Unchanged
        } else if !tracked_product(new.product) {
            Transition::ForeignProduct
        } else if offline_like(p.availability) && online_like(new.availability) {
            Transition::CameOnline
        } else {
            Transition::Changed
        },
    }
}

/// The model of an optional borrowed record.
pub open spec fn view_opt(prev: Option<&FriendResource>) -> Option<Friend> {
    match prev {
        Some(p) => Some(p@),
        None => None,
    }
}

fn text_is(s: &String, lit: &str) -> (r: bool)
    ensures
        r == (s@ == lit@),
{
    *s == String::from_str(lit)
}

/// Classifies the new record of a friend against its previous record, if any.
pub fn classify(prev: Option<&FriendResource>, new: &FriendResource) -> (t: Transition)
    ensures
        t == transition_of(view_opt(prev), new@),
{
    match prev {
        None => Transition::FirstSighting,
        Some(p) => {
            if p.availability == new.availability {
                Transition::Unchanged
            } else if !text_is(&new.product, TRACKED_PRODUCT) {
                Transition::ForeignProduct
            } else {
                let was_offline = text_is(&p.availability, "mobile")
                    || text_is(&p.availability, "offline");
                let is_online = text_is(&new.availability, "chat")
                    || text_is(&new.availability, "dnd")
                    || text_is(&new.availability, "away");
                if was_offline && is_online {
                    Transition::CameOnline
                } else {
                    Transition::Changed
                }
            }
        },
    }
}

} // verus!
