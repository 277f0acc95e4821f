use vstd::prelude::*;

verus! {

/// One entry of the friend roster as reported by the local game client.
pub struct FriendResource {
    pub availability: String,
    pub game_name: String,
    pub game_tag: String,
    pub icon: i32,
    pub puuid: String,
    pub product: String,
}

/// The mathematical model of a [`FriendResource`]: its text fields as character sequences.
pub ghost struct Friend {
    pub availability: Seq<char>,
    pub game_name: Seq<char>,
    pub game_tag: Seq<char>,
    pub icon: i32,
    pub puuid: Seq<char>,
    pub product: Seq<char>,
}

impl View for FriendResource {
    type V = Friend;

    open spec fn view(&self) -> Friend {
        Friend {
            availability: self.availability@,
            game_name: self.game_name@,
            game_tag: self.game_tag@,
            icon: self.icon,
            puuid: self.puuid@,
            product: self.product@,
        }
    }
}

impl FriendResource {
    pub fn new(
        puuid: String,
        availability: String,
        game_name: String,
        game_tag: String,
        icon: i32,
        product: String,
    ) -> (r: FriendResource)
        ensures
            r@ == (Friend {
                availability: availability@,
                game_name: game_name@,
                game_tag: game_tag@,
                icon,
                puuid: puuid@,
                product: product@,
            }),
    {
        FriendResource { availability, game_name, game_tag, icon, puuid, product }
    }
}

} // verus!
