use vstd::prelude::*;
use crate::types::{Friend, FriendResource};

verus! {

/// Title and application name under which every notification is shown.
pub const APP_TITLE: &'static str = "League Notifier";

/// Sound cue that accompanies every notification.
pub const SOUND_CUE: &'static str = "IM";

/// Text that follows the friend's name and tag in the notification body.
pub const ONLINE_SUFFIX: &'static str = " is now online!";

/// Content-delivery location of profile icons; the icon number and `.jpg` follow it.
pub const AVATAR_URL_BASE: &'static str =
    "https://raw.communitydragon.org/latest/plugins/rcp-be-lol-game-data/global/default/v1/profile-icons/";

/// Extension of a profile icon file.
pub const AVATAR_URL_EXT: &'static str = ".jpg";

/// The character of a decimal digit.
pub open spec fn digit_char(d: nat) -> char
    recommends
        d < 10,
{
    seq!['0', '1', '2', '3', '4', '5', '6', '7', '8', '9'][d as int]
}

/// Decimal notation of a natural number, most significant digit first, no leading zeros.
pub open spec fn nat_text(n: nat) -> Seq<char>
    decreases n,
{
    if n < 10 {
        seq![digit_char(n)]
    } else {
        nat_text(n / 10).push(digit_char(n % 10))
    }
}

/// Decimal notation of an integer, with a leading `-` when it is negative.
pub open spec fn int_text(i: int) -> Seq<char> {
    if i < 0 {
        seq!['-'] + nat_text((-i) as nat)
    } else {
        nat_text(i as nat)
    }
}

/// The body of the notification for a friend: `"{name}#{tag} is now online!"`.
pub open spec fn online_text(f: Friend) -> Seq<char> {
    f.game_name + seq!['#'] + f.game_tag + ONLINE_SUFFIX@
}

/// Where the profile icon with the given number is served from.
pub open spec fn avatar_url(icon: i32) -> Seq<char> {
    AVATAR_URL_BASE@ + int_text(icon as int) + AVATAR_URL_EXT@
}

/// What is to be announced about a friend who came online.
pub struct Alert {
    pub body: String,
    pub icon_url: String,
}

/// The model of an [`Alert`].
pub ghost struct AlertView {
    pub body: Seq<char>,
    pub icon_url: Seq<char>,
}

impl View for Alert {
    type V = AlertView;

    open spec fn view(&self) -> AlertView {
        AlertView { body: self.body@, icon_url: self.icon_url@ }
    }
}

/// The alert that a friend's coming online produces.
pub open spec fn alert_of(f: Friend) -> AlertView {
    AlertView { body: online_text(f), icon_url: avatar_url(f.icon) }
}

/// A desktop notification ready to be shown.
pub struct Toast {
    pub summary: String,
    pub app_name: String,
    pub sound: String,
    pub body: String,
    /// Local path of the avatar image, when one could be obtained.
    pub image: Option<String>,
}

fn digit_str(d: u64) -> (r: &'static str)
    requires
        d < 10,
    ensures
        r@ == seq![digit_char(d as nat)],
{
    proof {
        reveal_strlit("0");
        reveal_strlit("1");
        reveal_strlit("2");
        reveal_strlit("3");
        reveal_strlit("4");
        reveal_strlit("5");
        reveal_strlit("6");
        reveal_strlit("7");
        reveal_strlit("8");
        reveal_strlit("9");
    }
    if d == 0 {
        "0"
    } else if d == 1 {
        "1"
    } else if d == 2 {
        "2"
    } else if d == 3 {
        "3"
    } else if d == 4 {
        "4"
    } else if d == 5 {
        "5"
    } else if d == 6 {
        "6"
    } else if d == 7 {
        "7"
    } else if d == 8 {
        "8"
    } else {
        "9"
    }
}

fn append_nat(out: &mut String, n: u64)
    ensures
        final(out)@ == old(out)@ + nat_text(n as nat),
    decreases n,
{
    if n >= 10 {
        append_nat(out, n / 10);
    }
    out.append(digit_str(n % 10));
    proof {
        assert(old(out)@ + nat_text(n as nat) =~= final(out)@) by {
            if n >= 10 {
                assert(nat_text(n as nat) == nat_text((n / 10) as nat).push(digit_char((n % 10) as nat)));
            }
        }
    }
}

/// Appends the decimal notation of `i` to `out`.
pub fn append_int(out: &mut String, i: i32)
    ensures
        final(out)@ == old(out)@ + int_text(i as int),
{
    if i < 0 {
        out.append("-");
        let n: u64 = (-(i as i64)) as u64;
        append_nat(out, n);
        proof {
            reveal_strlit("-");
            assert(final(out)@ =~= old(out)@ + int_text(i as int));
        }
    } else {
        append_nat(out, i as u64);
    }
}

/// The notification body for a friend: `"{game_name}#{game_tag} is now online!"`.
pub fn online_message(friend: &FriendResource) -> (r: String)
    ensures
        r@ == online_text(friend@),
{
    let mut s = friend.game_name.clone();
    s.append("#");
    s.append(friend.game_tag.as_str());
    s.append(ONLINE_SUFFIX);
    proof {
        reveal_strlit("#");
        assert(s@ =~= online_text(friend@));
    }
    s
}

/// The address of the profile icon with number `icon`.
pub fn avatar_url_for(icon: i32) -> (r: String)
    ensures
        r@ == avatar_url(icon),
{
    let mut s = String::from_str(AVATAR_URL_BASE);
    append_int(&mut s, icon);
    s.append(AVATAR_URL_EXT);
    proof {
        assert(s@ =~= avatar_url(icon));
    }
    s
}

/// The alert for a friend who came online.
pub fn alert_for(friend: &FriendResource) -> (r: Alert)
    ensures
        r@ == alert_of(friend@),
{
    Alert { body: online_message(friend), icon_url: avatar_url_for(friend.icon) }
}

/// The notification to show for `alert`, given where its avatar image was stored, if
/// anywhere. A missing image never suppresses the notification: it is shown without one.
pub fn toast_for(alert: &Alert, image_path: Option<String>) -> (r: Toast)
    ensures
        r.summary@ == APP_TITLE@,
        r.app_name@ == APP_TITLE@,
        r.sound@ == SOUND_CUE@,
        r.body@ == alert.body@,
        r.image == image_path,
{
    Toast {
        summary: String::from_str(APP_TITLE),
        app_name: String::from_str(APP_TITLE),
        sound: String::from_str(SOUND_CUE),
        body: alert.body.clone(),
        image: image_path,
    }
}

} // verus!
