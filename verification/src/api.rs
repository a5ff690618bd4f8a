//! Values exchanged with the osu! web API: score records, user lookups,
//! beatmap statuses, OAuth tokens, and the request address of a user's recent
//! scores. Sending the request and decoding the JSON reply happen outside this
//! library; what is decided here is the address that is asked for.

use vstd::prelude::*;
use crate::enums::Mode;
use crate::text::{chars_to_string, push_decimal, push_str, spec_decimal};

verus! {

/// A score as returned from the osu! API (version 1). Every field is the
/// string that the API sent.
#[derive(Debug, Clone, PartialEq, Eq)]
pub struct UserScore {
    pub beatmap_id: String,
    pub score: String,
    pub max_combo: String,
    pub count_50: String,
    pub count_100: String,
    pub count_300: String,
    pub count_miss: String,
    pub count_katu: String,
    pub count_geki: String,
    pub perfect: String,
    pub enabled_mods: String,
    pub user_id: String,
    pub date: String,
    pub rank: String,
}

/// A method of looking up a user in the API.
#[derive(Debug, Clone, PartialEq, Eq)]
pub enum UserLookup {
    /// Look up by ID
    Id(u32),
    /// Look up by username
    Name(String),
}

impl UserLookup {
    /// The text by which the API is asked for the user: the decimal ID, or
    /// the name as it is.
    pub open spec fn spec_text(&self) -> Seq<char> {
        match self {
            UserLookup::Id(n) => spec_decimal(*n as int),
            UserLookup::Name(s) => s@,
        }
    }

    /// Appends the lookup's text to `out`.
    pub fn push_text(&self, out: &mut Vec<char>)
        ensures
            final(out)@ == old(out)@ + self.spec_text(),
    {
        match self {
            UserLookup::Id(n) => push_decimal(out, *n as i128),
            UserLookup::Name(s) => push_str(out, s.as_str()),
        }
    }

    /// The lookup's text: the decimal ID, or the name as it is.
    pub fn to_string(&self) -> (r: String)
        ensures
            r@ == self.spec_text(),
    {
        let mut out: Vec<char> = Vec::new();
        self.push_text(&mut out);
        let n = out.len();
        assert(out@.subrange(0, n as int) =~= out@);
        chars_to_string(&out, 0, n)
    }
}

impl From<u32> for UserLookup {
    fn from(n: u32) -> (r: UserLookup) {
        UserLookup::Id(n)
    }
}

impl vstd::std_specs::convert::FromSpecImpl<u32> for UserLookup {
    open spec fn obeys_from_spec() -> bool {
        true
    }

    open spec fn from_spec(n: u32) -> UserLookup {
        UserLookup::Id(n)
    }
}

impl From<&str> for UserLookup {
    /// A lookup by the name `s`.
    fn from(s: &str) -> (r: UserLookup)
        ensures
            r matches UserLookup::Name(t) && t@ == s@,
    {
        UserLookup::Name(s.to_owned())
    }
}

/// A `String` is known by its characters only, so no single value stands for
/// the result here; `from` above states it by its characters instead.
impl vstd::std_specs::convert::FromSpecImpl<&str> for UserLookup {
    open spec fn obeys_from_spec() -> bool {
        false
    }

    open spec fn from_spec(s: &str) -> UserLookup {
        UserLookup::Id(0)
    }
}

/// The number by which the API names a game mode; no mode asks for osu!standard.
pub open spec fn mode_param(mode: Option<Mode>) -> int {
    match mode {
        Some(m) => m.spec_value() as int,
        None => 0,
    }
}

/// The number of scores asked for: 10 unless a limit is given.
pub open spec fn limit_param(limit: Option<u32>) -> int {
    match limit {
        Some(l) => l as int,
        None => 10,
    }
}

/// The address of the request for a user's recent scores: the API base
/// followed by `/get_user_recent?k=KEY&u=USER&m=MODE&limit=LIMIT`.
pub open spec fn spec_user_recent_url(
    base: Seq<char>,
    path: Seq<char>,
    user_key: Seq<char>,
    mode_key: Seq<char>,
    limit_key: Seq<char>,
    api_key: Seq<char>,
    user: UserLookup,
    mode: Option<Mode>,
    limit: Option<u32>,
) -> Seq<char> {
    base + path + api_key + user_key + user.spec_text() + mode_key + spec_decimal(
        mode_param(mode),
    ) + limit_key + spec_decimal(limit_param(limit))
}

/// The address of the request for `user`'s recent scores with the key
/// `api_key`, in `mode` (osu!standard when none is given), asking for `limit`
/// scores (10 when none is given).
pub fn user_recent_url(api_key: &str, user: &UserLookup, mode: Option<Mode>, limit: Option<u32>) -> (r: String)
    ensures
        r@ == spec_user_recent_url(
            "https://osu.ppy.sh/api"@,
            "/get_user_recent?k="@,
            "&u="@,
            "&m="@,
            "&limit="@,
            api_key@,
            *user,
            mode,
            limit,
        ),
{
    let mut out: Vec<char> = Vec::new();
    push_str(&mut out, "https://osu.ppy.sh/api");
    push_str(&mut out, "/get_user_recent?k=");
    push_str(&mut out, api_key);
    push_str(&mut out, "&u=");
    user.push_text(&mut out);
    push_str(&mut out, "&m=");
    let m: u8 = match mode {
        Some(m) => m.value(),
        None => 0,
    };
    push_decimal(&mut out, m as i128);
    push_str(&mut out, "&limit=");
    let l: u32 = match limit {
        Some(l) => l,
        None => 10,
    };
    push_decimal(&mut out, l as i128);
    let n = out.len();
    assert(out@.subrange(0, n as int) =~= out@);
    chars_to_string(&out, 0, n)
}

/// The approved status of a beatmap.
#[derive(Debug, Clone, Copy, PartialEq, Eq, Structural)]
pub enum ApprovedStatus {
    StatusGraveyard,
    StatusWIP,
    StatusPending,
    StatusRanked,
    StatusApproved,
    StatusQualified,
    StatusLoved,
}

/// Possible ranked statuses (API version 2).
#[derive(Debug, Clone, Copy, PartialEq, Eq, Structural)]
pub enum RankStatus {
    /// Graveyard (-2)
    Graveyard,
    /// WIP (-1)
    Wip,
    /// Pending (0)
    Pending,
    /// Ranked (1)
    Ranked,
    /// Approved (2)
    Approved,
    /// Qualified (3)
    Qualified,
    /// Loved (4)
    Loved,
}

impl RankStatus {
    /// Different rank statuss have different numbers, so the number of a
    /// rank status reads back as that rank status.
    pub proof fn rank_status_number_identifies(a: RankStatus, b: RankStatus)
        ensures
            a.spec_value() == b.spec_value() ==> a == b,
    {
    }

    /// The number of the status.
    pub open spec fn spec_value(self) -> int {
        match self {
            RankStatus::Graveyard => -2,
            RankStatus::Wip => -1,
            RankStatus::Pending => 0,
            RankStatus::Ranked => 1,
            RankStatus::Approved => 2,
            RankStatus::Qualified => 3,
            RankStatus::Loved => 4,
        }
    }

    /// The number of the status.
    pub fn value(self) -> (r: i32)
        ensures
            r == self.spec_value(),
    {
        match self {
            RankStatus::Graveyard => -2,
            RankStatus::Wip => -1,
            RankStatus::Pending => 0,
            RankStatus::Ranked => 1,
            RankStatus::Approved => 2,
            RankStatus::Qualified => 3,
            RankStatus::Loved => 4,
        }
    }

    /// The status with number `v`: `None` unless `v` is -2 to 4.
    pub fn from_value(v: i32) -> (r: Option<RankStatus>)
        ensures
            r is Some <==> -2 <= v <= 4,
            r matches Some(s) ==> s.spec_value() == v as int,
    {
        if v == -2 {
            Some(RankStatus::Graveyard)
        } else if v == -1 {
            Some(RankStatus::Wip)
        } else if v == 0 {
            Some(RankStatus::Pending)
        } else if v == 1 {
            Some(RankStatus::Ranked)
        } else if v == 2 {
            Some(RankStatus::Approved)
        } else if v == 3 {
            Some(RankStatus::Qualified)
        } else if v == 4 {
            Some(RankStatus::Loved)
        } else {
            None
        }
    }
}

/// Failtimes of a beatmap. All fields are optional, but the API always
/// returns at least one of them.
#[derive(Debug, Clone, PartialEq, Eq)]
pub struct Failtimes {
    /// Frequency of exits at a given percent through the map
    pub exit: Option<Vec<i32>>,
    /// Frequency of fails at a given percent through the map
    pub fail: Option<Vec<i32>>,
}

/// Beatmapset
#[derive(Debug, Clone, Copy, PartialEq, Eq, Structural)]
pub struct Beatmapset {}

/// The token retrieved from a client-credentials grant
#[derive(Debug, Clone, PartialEq, Eq)]
pub struct ClientCredentialsToken {
    /// The type of token, this should always be `Bearer`.
    pub token_type: String,
    /// The number of seconds the token will be valid for.
    pub expires_in: u64,
    /// The access token.
    pub access_token: String,
}

/// The token retrieved from an authorization-code grant
#[derive(Debug, Clone, PartialEq, Eq)]
pub struct AuthorizationCodeToken {
    /// The type of token, this should always be `Bearer`.
    pub token_type: String,
    /// The number of seconds the token will be valid for.
    pub expires_in: u64,
    /// The access token.
    pub access_token: String,
    /// The refresh token.
    pub refresh_token: String,
}

} // verus!
