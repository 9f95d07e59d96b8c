//! The fields of the bot's information cards: users, servers, the bot itself,
//! the week's dungeon affixes and market prices; and the invite link.

use vstd::prelude::*;
use crate::text::{decimal, english_grouped, english_grouped_signed, grouped_decimal, grouped_signed, u64_decimal};

verus! {

/// A field of a card: its name, its value, and whether it sits inline.
pub struct EmbedField {
    pub name: String,
    pub value: String,
    pub inline: bool,
}

/// A field as plain values.
pub open spec fn field_view(f: EmbedField) -> (Seq<char>, Seq<char>, bool) {
    (f.name@, f.value@, f.inline)
}

/// The fields as plain values.
pub open spec fn fields_view(v: Seq<EmbedField>) -> Seq<(Seq<char>, Seq<char>, bool)> {
    v.map_values(|f: EmbedField| field_view(f))
}

fn field(name: &str, value: String, inline: bool) -> (res: EmbedField)
    ensures
        field_view(res) == (name@, value@, inline),
{
    EmbedField { name: name.to_string(), value, inline }
}

fn text_or(value: Option<&str>, otherwise: &str) -> (res: String)
    ensures
        res@ == match value {
            Some(v) => v@,
            None => otherwise@,
        },
{
    match value {
        Some(v) => v.to_string(),
        None => otherwise.to_string(),
    }
}

/// What a user card shows: whether the user is a bot, since when they boost
/// the server, when they joined Discord and the server, their first message,
/// their message counts and their karma (dates as shown).
pub struct UserFacts<'a> {
    pub bot: bool,
    pub boosting_since: Option<&'a str>,
    pub joined_discord: &'a str,
    pub joined_server: Option<&'a str>,
    pub first_message: Option<&'a str>,
    pub server_messages: i64,
    pub channel_messages: i64,
    pub karma: i32,
}

/// The fields of a user card.
pub open spec fn user_fields_view(u: UserFacts) -> Seq<(Seq<char>, Seq<char>, bool)> {
    seq![
        ("Bot?"@, if u.bot { "\u{2705}"@ } else { "\u{274C}"@ }, true),
        ("Boosting Server?"@, match u.boosting_since {
            Some(d) => "Since "@ + d@,
            None => "\u{274C}"@,
        }, true),
        ("Joined Discord"@, u.joined_discord@, true),
        ("Joined Server"@, match u.joined_server {
            Some(d) => d@,
            None => "`Unknown`"@,
        }, true),
        ("First Message"@, match u.first_message {
            Some(d) => d@,
            None => "Unavailable"@,
        }, true),
        ("Server Messages"@, grouped_signed(u.server_messages as int), true),
        ("Channel Messages"@, grouped_signed(u.channel_messages as int), true),
        ("Karma"@, grouped_signed(u.karma as int), true),
    ]
}

/// The fields of a user card.
pub fn user_fields(u: &UserFacts) -> (res: Vec<EmbedField>)
    ensures
        fields_view(res@) == user_fields_view(*u),
{
    let mut v: Vec<EmbedField> = Vec::new();
    v.push(field("Bot?", if u.bot { "\u{2705}".to_string() } else { "\u{274C}".to_string() }, true));
    let boost = match u.boosting_since {
        Some(d) => {
            let mut s = "Since ".to_string();
            s.append(d);
            s
        },
        None => "\u{274C}".to_string(),
    };
    v.push(field("Boosting Server?", boost, true));
    v.push(field("Joined Discord", u.joined_discord.to_string(), true));
    v.push(field("Joined Server", text_or(u.joined_server, "`Unknown`"), true));
    v.push(field("First Message", text_or(u.first_message, "Unavailable"), true));
    v.push(field("Server Messages", english_grouped_signed(u.server_messages), true));
    v.push(field("Channel Messages", english_grouped_signed(u.channel_messages), true));
    v.push(field("Karma", english_grouped_signed(u.karma as i64), true));
    assert(fields_view(v@) =~= user_fields_view(*u));
    v
}

/// A server's boost tier, as Discord numbers them (0 to 3; others unknown).
pub open spec fn boost_tier_text(tier: u8) -> Seq<char> {
    if tier == 0 {
        "None"@
    } else if tier == 1 {
        "Level 1"@
    } else if tier == 2 {
        "Level 2"@
    } else if tier == 3 {
        "Level 3"@
    } else {
        "?"@
    }
}

/// What a server card shows (the creation date as shown).
pub struct ServerFacts<'a> {
    pub created: &'a str,
    pub boost_tier: u8,
    pub boosts: Option<u64>,
    pub messages: i64,
    pub members: Option<u64>,
    pub online_members: Option<u64>,
}

/// A count where known, else "?".
pub open spec fn count_or_unknown(n: Option<u64>) -> Seq<char> {
    match n {
        Some(c) => grouped_decimal(c as nat),
        None => "?"@,
    }
}

/// The fields of a server card.
pub open spec fn server_fields_view(s: ServerFacts) -> Seq<(Seq<char>, Seq<char>, bool)> {
    seq![("Created on"@, s.created@, true), ("Boost Tier"@, boost_tier_text(s.boost_tier), true)] + match s.boosts {
        Some(b) => seq![("Boosts"@, grouped_decimal(b as nat), true)],
        None => Seq::empty(),
    } + seq![
        ("Messages"@, grouped_signed(s.messages as int), true),
        ("Members"@, count_or_unknown(s.members), true),
        ("Online Members"@, count_or_unknown(s.online_members), true),
    ]
}

fn count_text(n: Option<u64>) -> (res: String)
    ensures
        res@ == count_or_unknown(n),
{
    match n {
        Some(c) => english_grouped(c),
        None => "?".to_string(),
    }
}

/// The fields of a server card.
pub fn server_fields(s: &ServerFacts) -> (res: Vec<EmbedField>)
    ensures
        fields_view(res@) == server_fields_view(*s),
{
    let mut v: Vec<EmbedField> = Vec::new();
    v.push(field("Created on", s.created.to_string(), true));
    let tier = if s.boost_tier == 0 {
        "None"
    } else if s.boost_tier == 1 {
        "Level 1"
    } else if s.boost_tier == 2 {
        "Level 2"
    } else if s.boost_tier == 3 {
        "Level 3"
    } else {
        "?"
    };
    v.push(field("Boost Tier", tier.to_string(), true));
    if let Some(b) = s.boosts {
        v.push(field("Boosts", english_grouped(b), true));
    }
    v.push(field("Messages", english_grouped_signed(s.messages), true));
    v.push(field("Members", count_text(s.members), true));
    v.push(field("Online Members", count_text(s.online_members), true));
    assert(fields_view(v@) =~= server_fields_view(*s));
    v
}

/// What the bot's own card shows (dates as shown): when it joined Discord and
/// the server, how many servers it is in, and the host's and its own uptime.
pub struct BotFacts<'a> {
    pub joined_discord: &'a str,
    pub joined_server: Option<&'a str>,
    pub servers: u64,
    pub host_uptime: &'a str,
    pub bot_uptime: &'a str,
}

/// The fields of the bot's card.
pub open spec fn bot_fields_view(b: BotFacts) -> Seq<(Seq<char>, Seq<char>, bool)> {
    seq![
        ("Joined Discord"@, b.joined_discord@, true),
        ("Joined Server"@, match b.joined_server {
            Some(d) => d@,
            None => "`Unknown`"@,
        }, true),
        ("Member of"@, decimal(b.servers as nat) + " servers"@, true),
        ("Host Uptime"@, b.host_uptime@, true),
        ("Bot Uptime"@, b.bot_uptime@, true),
    ]
}

/// The fields of the bot's card.
pub fn bot_fields(b: &BotFacts) -> (res: Vec<EmbedField>)
    ensures
        fields_view(res@) == bot_fields_view(*b),
{
    let mut v: Vec<EmbedField> = Vec::new();
    v.push(field("Joined Discord", b.joined_discord.to_string(), true));
    v.push(field("Joined Server", text_or(b.joined_server, "`Unknown`"), true));
    let mut servers = u64_decimal(b.servers);
    servers.append(" servers");
    v.push(field("Member of", servers, true));
    v.push(field("Host Uptime", b.host_uptime.to_string(), true));
    v.push(field("Bot Uptime", b.bot_uptime.to_string(), true));
    assert(fields_view(v@) =~= bot_fields_view(*b));
    v
}

/// The title of a member's card, and its description: the nickname as title
/// with the account name below it, or the account name alone.
pub fn card_title(nick: Option<&str>, name: &str) -> (res: (String, Option<String>))
    ensures
        match nick {
            Some(n) => res.0@ == n@ && (res.1 matches Some(d) && d@ == name@),
            None => res.0@ == name@ && res.1 is None,
        },
{
    match nick {
        Some(n) => (n.to_string(), Some(name.to_string())),
        None => (name.to_string(), None),
    }
}

/// An affix of the week: its name and description.
pub struct Affix {
    pub name: String,
    pub description: String,
}

/// The fields of the affixes card.
pub open spec fn affix_fields_view(a: Seq<Affix>) -> Seq<(Seq<char>, Seq<char>, bool)> {
    seq![
        (a[0].name@, a[0].description@, false),
        (a[1].name@ + " (+4)"@, a[1].description@, false),
        (a[2].name@ + " (+7)"@, a[2].description@, false),
        (a[3].name@ + " (+10)"@, a[3].description@, false),
        ("Xal'atath's Guile (+12)"@, "Xal'atath betrays players, revoking her bargains and increasing the health and damage of enemies by 20%."@, false),
    ]
}

fn suffixed(name: &String, suffix: &str) -> (res: String)
    ensures
        res@ == name@ + suffix@,
{
    let mut s = name.clone();
    s.append(suffix);
    s
}

/// The fields of the affixes card; `None` where the reply holds fewer than
/// three affixes ("unexpected response from raider.io").
pub fn affix_fields(affixes: &Vec<Affix>) -> (res: Option<Vec<EmbedField>>)
    requires
        affixes@.len() != 3,
    ensures
        affixes@.len() < 3 ==> res is None,
        affixes@.len() > 3 ==> (res matches Some(v) && fields_view(v@) == affix_fields_view(affixes@)),
{
    if affixes.len() < 3 {
        return None;
    }
    let mut v: Vec<EmbedField> = Vec::new();
    v.push(field(affixes[0].name.as_str(), affixes[0].description.clone(), false));
    v.push(field(suffixed(&affixes[1].name, " (+4)").as_str(), affixes[1].description.clone(), false));
    v.push(field(suffixed(&affixes[2].name, " (+7)").as_str(), affixes[2].description.clone(), false));
    v.push(field(suffixed(&affixes[3].name, " (+10)").as_str(), affixes[3].description.clone(), false));
    v.push(field(
        "Xal'atath's Guile (+12)",
        "Xal'atath betrays players, revoking her bargains and increasing the health and damage of enemies by 20%.".to_string(),
        false,
    ));
    assert(fields_view(v@) =~= affix_fields_view(affixes@));
    Some(v)
}

/// A price in roubles, grouped, with the rouble sign.
pub fn roubles(price: u32) -> (res: String)
    ensures
        res@ == grouped_decimal(price as nat) + " \u{20bd}"@,
{
    let mut s = english_grouped(price as u64);
    s.append(" \u{20bd}");
    s
}

/// A trader's price: after a dollar sign for dollars, else before the currency.
pub fn trader_price(price: u32, currency: &str) -> (res: String)
    ensures
        currency@ == "$"@ ==> res@ == "$"@ + grouped_decimal(price as nat),
        currency@ != "$"@ ==> res@ == grouped_decimal(price as nat) + " "@ + currency@,
{
    let amount = english_grouped(price as u64);
    if crate::text::same_text(currency, "$") {
        let mut s = "$".to_string();
        s.append(amount.as_str());
        s
    } else {
        let mut s = amount;
        s.append(" ");
        s.append(currency);
        s
    }
}

/// The permissions the bot asks for when invited: `serenity`'s
/// `Permissions::VIEW_CHANNEL | USE_APPLICATION_COMMANDS | SEND_MESSAGES |
/// READ_MESSAGE_HISTORY`, as bits: claimed to be those flags' bits (10, 31,
/// 11 and 16) as Discord numbers them.
#[verifier::external_body]
fn invite_permissions() -> (res: u64)
    ensures
        res == 0x8001_0c00,
{
    (serenity::model::Permissions::VIEW_CHANNEL
        | serenity::model::Permissions::USE_APPLICATION_COMMANDS
        | serenity::model::Permissions::SEND_MESSAGES
        | serenity::model::Permissions::READ_MESSAGE_HISTORY).bits()
}

/// The link that adds the bot to a server.
pub open spec fn invite_text(application_id: u64) -> Seq<char> {
    "https://discord.com/api/oauth2/authorize?client_id="@ + decimal(application_id as nat) + "&permissions="@
        + decimal(0x8001_0c00) + "&scope=bot%20applications.commands"@
}

/// Writes the link that adds the bot to a server.
pub fn invite_link(application_id: u64) -> (res: String)
    ensures
        res@ == invite_text(application_id),
{
    let mut s = "https://discord.com/api/oauth2/authorize?client_id=".to_string();
    let id = u64_decimal(application_id);
    s.append(id.as_str());
    s.append("&permissions=");
    let p = u64_decimal(invite_permissions());
    s.append(p.as_str());
    s.append("&scope=bot%20applications.commands");
    s
}

} // verus!
