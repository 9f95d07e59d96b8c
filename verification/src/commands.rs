//! The bot's slash commands: the ones it registers with Discord, which handler
//! a command goes to, and the name a command is logged under.

use vstd::prelude::*;
use crate::text::same_text;

verus! {

/// The kind of value a command option takes.
#[derive(Debug, PartialEq, Eq, Structural, Clone, Copy)]
pub enum OptionKind {
    Text,
    Integer,
    User,
    Attachment,
}

/// An option of a command as it is registered.
pub struct OptionSpec {
    pub kind: OptionKind,
    pub name: &'static str,
    pub description: &'static str,
    pub required: bool,
    pub min: Option<i64>,
    pub max: Option<i64>,
    /// The values a text option is limited to: (label, value).
    pub choices: Vec<(&'static str, &'static str)>,
}

/// A subcommand as it is registered.
pub struct SubCommandSpec {
    pub name: &'static str,
    pub description: &'static str,
    pub options: Vec<OptionSpec>,
}

/// A command as it is registered.
pub struct CommandSpec {
    pub name: &'static str,
    pub description: &'static str,
    pub options: Vec<OptionSpec>,
    pub subcommands: Vec<SubCommandSpec>,
}

/// An option as plain values: kind, name, description, required, bounds, choices.
pub type OptionView = (OptionKind, Seq<char>, Seq<char>, bool, Option<i64>, Option<i64>, Seq<(Seq<char>, Seq<char>)>);

/// A command as plain values: name, description, options, subcommands (name,
/// description, options).
pub type CommandView = (Seq<char>, Seq<char>, Seq<OptionView>, Seq<(Seq<char>, Seq<char>, Seq<OptionView>)>);

/// An option as plain values.
pub open spec fn option_view(o: OptionSpec) -> OptionView {
    (o.kind, o.name@, o.description@, o.required, o.min, o.max, o.choices@.map_values(
        |c: (&'static str, &'static str)| (c.0@, c.1@),
    ))
}

/// A command as plain values.
pub open spec fn command_view(c: CommandSpec) -> CommandView {
    (c.name@, c.description@, c.options@.map_values(|o: OptionSpec| option_view(o)), c.subcommands@.map_values(
        |s: SubCommandSpec| (s.name@, s.description@, s.options@.map_values(|o: OptionSpec| option_view(o))),
    ))
}

fn guild_birdtime() -> (res: CommandSpec)
    ensures
        command_view(res) == ("birdtime"@, "Sends the current time for bird"@, Seq::<OptionView>::empty(), Seq::<(Seq<char>, Seq<char>, Seq<OptionView>)>::empty()),
{
    let options: Vec<OptionSpec> = Vec::new();
    let subcommands: Vec<SubCommandSpec> = Vec::new();
    let res = CommandSpec { name: "birdtime", description: "Sends the current time for bird", options, subcommands };
    assert(command_view(res).2 =~~= Seq::<OptionView>::empty());
    assert(command_view(res).3 =~~= Seq::<(Seq<char>, Seq<char>, Seq<OptionView>)>::empty());
    res
}

fn guild_mirotime() -> (res: CommandSpec)
    ensures
        command_view(res) == ("mirotime"@, "Sends the current time for miro"@, Seq::<OptionView>::empty(), Seq::<(Seq<char>, Seq<char>, Seq<OptionView>)>::empty()),
{
    let options: Vec<OptionSpec> = Vec::new();
    let subcommands: Vec<SubCommandSpec> = Vec::new();
    let res = CommandSpec { name: "mirotime", description: "Sends the current time for miro", options, subcommands };
    assert(command_view(res).2 =~~= Seq::<OptionView>::empty());
    assert(command_view(res).3 =~~= Seq::<(Seq<char>, Seq<char>, Seq<OptionView>)>::empty());
    res
}

fn guild_nieltime() -> (res: CommandSpec)
    ensures
        command_view(res) == ("nieltime"@, "Sends the current time for niel"@, Seq::<OptionView>::empty(), Seq::<(Seq<char>, Seq<char>, Seq<OptionView>)>::empty()),
{
    let options: Vec<OptionSpec> = Vec::new();
    let subcommands: Vec<SubCommandSpec> = Vec::new();
    let res = CommandSpec { name: "nieltime", description: "Sends the current time for niel", options, subcommands };
    assert(command_view(res).2 =~~= Seq::<OptionView>::empty());
    assert(command_view(res).3 =~~= Seq::<(Seq<char>, Seq<char>, Seq<OptionView>)>::empty());
    res
}

fn guild_realtime() -> (res: CommandSpec)
    ensures
        command_view(res) == ("realtime"@, "Sends the current time for the mainlanders"@, Seq::<OptionView>::empty(), Seq::<(Seq<char>, Seq<char>, Seq<OptionView>)>::empty()),
{
    let options: Vec<OptionSpec> = Vec::new();
    let subcommands: Vec<SubCommandSpec> = Vec::new();
    let res = CommandSpec { name: "realtime", description: "Sends the current time for the mainlanders", options, subcommands };
    assert(command_view(res).2 =~~= Seq::<OptionView>::empty());
    assert(command_view(res).3 =~~= Seq::<(Seq<char>, Seq<char>, Seq<OptionView>)>::empty());
    res
}

fn guild_sebbitime() -> (res: CommandSpec)
    ensures
        command_view(res) == ("sebbitime"@, "Sends the current time for sebbi"@, Seq::<OptionView>::empty(), Seq::<(Seq<char>, Seq<char>, Seq<OptionView>)>::empty()),
{
    let options: Vec<OptionSpec> = Vec::new();
    let subcommands: Vec<SubCommandSpec> = Vec::new();
    let res = CommandSpec { name: "sebbitime", description: "Sends the current time for sebbi", options, subcommands };
    assert(command_view(res).2 =~~= Seq::<OptionView>::empty());
    assert(command_view(res).3 =~~= Seq::<(Seq<char>, Seq<char>, Seq<OptionView>)>::empty());
    res
}

/// The commands registered in the home server, in order.
pub open spec fn guild_command(i: int) -> CommandView {
    if i == 0 {
        ("birdtime"@, "Sends the current time for bird"@, Seq::<OptionView>::empty(), Seq::<(Seq<char>, Seq<char>, Seq<OptionView>)>::empty())
    } else if i == 1 {
        ("mirotime"@, "Sends the current time for miro"@, Seq::<OptionView>::empty(), Seq::<(Seq<char>, Seq<char>, Seq<OptionView>)>::empty())
    } else if i == 2 {
        ("nieltime"@, "Sends the current time for niel"@, Seq::<OptionView>::empty(), Seq::<(Seq<char>, Seq<char>, Seq<OptionView>)>::empty())
    } else if i == 3 {
        ("realtime"@, "Sends the current time for the mainlanders"@, Seq::<OptionView>::empty(), Seq::<(Seq<char>, Seq<char>, Seq<OptionView>)>::empty())
    } else {
        ("sebbitime"@, "Sends the current time for sebbi"@, Seq::<OptionView>::empty(), Seq::<(Seq<char>, Seq<char>, Seq<OptionView>)>::empty())
    }
}

/// The commands registered in the home server.
pub fn guild_commands() -> (res: Vec<CommandSpec>)
    ensures
        res@.len() == 5,
        forall|i: int| 0 <= i < 5 ==> command_view(#[trigger] res@[i]) == guild_command(i),
{
    let mut res: Vec<CommandSpec> = Vec::new();
    res.push(guild_birdtime());
    res.push(guild_mirotime());
    res.push(guild_nieltime());
    res.push(guild_realtime());
    res.push(guild_sebbitime());
    assert forall|i: int| 0 <= i < 5 implies command_view(#[trigger] res@[i]) == guild_command(i) by {
    }
    res
}

fn global_affixes() -> (res: CommandSpec)
    ensures
        command_view(res) == ("affixes"@, "Sends this week's US Mythic+ affixes"@, Seq::<OptionView>::empty(), Seq::<(Seq<char>, Seq<char>, Seq<OptionView>)>::empty()),
{
    let options: Vec<OptionSpec> = Vec::new();
    let subcommands: Vec<SubCommandSpec> = Vec::new();
    let res = CommandSpec { name: "affixes", description: "Sends this week's US Mythic+ affixes", options, subcommands };
    assert(command_view(res).2 =~~= Seq::<OptionView>::empty());
    assert(command_view(res).3 =~~= Seq::<(Seq<char>, Seq<char>, Seq<OptionView>)>::empty());
    res
}

fn global_botinfo() -> (res: CommandSpec)
    ensures
        command_view(res) == ("botinfo"@, "Displays details about the bot"@, Seq::<OptionView>::empty(), Seq::<(Seq<char>, Seq<char>, Seq<OptionView>)>::empty()),
{
    let options: Vec<OptionSpec> = Vec::new();
    let subcommands: Vec<SubCommandSpec> = Vec::new();
    let res = CommandSpec { name: "botinfo", description: "Displays details about the bot", options, subcommands };
    assert(command_view(res).2 =~~= Seq::<OptionView>::empty());
    assert(command_view(res).3 =~~= Seq::<(Seq<char>, Seq<char>, Seq<OptionView>)>::empty());
    res
}

fn global_downvote() -> (res: CommandSpec)
    ensures
        command_view(res) == ("downvote"@, "Downvote a user (lowering their karma by one)"@, seq![(OptionKind::User, "user"@, "User to downvote"@, true, None::<i64>, None::<i64>, Seq::<(Seq<char>, Seq<char>)>::empty())], Seq::<(Seq<char>, Seq<char>, Seq<OptionView>)>::empty()),
{
    let mut options: Vec<OptionSpec> = Vec::new();
    {
    let choices: Vec<(&'static str, &'static str)> = Vec::new();
    options.push(OptionSpec { kind: OptionKind::User, name: "user", description: "User to downvote", required: true, min: None::<i64>, max: None::<i64>, choices });
    }
    let subcommands: Vec<SubCommandSpec> = Vec::new();
    let res = CommandSpec { name: "downvote", description: "Downvote a user (lowering their karma by one)", options, subcommands };
    assert(command_view(res).2 =~~= seq![(OptionKind::User, "user"@, "User to downvote"@, true, None::<i64>, None::<i64>, Seq::<(Seq<char>, Seq<char>)>::empty())]);
    assert(command_view(res).3 =~~= Seq::<(Seq<char>, Seq<char>, Seq<OptionView>)>::empty());
    res
}

fn global_forecast() -> (res: CommandSpec)
    ensures
        command_view(res) == ("forecast"@, "Sends hourly weather conditions over the next 12 hours for an area"@, seq![(OptionKind::Text, "location"@, "Area to get weather for; can be city name, postal code, or decimal lat/long (default: Austin, TX)"@, false, None::<i64>, None::<i64>, Seq::<(Seq<char>, Seq<char>)>::empty()), (OptionKind::Integer, "hours"@, "How many hours into the future to forecast (default: 6)"@, false, Some(2i64), Some(12i64), Seq::<(Seq<char>, Seq<char>)>::empty())], Seq::<(Seq<char>, Seq<char>, Seq<OptionView>)>::empty()),
{
    let mut options: Vec<OptionSpec> = Vec::new();
    {
    let choices: Vec<(&'static str, &'static str)> = Vec::new();
    options.push(OptionSpec { kind: OptionKind::Text, name: "location", description: "Area to get weather for; can be city name, postal code, or decimal lat/long (default: Austin, TX)", required: false, min: None::<i64>, max: None::<i64>, choices });
    }
    {
    let choices: Vec<(&'static str, &'static str)> = Vec::new();
    options.push(OptionSpec { kind: OptionKind::Integer, name: "hours", description: "How many hours into the future to forecast (default: 6)", required: false, min: Some(2i64), max: Some(12i64), choices });
    }
    let subcommands: Vec<SubCommandSpec> = Vec::new();
    let res = CommandSpec { name: "forecast", description: "Sends hourly weather conditions over the next 12 hours for an area", options, subcommands };
    assert(command_view(res).2 =~~= seq![(OptionKind::Text, "location"@, "Area to get weather for; can be city name, postal code, or decimal lat/long (default: Austin, TX)"@, false, None::<i64>, None::<i64>, Seq::<(Seq<char>, Seq<char>)>::empty()), (OptionKind::Integer, "hours"@, "How many hours into the future to forecast (default: 6)"@, false, Some(2i64), Some(12i64), Seq::<(Seq<char>, Seq<char>)>::empty())]);
    assert(command_view(res).3 =~~= Seq::<(Seq<char>, Seq<char>, Seq<OptionView>)>::empty());
    res
}

fn global_fortune() -> (res: CommandSpec)
    ensures
        command_view(res) == ("fortune"@, "Sends a random adage"@, Seq::<OptionView>::empty(), Seq::<(Seq<char>, Seq<char>, Seq<OptionView>)>::empty()),
{
    let options: Vec<OptionSpec> = Vec::new();
    let subcommands: Vec<SubCommandSpec> = Vec::new();
    let res = CommandSpec { name: "fortune", description: "Sends a random adage", options, subcommands };
    assert(command_view(res).2 =~~= Seq::<OptionView>::empty());
    assert(command_view(res).3 =~~= Seq::<(Seq<char>, Seq<char>, Seq<OptionView>)>::empty());
    res
}

fn global_jpg() -> (res: CommandSpec)
    ensures
        command_view(res) == ("jpg"@, "Efficiently compresses the most recently posted image"@, seq![(OptionKind::Attachment, "image"@, "Or directly upload an image to be efficiently compressed"@, false, None::<i64>, None::<i64>, Seq::<(Seq<char>, Seq<char>)>::empty())], Seq::<(Seq<char>, Seq<char>, Seq<OptionView>)>::empty()),
{
    let mut options: Vec<OptionSpec> = Vec::new();
    {
    let choices: Vec<(&'static str, &'static str)> = Vec::new();
    options.push(OptionSpec { kind: OptionKind::Attachment, name: "image", description: "Or directly upload an image to be efficiently compressed", required: false, min: None::<i64>, max: None::<i64>, choices });
    }
    let subcommands: Vec<SubCommandSpec> = Vec::new();
    let res = CommandSpec { name: "jpg", description: "Efficiently compresses the most recently posted image", options, subcommands };
    assert(command_view(res).2 =~~= seq![(OptionKind::Attachment, "image"@, "Or directly upload an image to be efficiently compressed"@, false, None::<i64>, None::<i64>, Seq::<(Seq<char>, Seq<char>)>::empty())]);
    assert(command_view(res).3 =~~= Seq::<(Seq<char>, Seq<char>, Seq<OptionView>)>::empty());
    res
}

fn global_serverinfo() -> (res: CommandSpec)
    ensures
        command_view(res) == ("serverinfo"@, "Displays details about this server"@, Seq::<OptionView>::empty(), Seq::<(Seq<char>, Seq<char>, Seq<OptionView>)>::empty()),
{
    let options: Vec<OptionSpec> = Vec::new();
    let subcommands: Vec<SubCommandSpec> = Vec::new();
    let res = CommandSpec { name: "serverinfo", description: "Displays details about this server", options, subcommands };
    assert(command_view(res).2 =~~= Seq::<OptionView>::empty());
    assert(command_view(res).3 =~~= Seq::<(Seq<char>, Seq<char>, Seq<OptionView>)>::empty());
    res
}

fn global_invite() -> (res: CommandSpec)
    ensures
        command_view(res) == ("invite"@, "Generates link to add bot to a server you administrate"@, Seq::<OptionView>::empty(), Seq::<(Seq<char>, Seq<char>, Seq<OptionView>)>::empty()),
{
    let options: Vec<OptionSpec> = Vec::new();
    let subcommands: Vec<SubCommandSpec> = Vec::new();
    let res = CommandSpec { name: "invite", description: "Generates link to add bot to a server you administrate", options, subcommands };
    assert(command_view(res).2 =~~= Seq::<OptionView>::empty());
    assert(command_view(res).3 =~~= Seq::<(Seq<char>, Seq<char>, Seq<OptionView>)>::empty());
    res
}

fn global_karma() -> (res: CommandSpec)
    ensures
        command_view(res) == ("karma"@, "Lists members by karma points"@, seq![(OptionKind::Integer, "count"@, "The number of members to list (defaults to 5)"@, false, Some(1i64), Some(100i64), Seq::<(Seq<char>, Seq<char>)>::empty())], Seq::<(Seq<char>, Seq<char>, Seq<OptionView>)>::empty()),
{
    let mut options: Vec<OptionSpec> = Vec::new();
    {
    let choices: Vec<(&'static str, &'static str)> = Vec::new();
    options.push(OptionSpec { kind: OptionKind::Integer, name: "count", description: "The number of members to list (defaults to 5)", required: false, min: Some(1i64), max: Some(100i64), choices });
    }
    let subcommands: Vec<SubCommandSpec> = Vec::new();
    let res = CommandSpec { name: "karma", description: "Lists members by karma points", options, subcommands };
    assert(command_view(res).2 =~~= seq![(OptionKind::Integer, "count"@, "The number of members to list (defaults to 5)"@, false, Some(1i64), Some(100i64), Seq::<(Seq<char>, Seq<char>)>::empty())]);
    assert(command_view(res).3 =~~= Seq::<(Seq<char>, Seq<char>, Seq<OptionView>)>::empty());
    res
}

fn global_lastseen() -> (res: CommandSpec)
    ensures
        command_view(res) == ("lastseen"@, "Sends how long it's been since a user was last online"@, seq![(OptionKind::User, "user"@, "User to check"@, true, None::<i64>, None::<i64>, Seq::<(Seq<char>, Seq<char>)>::empty())], Seq::<(Seq<char>, Seq<char>, Seq<OptionView>)>::empty()),
{
    let mut options: Vec<OptionSpec> = Vec::new();
    {
    let choices: Vec<(&'static str, &'static str)> = Vec::new();
    options.push(OptionSpec { kind: OptionKind::User, name: "user", description: "User to check", required: true, min: None::<i64>, max: None::<i64>, choices });
    }
    let subcommands: Vec<SubCommandSpec> = Vec::new();
    let res = CommandSpec { name: "lastseen", description: "Sends how long it's been since a user was last online", options, subcommands };
    assert(command_view(res).2 =~~= seq![(OptionKind::User, "user"@, "User to check"@, true, None::<i64>, None::<i64>, Seq::<(Seq<char>, Seq<char>)>::empty())]);
    assert(command_view(res).3 =~~= Seq::<(Seq<char>, Seq<char>, Seq<OptionView>)>::empty());
    res
}

fn global_lastplayed() -> (res: CommandSpec)
    ensures
        command_view(res) == ("lastplayed"@, "How long it's been since a user was last playing a game, and the game they were playing"@, seq![(OptionKind::User, "user"@, "User to check"@, true, None::<i64>, None::<i64>, Seq::<(Seq<char>, Seq<char>)>::empty())], Seq::<(Seq<char>, Seq<char>, Seq<OptionView>)>::empty()),
{
    let mut options: Vec<OptionSpec> = Vec::new();
    {
    let choices: Vec<(&'static str, &'static str)> = Vec::new();
    options.push(OptionSpec { kind: OptionKind::User, name: "user", description: "User to check", required: true, min: None::<i64>, max: None::<i64>, choices });
    }
    let subcommands: Vec<SubCommandSpec> = Vec::new();
    let res = CommandSpec { name: "lastplayed", description: "How long it's been since a user was last playing a game, and the game they were playing", options, subcommands };
    assert(command_view(res).2 =~~= seq![(OptionKind::User, "user"@, "User to check"@, true, None::<i64>, None::<i64>, Seq::<(Seq<char>, Seq<char>)>::empty())]);
    assert(command_view(res).3 =~~= Seq::<(Seq<char>, Seq<char>, Seq<OptionView>)>::empty());
    res
}

fn global_math() -> (res: CommandSpec)
    ensures
        command_view(res) == ("math"@, "Does math (with Wolfram Alpha)"@, seq![(OptionKind::Text, "question"@, "A question; answerable by text"@, true, None::<i64>, None::<i64>, Seq::<(Seq<char>, Seq<char>)>::empty())], Seq::<(Seq<char>, Seq<char>, Seq<OptionView>)>::empty()),
{
    let mut options: Vec<OptionSpec> = Vec::new();
    {
    let choices: Vec<(&'static str, &'static str)> = Vec::new();
    options.push(OptionSpec { kind: OptionKind::Text, name: "question", description: "A question; answerable by text", required: true, min: None::<i64>, max: None::<i64>, choices });
    }
    let subcommands: Vec<SubCommandSpec> = Vec::new();
    let res = CommandSpec { name: "math", description: "Does math (with Wolfram Alpha)", options, subcommands };
    assert(command_view(res).2 =~~= seq![(OptionKind::Text, "question"@, "A question; answerable by text"@, true, None::<i64>, None::<i64>, Seq::<(Seq<char>, Seq<char>)>::empty())]);
    assert(command_view(res).3 =~~= Seq::<(Seq<char>, Seq<char>, Seq<OptionView>)>::empty());
    res
}

fn global_ping() -> (res: CommandSpec)
    ensures
        command_view(res) == ("ping"@, "pong"@, Seq::<OptionView>::empty(), Seq::<(Seq<char>, Seq<char>, Seq<OptionView>)>::empty()),
{
    let options: Vec<OptionSpec> = Vec::new();
    let subcommands: Vec<SubCommandSpec> = Vec::new();
    let res = CommandSpec { name: "ping", description: "pong", options, subcommands };
    assert(command_view(res).2 =~~= Seq::<OptionView>::empty());
    assert(command_view(res).3 =~~= Seq::<(Seq<char>, Seq<char>, Seq<OptionView>)>::empty());
    res
}

fn global_playtime() -> (res: CommandSpec)
    ensures
        command_view(res) == ("playtime"@, "Shows all recorded video game playtime of a user or everyone in this server"@, seq![(OptionKind::User, "user"@, "User to show playtime for"@, false, None::<i64>, None::<i64>, Seq::<(Seq<char>, Seq<char>)>::empty())], Seq::<(Seq<char>, Seq<char>, Seq<OptionView>)>::empty()),
{
    let mut options: Vec<OptionSpec> = Vec::new();
    {
    let choices: Vec<(&'static str, &'static str)> = Vec::new();
    options.push(OptionSpec { kind: OptionKind::User, name: "user", description: "User to show playtime for", required: false, min: None::<i64>, max: None::<i64>, choices });
    }
    let subcommands: Vec<SubCommandSpec> = Vec::new();
    let res = CommandSpec { name: "playtime", description: "Shows all recorded video game playtime of a user or everyone in this server", options, subcommands };
    assert(command_view(res).2 =~~= seq![(OptionKind::User, "user"@, "User to show playtime for"@, false, None::<i64>, None::<i64>, Seq::<(Seq<char>, Seq<char>)>::empty())]);
    assert(command_view(res).3 =~~= Seq::<(Seq<char>, Seq<char>, Seq<OptionView>)>::empty());
    res
}

fn global_raiderio() -> (res: CommandSpec)
    ensures
        command_view(res) == ("raiderio"@, "Displays raider.io stats for given character"@, seq![(OptionKind::Text, "character"@, "Character to get stats for"@, true, None::<i64>, None::<i64>, Seq::<(Seq<char>, Seq<char>)>::empty()), (OptionKind::Text, "realm"@, "Realm that character is on"@, true, None::<i64>, None::<i64>, Seq::<(Seq<char>, Seq<char>)>::empty())], Seq::<(Seq<char>, Seq<char>, Seq<OptionView>)>::empty()),
{
    let mut options: Vec<OptionSpec> = Vec::new();
    {
    let choices: Vec<(&'static str, &'static str)> = Vec::new();
    options.push(OptionSpec { kind: OptionKind::Text, name: "character", description: "Character to get stats for", required: true, min: None::<i64>, max: None::<i64>, choices });
    }
    {
    let choices: Vec<(&'static str, &'static str)> = Vec::new();
    options.push(OptionSpec { kind: OptionKind::Text, name: "realm", description: "Realm that character is on", required: true, min: None::<i64>, max: None::<i64>, choices });
    }
    let subcommands: Vec<SubCommandSpec> = Vec::new();
    let res = CommandSpec { name: "raiderio", description: "Displays raider.io stats for given character", options, subcommands };
    assert(command_view(res).2 =~~= seq![(OptionKind::Text, "character"@, "Character to get stats for"@, true, None::<i64>, None::<i64>, Seq::<(Seq<char>, Seq<char>)>::empty()), (OptionKind::Text, "realm"@, "Realm that character is on"@, true, None::<i64>, None::<i64>, Seq::<(Seq<char>, Seq<char>)>::empty())]);
    assert(command_view(res).3 =~~= Seq::<(Seq<char>, Seq<char>, Seq<OptionView>)>::empty());
    res
}

fn global_recentplaytime() -> (res: CommandSpec)
    ensures
        command_view(res) == ("recentplaytime"@, "Shows video game playtime over a specified duration of a user or everyone in this server"@, seq![(OptionKind::Text, "duration"@, "Duration to show playtime for (1 week, 2 months, etc)"@, true, None::<i64>, None::<i64>, Seq::<(Seq<char>, Seq<char>)>::empty()), (OptionKind::User, "user"@, "User to show playtime for"@, false, None::<i64>, None::<i64>, Seq::<(Seq<char>, Seq<char>)>::empty())], Seq::<(Seq<char>, Seq<char>, Seq<OptionView>)>::empty()),
{
    let mut options: Vec<OptionSpec> = Vec::new();
    {
    let choices: Vec<(&'static str, &'static str)> = Vec::new();
    options.push(OptionSpec { kind: OptionKind::Text, name: "duration", description: "Duration to show playtime for (1 week, 2 months, etc)", required: true, min: None::<i64>, max: None::<i64>, choices });
    }
    {
    let choices: Vec<(&'static str, &'static str)> = Vec::new();
    options.push(OptionSpec { kind: OptionKind::User, name: "user", description: "User to show playtime for", required: false, min: None::<i64>, max: None::<i64>, choices });
    }
    let subcommands: Vec<SubCommandSpec> = Vec::new();
    let res = CommandSpec { name: "recentplaytime", description: "Shows video game playtime over a specified duration of a user or everyone in this server", options, subcommands };
    assert(command_view(res).2 =~~= seq![(OptionKind::Text, "duration"@, "Duration to show playtime for (1 week, 2 months, etc)"@, true, None::<i64>, None::<i64>, Seq::<(Seq<char>, Seq<char>)>::empty()), (OptionKind::User, "user"@, "User to show playtime for"@, false, None::<i64>, None::<i64>, Seq::<(Seq<char>, Seq<char>)>::empty())]);
    assert(command_view(res).3 =~~= Seq::<(Seq<char>, Seq<char>, Seq<OptionView>)>::empty());
    res
}

fn global_roll() -> (res: CommandSpec)
    ensures
        command_view(res) == ("roll"@, "Roll a die"@, seq![(OptionKind::Integer, "sides"@, "Sides on die (default 100)"@, false, Some(1i64), Some(4294967295i64), Seq::<(Seq<char>, Seq<char>)>::empty())], Seq::<(Seq<char>, Seq<char>, Seq<OptionView>)>::empty()),
{
    let mut options: Vec<OptionSpec> = Vec::new();
    {
    let choices: Vec<(&'static str, &'static str)> = Vec::new();
    options.push(OptionSpec { kind: OptionKind::Integer, name: "sides", description: "Sides on die (default 100)", required: false, min: Some(1i64), max: Some(4294967295i64), choices });
    }
    let subcommands: Vec<SubCommandSpec> = Vec::new();
    let res = CommandSpec { name: "roll", description: "Roll a die", options, subcommands };
    assert(command_view(res).2 =~~= seq![(OptionKind::Integer, "sides"@, "Sides on die (default 100)"@, false, Some(1i64), Some(4294967295i64), Seq::<(Seq<char>, Seq<char>)>::empty())]);
    assert(command_view(res).3 =~~= Seq::<(Seq<char>, Seq<char>, Seq<OptionView>)>::empty());
    res
}

fn global_source() -> (res: CommandSpec)
    ensures
        command_view(res) == ("source"@, "Sends link to bot source code"@, Seq::<OptionView>::empty(), Seq::<(Seq<char>, Seq<char>, Seq<OptionView>)>::empty()),
{
    let options: Vec<OptionSpec> = Vec::new();
    let subcommands: Vec<SubCommandSpec> = Vec::new();
    let res = CommandSpec { name: "source", description: "Sends link to bot source code", options, subcommands };
    assert(command_view(res).2 =~~= Seq::<OptionView>::empty());
    assert(command_view(res).3 =~~= Seq::<(Seq<char>, Seq<char>, Seq<OptionView>)>::empty());
    res
}

fn global_top() -> (res: CommandSpec)
    ensures
        command_view(res) == ("top"@, "Lists members by number of sent messages"@, seq![(OptionKind::Integer, "count"@, "The number of members to list (defaults to 5)"@, false, Some(1i64), Some(100i64), Seq::<(Seq<char>, Seq<char>)>::empty())], Seq::<(Seq<char>, Seq<char>, Seq<OptionView>)>::empty()),
{
    let mut options: Vec<OptionSpec> = Vec::new();
    {
    let choices: Vec<(&'static str, &'static str)> = Vec::new();
    options.push(OptionSpec { kind: OptionKind::Integer, name: "count", description: "The number of members to list (defaults to 5)", required: false, min: Some(1i64), max: Some(100i64), choices });
    }
    let subcommands: Vec<SubCommandSpec> = Vec::new();
    let res = CommandSpec { name: "top", description: "Lists members by number of sent messages", options, subcommands };
    assert(command_view(res).2 =~~= seq![(OptionKind::Integer, "count"@, "The number of members to list (defaults to 5)"@, false, Some(1i64), Some(100i64), Seq::<(Seq<char>, Seq<char>)>::empty())]);
    assert(command_view(res).3 =~~= Seq::<(Seq<char>, Seq<char>, Seq<OptionView>)>::empty());
    res
}

fn global_topcommand() -> (res: CommandSpec)
    ensures
        command_view(res) == ("topcommand"@, "Lists members by most command invocations"@, seq![(OptionKind::Text, "command"@, "Command to list invocations for"@, true, None::<i64>, None::<i64>, Seq::<(Seq<char>, Seq<char>)>::empty())], Seq::<(Seq<char>, Seq<char>, Seq<OptionView>)>::empty()),
{
    let mut options: Vec<OptionSpec> = Vec::new();
    {
    let choices: Vec<(&'static str, &'static str)> = Vec::new();
    options.push(OptionSpec { kind: OptionKind::Text, name: "command", description: "Command to list invocations for", required: true, min: None::<i64>, max: None::<i64>, choices });
    }
    let subcommands: Vec<SubCommandSpec> = Vec::new();
    let res = CommandSpec { name: "topcommand", description: "Lists members by most command invocations", options, subcommands };
    assert(command_view(res).2 =~~= seq![(OptionKind::Text, "command"@, "Command to list invocations for"@, true, None::<i64>, None::<i64>, Seq::<(Seq<char>, Seq<char>)>::empty())]);
    assert(command_view(res).3 =~~= Seq::<(Seq<char>, Seq<char>, Seq<OptionView>)>::empty());
    res
}

fn global_toplength() -> (res: CommandSpec)
    ensures
        command_view(res) == ("toplength"@, "Lists members by average length of sent messages"@, seq![(OptionKind::Integer, "count"@, "The number of members to list (defaults to 5)"@, false, Some(1i64), Some(100i64), Seq::<(Seq<char>, Seq<char>)>::empty())], Seq::<(Seq<char>, Seq<char>, Seq<OptionView>)>::empty()),
{
    let mut options: Vec<OptionSpec> = Vec::new();
    {
    let choices: Vec<(&'static str, &'static str)> = Vec::new();
    options.push(OptionSpec { kind: OptionKind::Integer, name: "count", description: "The number of members to list (defaults to 5)", required: false, min: Some(1i64), max: Some(100i64), choices });
    }
    let subcommands: Vec<SubCommandSpec> = Vec::new();
    let res = CommandSpec { name: "toplength", description: "Lists members by average length of sent messages", options, subcommands };
    assert(command_view(res).2 =~~= seq![(OptionKind::Integer, "count"@, "The number of members to list (defaults to 5)"@, false, Some(1i64), Some(100i64), Seq::<(Seq<char>, Seq<char>)>::empty())]);
    assert(command_view(res).3 =~~= Seq::<(Seq<char>, Seq<char>, Seq<OptionView>)>::empty());
    res
}

fn global_track() -> (res: CommandSpec)
    ensures
        command_view(res) == ("track"@, "Track shipment"@, seq![(OptionKind::Text, "carrier"@, "Shipping company"@, true, None::<i64>, None::<i64>, seq![("FedEx"@, "fedex"@), ("UPS"@, "ups"@), ("USPS"@, "usps"@)]), (OptionKind::Text, "number"@, "Tracking number"@, true, None::<i64>, None::<i64>, Seq::<(Seq<char>, Seq<char>)>::empty()), (OptionKind::Text, "comment"@, "Optional comment descriping shipment, will be sent to channel upon package delivery"@, false, None::<i64>, None::<i64>, Seq::<(Seq<char>, Seq<char>)>::empty())], Seq::<(Seq<char>, Seq<char>, Seq<OptionView>)>::empty()),
{
    let mut options: Vec<OptionSpec> = Vec::new();
    {
    let mut choices: Vec<(&'static str, &'static str)> = Vec::new();
    choices.push(("FedEx", "fedex"));
    choices.push(("UPS", "ups"));
    choices.push(("USPS", "usps"));
    options.push(OptionSpec { kind: OptionKind::Text, name: "carrier", description: "Shipping company", required: true, min: None::<i64>, max: None::<i64>, choices });
    }
    {
    let choices: Vec<(&'static str, &'static str)> = Vec::new();
    options.push(OptionSpec { kind: OptionKind::Text, name: "number", description: "Tracking number", required: true, min: None::<i64>, max: None::<i64>, choices });
    }
    {
    let choices: Vec<(&'static str, &'static str)> = Vec::new();
    options.push(OptionSpec { kind: OptionKind::Text, name: "comment", description: "Optional comment descriping shipment, will be sent to channel upon package delivery", required: false, min: None::<i64>, max: None::<i64>, choices });
    }
    let subcommands: Vec<SubCommandSpec> = Vec::new();
    let res = CommandSpec { name: "track", description: "Track shipment", options, subcommands };
    assert(command_view(res).2 =~~= seq![(OptionKind::Text, "carrier"@, "Shipping company"@, true, None::<i64>, None::<i64>, seq![("FedEx"@, "fedex"@), ("UPS"@, "ups"@), ("USPS"@, "usps"@)]), (OptionKind::Text, "number"@, "Tracking number"@, true, None::<i64>, None::<i64>, Seq::<(Seq<char>, Seq<char>)>::empty()), (OptionKind::Text, "comment"@, "Optional comment descriping shipment, will be sent to channel upon package delivery"@, false, None::<i64>, None::<i64>, Seq::<(Seq<char>, Seq<char>)>::empty())]);
    assert(command_view(res).3 =~~= Seq::<(Seq<char>, Seq<char>, Seq<OptionView>)>::empty());
    res
}

fn global_userinfo() -> (res: CommandSpec)
    ensures
        command_view(res) == ("userinfo"@, "Displays details about a user"@, seq![(OptionKind::User, "user"@, "User to display"@, true, None::<i64>, None::<i64>, Seq::<(Seq<char>, Seq<char>)>::empty())], Seq::<(Seq<char>, Seq<char>, Seq<OptionView>)>::empty()),
{
    let mut options: Vec<OptionSpec> = Vec::new();
    {
    let choices: Vec<(&'static str, &'static str)> = Vec::new();
    options.push(OptionSpec { kind: OptionKind::User, name: "user", description: "User to display", required: true, min: None::<i64>, max: None::<i64>, choices });
    }
    let subcommands: Vec<SubCommandSpec> = Vec::new();
    let res = CommandSpec { name: "userinfo", description: "Displays details about a user", options, subcommands };
    assert(command_view(res).2 =~~= seq![(OptionKind::User, "user"@, "User to display"@, true, None::<i64>, None::<i64>, Seq::<(Seq<char>, Seq<char>)>::empty())]);
    assert(command_view(res).3 =~~= Seq::<(Seq<char>, Seq<char>, Seq<OptionView>)>::empty());
    res
}

fn global_upvote() -> (res: CommandSpec)
    ensures
        command_view(res) == ("upvote"@, "Upvote a user (increasing their karma by one)"@, seq![(OptionKind::User, "user"@, "User to upvote"@, true, None::<i64>, None::<i64>, Seq::<(Seq<char>, Seq<char>)>::empty())], Seq::<(Seq<char>, Seq<char>, Seq<OptionView>)>::empty()),
{
    let mut options: Vec<OptionSpec> = Vec::new();
    {
    let choices: Vec<(&'static str, &'static str)> = Vec::new();
    options.push(OptionSpec { kind: OptionKind::User, name: "user", description: "User to upvote", required: true, min: None::<i64>, max: None::<i64>, choices });
    }
    let subcommands: Vec<SubCommandSpec> = Vec::new();
    let res = CommandSpec { name: "upvote", description: "Upvote a user (increasing their karma by one)", options, subcommands };
    assert(command_view(res).2 =~~= seq![(OptionKind::User, "user"@, "User to upvote"@, true, None::<i64>, None::<i64>, Seq::<(Seq<char>, Seq<char>)>::empty())]);
    assert(command_view(res).3 =~~= Seq::<(Seq<char>, Seq<char>, Seq<OptionView>)>::empty());
    res
}

fn global_weather() -> (res: CommandSpec)
    ensures
        command_view(res) == ("weather"@, "Sends weather conditions for an area"@, seq![(OptionKind::Text, "location"@, "Area to get weather for; can be city name, postal code, or decimal lat/long (default: Austin, TX)"@, false, None::<i64>, None::<i64>, Seq::<(Seq<char>, Seq<char>)>::empty())], Seq::<(Seq<char>, Seq<char>, Seq<OptionView>)>::empty()),
{
    let mut options: Vec<OptionSpec> = Vec::new();
    {
    let choices: Vec<(&'static str, &'static str)> = Vec::new();
    options.push(OptionSpec { kind: OptionKind::Text, name: "location", description: "Area to get weather for; can be city name, postal code, or decimal lat/long (default: Austin, TX)", required: false, min: None::<i64>, max: None::<i64>, choices });
    }
    let subcommands: Vec<SubCommandSpec> = Vec::new();
    let res = CommandSpec { name: "weather", description: "Sends weather conditions for an area", options, subcommands };
    assert(command_view(res).2 =~~= seq![(OptionKind::Text, "location"@, "Area to get weather for; can be city name, postal code, or decimal lat/long (default: Austin, TX)"@, false, None::<i64>, None::<i64>, Seq::<(Seq<char>, Seq<char>)>::empty())]);
    assert(command_view(res).3 =~~= Seq::<(Seq<char>, Seq<char>, Seq<OptionView>)>::empty());
    res
}

fn global_whois() -> (res: CommandSpec)
    ensures
        command_view(res) == ("whois"@, "Lookup username by ID"@, seq![(OptionKind::Text, "id"@, "ID of user to find"@, true, None::<i64>, None::<i64>, Seq::<(Seq<char>, Seq<char>)>::empty())], Seq::<(Seq<char>, Seq<char>, Seq<OptionView>)>::empty()),
{
    let mut options: Vec<OptionSpec> = Vec::new();
    {
    let choices: Vec<(&'static str, &'static str)> = Vec::new();
    options.push(OptionSpec { kind: OptionKind::Text, name: "id", description: "ID of user to find", required: true, min: None::<i64>, max: None::<i64>, choices });
    }
    let subcommands: Vec<SubCommandSpec> = Vec::new();
    let res = CommandSpec { name: "whois", description: "Lookup username by ID", options, subcommands };
    assert(command_view(res).2 =~~= seq![(OptionKind::Text, "id"@, "ID of user to find"@, true, None::<i64>, None::<i64>, Seq::<(Seq<char>, Seq<char>)>::empty())]);
    assert(command_view(res).3 =~~= Seq::<(Seq<char>, Seq<char>, Seq<OptionView>)>::empty());
    res
}

fn global_wolframalpha() -> (res: CommandSpec)
    ensures
        command_view(res) == ("wolframalpha"@, "Queries Wolfram Alpha and returns an image result"@, seq![(OptionKind::Text, "input"@, "Input query"@, true, None::<i64>, None::<i64>, Seq::<(Seq<char>, Seq<char>)>::empty())], Seq::<(Seq<char>, Seq<char>, Seq<OptionView>)>::empty()),
{
    let mut options: Vec<OptionSpec> = Vec::new();
    {
    let choices: Vec<(&'static str, &'static str)> = Vec::new();
    options.push(OptionSpec { kind: OptionKind::Text, name: "input", description: "Input query", required: true, min: None::<i64>, max: None::<i64>, choices });
    }
    let subcommands: Vec<SubCommandSpec> = Vec::new();
    let res = CommandSpec { name: "wolframalpha", description: "Queries Wolfram Alpha and returns an image result", options, subcommands };
    assert(command_view(res).2 =~~= seq![(OptionKind::Text, "input"@, "Input query"@, true, None::<i64>, None::<i64>, Seq::<(Seq<char>, Seq<char>)>::empty())]);
    assert(command_view(res).3 =~~= Seq::<(Seq<char>, Seq<char>, Seq<OptionView>)>::empty());
    res
}

fn global_wow() -> (res: CommandSpec)
    ensures
        command_view(res) == ("wow"@, "World of Warcraft commands"@, Seq::<OptionView>::empty(), seq![("character"@, "WoW character details"@, seq![(OptionKind::Text, "character"@, "Character name"@, true, None::<i64>, None::<i64>, Seq::<(Seq<char>, Seq<char>)>::empty()), (OptionKind::Text, "realm"@, "Character's realm"@, true, None::<i64>, None::<i64>, Seq::<(Seq<char>, Seq<char>)>::empty())]), ("realm"@, "Status of WoW realm"@, seq![(OptionKind::Text, "realm"@, "Realm name"@, false, None::<i64>, None::<i64>, Seq::<(Seq<char>, Seq<char>)>::empty())]), ("search"@, "Search all realms for WoW character by name"@, seq![(OptionKind::Text, "character"@, "Character name"@, true, None::<i64>, None::<i64>, Seq::<(Seq<char>, Seq<char>)>::empty())]), ("transmog"@, "Image of character from WoW armory"@, seq![(OptionKind::Text, "character"@, "Character name"@, true, None::<i64>, None::<i64>, Seq::<(Seq<char>, Seq<char>)>::empty()), (OptionKind::Text, "realm"@, "Character's realm"@, true, None::<i64>, None::<i64>, Seq::<(Seq<char>, Seq<char>)>::empty())])]),
{
    let options: Vec<OptionSpec> = Vec::new();
    let mut subcommands: Vec<SubCommandSpec> = Vec::new();
    {
    let mut sub_options: Vec<OptionSpec> = Vec::new();
    {
    let choices: Vec<(&'static str, &'static str)> = Vec::new();
    sub_options.push(OptionSpec { kind: OptionKind::Text, name: "character", description: "Character name", required: true, min: None::<i64>, max: None::<i64>, choices });
    }
    {
    let choices: Vec<(&'static str, &'static str)> = Vec::new();
    sub_options.push(OptionSpec { kind: OptionKind::Text, name: "realm", description: "Character's realm", required: true, min: None::<i64>, max: None::<i64>, choices });
    }
    subcommands.push(SubCommandSpec { name: "character", description: "WoW character details", options: sub_options });
    }
    {
    let mut sub_options: Vec<OptionSpec> = Vec::new();
    {
    let choices: Vec<(&'static str, &'static str)> = Vec::new();
    sub_options.push(OptionSpec { kind: OptionKind::Text, name: "realm", description: "Realm name", required: false, min: None::<i64>, max: None::<i64>, choices });
    }
    subcommands.push(SubCommandSpec { name: "realm", description: "Status of WoW realm", options: sub_options });
    }
    {
    let mut sub_options: Vec<OptionSpec> = Vec::new();
    {
    let choices: Vec<(&'static str, &'static str)> = Vec::new();
    sub_options.push(OptionSpec { kind: OptionKind::Text, name: "character", description: "Character name", required: true, min: None::<i64>, max: None::<i64>, choices });
    }
    subcommands.push(SubCommandSpec { name: "search", description: "Search all realms for WoW character by name", options: sub_options });
    }
    {
    let mut sub_options: Vec<OptionSpec> = Vec::new();
    {
    let choices: Vec<(&'static str, &'static str)> = Vec::new();
    sub_options.push(OptionSpec { kind: OptionKind::Text, name: "character", description: "Character name", required: true, min: None::<i64>, max: None::<i64>, choices });
    }
    {
    let choices: Vec<(&'static str, &'static str)> = Vec::new();
    sub_options.push(OptionSpec { kind: OptionKind::Text, name: "realm", description: "Character's realm", required: true, min: None::<i64>, max: None::<i64>, choices });
    }
    subcommands.push(SubCommandSpec { name: "transmog", description: "Image of character from WoW armory", options: sub_options });
    }
    let res = CommandSpec { name: "wow", description: "World of Warcraft commands", options, subcommands };
    assert(command_view(res).2 =~~= Seq::<OptionView>::empty());
    assert(command_view(res).3 =~~= seq![("character"@, "WoW character details"@, seq![(OptionKind::Text, "character"@, "Character name"@, true, None::<i64>, None::<i64>, Seq::<(Seq<char>, Seq<char>)>::empty()), (OptionKind::Text, "realm"@, "Character's realm"@, true, None::<i64>, None::<i64>, Seq::<(Seq<char>, Seq<char>)>::empty())]), ("realm"@, "Status of WoW realm"@, seq![(OptionKind::Text, "realm"@, "Realm name"@, false, None::<i64>, None::<i64>, Seq::<(Seq<char>, Seq<char>)>::empty())]), ("search"@, "Search all realms for WoW character by name"@, seq![(OptionKind::Text, "character"@, "Character name"@, true, None::<i64>, None::<i64>, Seq::<(Seq<char>, Seq<char>)>::empty())]), ("transmog"@, "Image of character from WoW armory"@, seq![(OptionKind::Text, "character"@, "Character name"@, true, None::<i64>, None::<i64>, Seq::<(Seq<char>, Seq<char>)>::empty()), (OptionKind::Text, "realm"@, "Character's realm"@, true, None::<i64>, None::<i64>, Seq::<(Seq<char>, Seq<char>)>::empty())])]);
    res
}

fn global_zalgo() -> (res: CommandSpec)
    ensures
        command_view(res) == ("zalgo"@, "HE COMES"@, seq![(OptionKind::Text, "message"@, "HE COMES"@, true, None::<i64>, None::<i64>, Seq::<(Seq<char>, Seq<char>)>::empty())], Seq::<(Seq<char>, Seq<char>, Seq<OptionView>)>::empty()),
{
    let mut options: Vec<OptionSpec> = Vec::new();
    {
    let choices: Vec<(&'static str, &'static str)> = Vec::new();
    options.push(OptionSpec { kind: OptionKind::Text, name: "message", description: "HE COMES", required: true, min: None::<i64>, max: None::<i64>, choices });
    }
    let subcommands: Vec<SubCommandSpec> = Vec::new();
    let res = CommandSpec { name: "zalgo", description: "HE COMES", options, subcommands };
    assert(command_view(res).2 =~~= seq![(OptionKind::Text, "message"@, "HE COMES"@, true, None::<i64>, None::<i64>, Seq::<(Seq<char>, Seq<char>)>::empty())]);
    assert(command_view(res).3 =~~= Seq::<(Seq<char>, Seq<char>, Seq<OptionView>)>::empty());
    res
}

/// The commands registered everywhere, in order.
pub open spec fn global_command(i: int) -> CommandView {
    if i == 0 {
        ("affixes"@, "Sends this week's US Mythic+ affixes"@, Seq::<OptionView>::empty(), Seq::<(Seq<char>, Seq<char>, Seq<OptionView>)>::empty())
    } else if i == 1 {
        ("botinfo"@, "Displays details about the bot"@, Seq::<OptionView>::empty(), Seq::<(Seq<char>, Seq<char>, Seq<OptionView>)>::empty())
    } else if i == 2 {
        ("downvote"@, "Downvote a user (lowering their karma by one)"@, seq![(OptionKind::User, "user"@, "User to downvote"@, true, None::<i64>, None::<i64>, Seq::<(Seq<char>, Seq<char>)>::empty())], Seq::<(Seq<char>, Seq<char>, Seq<OptionView>)>::empty())
    } else if i == 3 {
        ("forecast"@, "Sends hourly weather conditions over the next 12 hours for an area"@, seq![(OptionKind::Text, "location"@, "Area to get weather for; can be city name, postal code, or decimal lat/long (default: Austin, TX)"@, false, None::<i64>, None::<i64>, Seq::<(Seq<char>, Seq<char>)>::empty()), (OptionKind::Integer, "hours"@, "How many hours into the future to forecast (default: 6)"@, false, Some(2i64), Some(12i64), Seq::<(Seq<char>, Seq<char>)>::empty())], Seq::<(Seq<char>, Seq<char>, Seq<OptionView>)>::empty())
    } else if i == 4 {
        ("fortune"@, "Sends a random adage"@, Seq::<OptionView>::empty(), Seq::<(Seq<char>, Seq<char>, Seq<OptionView>)>::empty())
    } else if i == 5 {
        ("jpg"@, "Efficiently compresses the most recently posted image"@, seq![(OptionKind::Attachment, "image"@, "Or directly upload an image to be efficiently compressed"@, false, None::<i64>, None::<i64>, Seq::<(Seq<char>, Seq<char>)>::empty())], Seq::<(Seq<char>, Seq<char>, Seq<OptionView>)>::empty())
    } else if i == 6 {
        ("serverinfo"@, "Displays details about this server"@, Seq::<OptionView>::empty(), Seq::<(Seq<char>, Seq<char>, Seq<OptionView>)>::empty())
    } else if i == 7 {
        ("invite"@, "Generates link to add bot to a server you administrate"@, Seq::<OptionView>::empty(), Seq::<(Seq<char>, Seq<char>, Seq<OptionView>)>::empty())
    } else if i == 8 {
        ("karma"@, "Lists members by karma points"@, seq![(OptionKind::Integer, "count"@, "The number of members to list (defaults to 5)"@, false, Some(1i64), Some(100i64), Seq::<(Seq<char>, Seq<char>)>::empty())], Seq::<(Seq<char>, Seq<char>, Seq<OptionView>)>::empty())
    } else if i == 9 {
        ("lastseen"@, "Sends how long it's been since a user was last online"@, seq![(OptionKind::User, "user"@, "User to check"@, true, None::<i64>, None::<i64>, Seq::<(Seq<char>, Seq<char>)>::empty())], Seq::<(Seq<char>, Seq<char>, Seq<OptionView>)>::empty())
    } else if i == 10 {
        ("lastplayed"@, "How long it's been since a user was last playing a game, and the game they were playing"@, seq![(OptionKind::User, "user"@, "User to check"@, true, None::<i64>, None::<i64>, Seq::<(Seq<char>, Seq<char>)>::empty())], Seq::<(Seq<char>, Seq<char>, Seq<OptionView>)>::empty())
    } else if i == 11 {
        ("math"@, "Does math (with Wolfram Alpha)"@, seq![(OptionKind::Text, "question"@, "A question; answerable by text"@, true, None::<i64>, None::<i64>, Seq::<(Seq<char>, Seq<char>)>::empty())], Seq::<(Seq<char>, Seq<char>, Seq<OptionView>)>::empty())
    } else if i == 12 {
        ("ping"@, "pong"@, Seq::<OptionView>::empty(), Seq::<(Seq<char>, Seq<char>, Seq<OptionView>)>::empty())
    } else if i == 13 {
        ("playtime"@, "Shows all recorded video game playtime of a user or everyone in this server"@, seq![(OptionKind::User, "user"@, "User to show playtime for"@, false, None::<i64>, None::<i64>, Seq::<(Seq<char>, Seq<char>)>::empty())], Seq::<(Seq<char>, Seq<char>, Seq<OptionView>)>::empty())
    } else if i == 14 {
        ("raiderio"@, "Displays raider.io stats for given character"@, seq![(OptionKind::Text, "character"@, "Character to get stats for"@, true, None::<i64>, None::<i64>, Seq::<(Seq<char>, Seq<char>)>::empty()), (OptionKind::Text, "realm"@, "Realm that character is on"@, true, None::<i64>, None::<i64>, Seq::<(Seq<char>, Seq<char>)>::empty())], Seq::<(Seq<char>, Seq<char>, Seq<OptionView>)>::empty())
    } else if i == 15 {
        ("recentplaytime"@, "Shows video game playtime over a specified duration of a user or everyone in this server"@, seq![(OptionKind::Text, "duration"@, "Duration to show playtime for (1 week, 2 months, etc)"@, true, None::<i64>, None::<i64>, Seq::<(Seq<char>, Seq<char>)>::empty()), (OptionKind::User, "user"@, "User to show playtime for"@, false, None::<i64>, None::<i64>, Seq::<(Seq<char>, Seq<char>)>::empty())], Seq::<(Seq<char>, Seq<char>, Seq<OptionView>)>::empty())
    } else if i == 16 {
        ("roll"@, "Roll a die"@, seq![(OptionKind::Integer, "sides"@, "Sides on die (default 100)"@, false, Some(1i64), Some(4294967295i64), Seq::<(Seq<char>, Seq<char>)>::empty())], Seq::<(Seq<char>, Seq<char>, Seq<OptionView>)>::empty())
    } else if i == 17 {
        ("source"@, "Sends link to bot source code"@, Seq::<OptionView>::empty(), Seq::<(Seq<char>, Seq<char>, Seq<OptionView>)>::empty())
    } else if i == 18 {
        ("top"@, "Lists members by number of sent messages"@, seq![(OptionKind::Integer, "count"@, "The number of members to list (defaults to 5)"@, false, Some(1i64), Some(100i64), Seq::<(Seq<char>, Seq<char>)>::empty())], Seq::<(Seq<char>, Seq<char>, Seq<OptionView>)>::empty())
    } else if i == 19 {
        ("topcommand"@, "Lists members by most command invocations"@, seq![(OptionKind::Text, "command"@, "Command to list invocations for"@, true, None::<i64>, None::<i64>, Seq::<(Seq<char>, Seq<char>)>::empty())], Seq::<(Seq<char>, Seq<char>, Seq<OptionView>)>::empty())
    } else if i == 20 {
        ("toplength"@, "Lists members by average length of sent messages"@, seq![(OptionKind::Integer, "count"@, "The number of members to list (defaults to 5)"@, false, Some(1i64), Some(100i64), Seq::<(Seq<char>, Seq<char>)>::empty())], Seq::<(Seq<char>, Seq<char>, Seq<OptionView>)>::empty())
    } else if i == 21 {
        ("track"@, "Track shipment"@, seq![(OptionKind::Text, "carrier"@, "Shipping company"@, true, None::<i64>, None::<i64>, seq![("FedEx"@, "fedex"@), ("UPS"@, "ups"@), ("USPS"@, "usps"@)]), (OptionKind::Text, "number"@, "Tracking number"@, true, None::<i64>, None::<i64>, Seq::<(Seq<char>, Seq<char>)>::empty()), (OptionKind::Text, "comment"@, "Optional comment descriping shipment, will be sent to channel upon package delivery"@, false, None::<i64>, None::<i64>, Seq::<(Seq<char>, Seq<char>)>::empty())], Seq::<(Seq<char>, Seq<char>, Seq<OptionView>)>::empty())
    } else if i == 22 {
        ("userinfo"@, "Displays details about a user"@, seq![(OptionKind::User, "user"@, "User to display"@, true, None::<i64>, None::<i64>, Seq::<(Seq<char>, Seq<char>)>::empty())], Seq::<(Seq<char>, Seq<char>, Seq<OptionView>)>::empty())
    } else if i == 23 {
        ("upvote"@, "Upvote a user (increasing their karma by one)"@, seq![(OptionKind::User, "user"@, "User to upvote"@, true, None::<i64>, None::<i64>, Seq::<(Seq<char>, Seq<char>)>::empty())], Seq::<(Seq<char>, Seq<char>, Seq<OptionView>)>::empty())
    } else if i == 24 {
        ("weather"@, "Sends weather conditions for an area"@, seq![(OptionKind::Text, "location"@, "Area to get weather for; can be city name, postal code, or decimal lat/long (default: Austin, TX)"@, false, None::<i64>, None::<i64>, Seq::<(Seq<char>, Seq<char>)>::empty())], Seq::<(Seq<char>, Seq<char>, Seq<OptionView>)>::empty())
    } else if i == 25 {
        ("whois"@, "Lookup username by ID"@, seq![(OptionKind::Text, "id"@, "ID of user to find"@, true, None::<i64>, None::<i64>, Seq::<(Seq<char>, Seq<char>)>::empty())], Seq::<(Seq<char>, Seq<char>, Seq<OptionView>)>::empty())
    } else if i == 26 {
        ("wolframalpha"@, "Queries Wolfram Alpha and returns an image result"@, seq![(OptionKind::Text, "input"@, "Input query"@, true, None::<i64>, None::<i64>, Seq::<(Seq<char>, Seq<char>)>::empty())], Seq::<(Seq<char>, Seq<char>, Seq<OptionView>)>::empty())
    } else if i == 27 {
        ("wow"@, "World of Warcraft commands"@, Seq::<OptionView>::empty(), seq![("character"@, "WoW character details"@, seq![(OptionKind::Text, "character"@, "Character name"@, true, None::<i64>, None::<i64>, Seq::<(Seq<char>, Seq<char>)>::empty()), (OptionKind::Text, "realm"@, "Character's realm"@, true, None::<i64>, None::<i64>, Seq::<(Seq<char>, Seq<char>)>::empty())]), ("realm"@, "Status of WoW realm"@, seq![(OptionKind::Text, "realm"@, "Realm name"@, false, None::<i64>, None::<i64>, Seq::<(Seq<char>, Seq<char>)>::empty())]), ("search"@, "Search all realms for WoW character by name"@, seq![(OptionKind::Text, "character"@, "Character name"@, true, None::<i64>, None::<i64>, Seq::<(Seq<char>, Seq<char>)>::empty())]), ("transmog"@, "Image of character from WoW armory"@, seq![(OptionKind::Text, "character"@, "Character name"@, true, None::<i64>, None::<i64>, Seq::<(Seq<char>, Seq<char>)>::empty()), (OptionKind::Text, "realm"@, "Character's realm"@, true, None::<i64>, None::<i64>, Seq::<(Seq<char>, Seq<char>)>::empty())])])
    } else {
        ("zalgo"@, "HE COMES"@, seq![(OptionKind::Text, "message"@, "HE COMES"@, true, None::<i64>, None::<i64>, Seq::<(Seq<char>, Seq<char>)>::empty())], Seq::<(Seq<char>, Seq<char>, Seq<OptionView>)>::empty())
    }
}

/// The commands registered everywhere.
pub fn global_commands() -> (res: Vec<CommandSpec>)
    ensures
        res@.len() == 29,
        forall|i: int| 0 <= i < 29 ==> command_view(#[trigger] res@[i]) == global_command(i),
{
    let mut res: Vec<CommandSpec> = Vec::new();
    res.push(global_affixes());
    res.push(global_botinfo());
    res.push(global_downvote());
    res.push(global_forecast());
    res.push(global_fortune());
    res.push(global_jpg());
    res.push(global_serverinfo());
    res.push(global_invite());
    res.push(global_karma());
    res.push(global_lastseen());
    res.push(global_lastplayed());
    res.push(global_math());
    res.push(global_ping());
    res.push(global_playtime());
    res.push(global_raiderio());
    res.push(global_recentplaytime());
    res.push(global_roll());
    res.push(global_source());
    res.push(global_top());
    res.push(global_topcommand());
    res.push(global_toplength());
    res.push(global_track());
    res.push(global_userinfo());
    res.push(global_upvote());
    res.push(global_weather());
    res.push(global_whois());
    res.push(global_wolframalpha());
    res.push(global_wow());
    res.push(global_zalgo());
    assert forall|i: int| 0 <= i < 29 implies command_view(#[trigger] res@[i]) == global_command(i) by {
    }
    res
}

/// A clock command's zone.
#[derive(Debug, PartialEq, Eq, Structural, Clone, Copy)]
pub enum Clock {
    Oslo,
    Helsinki,
    Stockholm,
    Chicago,
    Copenhagen,
}

/// The zone's IANA name.
pub open spec fn clock_zone(c: Clock) -> Seq<char> {
    match c {
        Clock::Oslo => "Europe/Oslo"@,
        Clock::Helsinki => "Europe/Helsinki"@,
        Clock::Stockholm => "Europe/Stockholm"@,
        Clock::Chicago => "America/Chicago"@,
        Clock::Copenhagen => "Europe/Copenhagen"@,
    }
}

impl Clock {
    /// The zone's IANA name.
    pub fn zone(&self) -> (res: &'static str)
        ensures
            res@ == clock_zone(*self),
    {
        match self {
            Clock::Oslo => "Europe/Oslo",
            Clock::Helsinki => "Europe/Helsinki",
            Clock::Stockholm => "Europe/Stockholm",
            Clock::Chicago => "America/Chicago",
            Clock::Copenhagen => "Europe/Copenhagen",
        }
    }
}

/// Which `wow` subcommand was asked for.
#[derive(Debug, PartialEq, Eq, Structural, Clone, Copy)]
pub enum WowRoute {
    Character,
    Realm,
    Search,
    Transmog,
    /// A subcommand the bot does not know: "Unrecognized wow subcommand".
    Unrecognized,
    /// No subcommand: "Missing wow subcommand".
    Missing,
}

/// The handler a command goes to.
#[derive(Debug, PartialEq, Eq, Structural, Clone, Copy)]
pub enum Route {
    Affixes,
    Time(Clock),
    Botinfo,
    Forecast,
    Fortune,
    Invite,
    Jpg,
    Karma,
    Lastseen,
    Lastplayed,
    Math,
    Ping,
    Playtime,
    Raiderio,
    RecentPlaytime,
    Roll,
    Serverinfo,
    Source,
    Tarkov,
    Top,
    Topcommand,
    Toplength,
    Track,
    Userinfo,
    /// A vote: `true` for an upvote.
    Vote(bool),
    Weather,
    Whois,
    WolframAlpha,
    Wow(WowRoute),
    Zalgo,
    /// A command the bot has no handler for.
    Unknown,
}

/// The `wow` subcommand named `sub`.
pub open spec fn wow_route(sub: Option<Seq<char>>) -> WowRoute {
    match sub {
        None => WowRoute::Missing,
        Some(s) => if s == "character"@ {
            WowRoute::Character
        } else if s == "realm"@ {
            WowRoute::Realm
        } else if s == "search"@ {
            WowRoute::Search
        } else if s == "transmog"@ {
            WowRoute::Transmog
        } else {
            WowRoute::Unrecognized
        },
    }
}

/// The handler for command `name`, whose first option is named `sub` (the
/// subcommand, where the command has them).
pub open spec fn route_of(name: Seq<char>, sub: Option<Seq<char>>) -> Route {
    if name == "affixes"@ { Route::Affixes }
    else if name == "birdtime"@ { Route::Time(Clock::Oslo) }
    else if name == "botinfo"@ { Route::Botinfo }
    else if name == "downvote"@ { Route::Vote(false) }
    else if name == "forecast"@ { Route::Forecast }
    else if name == "fortune"@ { Route::Fortune }
    else if name == "invite"@ { Route::Invite }
    else if name == "jpg"@ { Route::Jpg }
    else if name == "karma"@ { Route::Karma }
    else if name == "lastseen"@ { Route::Lastseen }
    else if name == "lastplayed"@ { Route::Lastplayed }
    else if name == "math"@ { Route::Math }
    else if name == "mirotime"@ { Route::Time(Clock::Helsinki) }
    else if name == "nieltime"@ { Route::Time(Clock::Stockholm) }
    else if name == "ping"@ { Route::Ping }
    else if name == "playtime"@ { Route::Playtime }
    else if name == "raiderio"@ { Route::Raiderio }
    else if name == "realtime"@ { Route::Time(Clock::Chicago) }
    else if name == "recentplaytime"@ { Route::RecentPlaytime }
    else if name == "roll"@ { Route::Roll }
    else if name == "sebbitime"@ { Route::Time(Clock::Copenhagen) }
    else if name == "serverinfo"@ { Route::Serverinfo }
    else if name == "source"@ { Route::Source }
    else if name == "tarkov"@ { Route::Tarkov }
    else if name == "top"@ { Route::Top }
    else if name == "topcommand"@ { Route::Topcommand }
    else if name == "toplength"@ { Route::Toplength }
    else if name == "track"@ { Route::Track }
    else if name == "upvote"@ { Route::Vote(true) }
    else if name == "userinfo"@ { Route::Userinfo }
    else if name == "weather"@ { Route::Weather }
    else if name == "whois"@ { Route::Whois }
    else if name == "zalgo"@ { Route::Zalgo }
    else if name == "wolframalpha"@ { Route::WolframAlpha }
    else if name == "wow"@ { Route::Wow(wow_route(sub)) }
    else { Route::Unknown }
}

fn route_wow(sub: Option<&str>) -> (res: WowRoute)
    ensures
        res == wow_route(match sub {
            Some(s) => Some(s@),
            None => None,
        }),
{
    match sub {
        None => WowRoute::Missing,
        Some(s) => if same_text(s, "character") {
            WowRoute::Character
        } else if same_text(s, "realm") {
            WowRoute::Realm
        } else if same_text(s, "search") {
            WowRoute::Search
        } else if same_text(s, "transmog") {
            WowRoute::Transmog
        } else {
            WowRoute::Unrecognized
        },
    }
}

/// The handler for a command.
pub fn route(name: &str, sub: Option<&str>) -> (res: Route)
    ensures
        res == route_of(name@, match sub {
            Some(s) => Some(s@),
            None => None,
        }),
{
    if same_text(name, "affixes") { Route::Affixes }
    else if same_text(name, "birdtime") { Route::Time(Clock::Oslo) }
    else if same_text(name, "botinfo") { Route::Botinfo }
    else if same_text(name, "downvote") { Route::Vote(false) }
    else if same_text(name, "forecast") { Route::Forecast }
    else if same_text(name, "fortune") { Route::Fortune }
    else if same_text(name, "invite") { Route::Invite }
    else if same_text(name, "jpg") { Route::Jpg }
    else if same_text(name, "karma") { Route::Karma }
    else if same_text(name, "lastseen") { Route::Lastseen }
    else if same_text(name, "lastplayed") { Route::Lastplayed }
    else if same_text(name, "math") { Route::Math }
    else if same_text(name, "mirotime") { Route::Time(Clock::Helsinki) }
    else if same_text(name, "nieltime") { Route::Time(Clock::Stockholm) }
    else if same_text(name, "ping") { Route::Ping }
    else if same_text(name, "playtime") { Route::Playtime }
    else if same_text(name, "raiderio") { Route::Raiderio }
    else if same_text(name, "realtime") { Route::Time(Clock::Chicago) }
    else if same_text(name, "recentplaytime") { Route::RecentPlaytime }
    else if same_text(name, "roll") { Route::Roll }
    else if same_text(name, "sebbitime") { Route::Time(Clock::Copenhagen) }
    else if same_text(name, "serverinfo") { Route::Serverinfo }
    else if same_text(name, "source") { Route::Source }
    else if same_text(name, "tarkov") { Route::Tarkov }
    else if same_text(name, "top") { Route::Top }
    else if same_text(name, "topcommand") { Route::Topcommand }
    else if same_text(name, "toplength") { Route::Toplength }
    else if same_text(name, "track") { Route::Track }
    else if same_text(name, "upvote") { Route::Vote(true) }
    else if same_text(name, "userinfo") { Route::Userinfo }
    else if same_text(name, "weather") { Route::Weather }
    else if same_text(name, "whois") { Route::Whois }
    else if same_text(name, "zalgo") { Route::Zalgo }
    else if same_text(name, "wolframalpha") { Route::WolframAlpha }
    else if same_text(name, "wow") { Route::Wow(route_wow(sub)) }
    else { Route::Unknown }
}

/// Every command the bot registers, in its home server or everywhere, has a handler.
pub proof fn lemma_registered_commands_route(i: int, sub: Option<Seq<char>>)
    ensures
        0 <= i < 5 ==> route_of(guild_command(i).0, sub) != Route::Unknown,
        0 <= i < 29 ==> route_of(global_command(i).0, sub) != Route::Unknown,
{
}

/// The command a handler answers: the name of the slash command it was written
/// for (the clock commands by their clocks, the votes by their direction).
pub open spec fn handler_command(r: Route) -> Seq<char> {
    match r {
        Route::Affixes => "affixes"@,
        Route::Time(Clock::Oslo) => "birdtime"@,
        Route::Time(Clock::Helsinki) => "mirotime"@,
        Route::Time(Clock::Stockholm) => "nieltime"@,
        Route::Time(Clock::Chicago) => "realtime"@,
        Route::Time(Clock::Copenhagen) => "sebbitime"@,
        Route::Botinfo => "botinfo"@,
        Route::Forecast => "forecast"@,
        Route::Fortune => "fortune"@,
        Route::Invite => "invite"@,
        Route::Jpg => "jpg"@,
        Route::Karma => "karma"@,
        Route::Lastseen => "lastseen"@,
        Route::Lastplayed => "lastplayed"@,
        Route::Math => "math"@,
        Route::Ping => "ping"@,
        Route::Playtime => "playtime"@,
        Route::Raiderio => "raiderio"@,
        Route::RecentPlaytime => "recentplaytime"@,
        Route::Roll => "roll"@,
        Route::Serverinfo => "serverinfo"@,
        Route::Source => "source"@,
        Route::Tarkov => "tarkov"@,
        Route::Top => "top"@,
        Route::Topcommand => "topcommand"@,
        Route::Toplength => "toplength"@,
        Route::Track => "track"@,
        Route::Userinfo => "userinfo"@,
        Route::Vote(true) => "upvote"@,
        Route::Vote(false) => "downvote"@,
        Route::Weather => "weather"@,
        Route::Whois => "whois"@,
        Route::WolframAlpha => "wolframalpha"@,
        Route::Wow(_) => "wow"@,
        Route::Zalgo => "zalgo"@,
        Route::Unknown => Seq::empty(),
    }
}

/// The `wow` subcommand a subcommand handler answers.
pub open spec fn handler_subcommand(w: WowRoute) -> Option<Seq<char>> {
    match w {
        WowRoute::Character => Some("character"@),
        WowRoute::Realm => Some("realm"@),
        WowRoute::Search => Some("search"@),
        WowRoute::Transmog => Some("transmog"@),
        WowRoute::Unrecognized => None,
        WowRoute::Missing => None,
    }
}

/// Every command the bot registers goes to the handler written for that very
/// command (not merely to some handler), and every `wow` subcommand it
/// registers to the handler of that subcommand.
pub proof fn lemma_commands_reach_their_handlers(i: int, j: int, sub: Option<Seq<char>>)
    ensures
        0 <= i < 5 ==> handler_command(route_of(guild_command(i).0, sub)) == guild_command(i).0,
        0 <= i < 29 ==> handler_command(route_of(global_command(i).0, sub)) == global_command(i).0,
        0 <= j < global_command(27).3.len() ==> handler_subcommand(wow_route(Some(global_command(27).3[j].0)))
            == Some(global_command(27).3[j].0),
{
    reveal_strlit("affixes");
    reveal_strlit("birdtime");
    reveal_strlit("botinfo");
    reveal_strlit("downvote");
    reveal_strlit("forecast");
    reveal_strlit("fortune");
    reveal_strlit("invite");
    reveal_strlit("jpg");
    reveal_strlit("karma");
    reveal_strlit("lastseen");
    reveal_strlit("lastplayed");
    reveal_strlit("math");
    reveal_strlit("mirotime");
    reveal_strlit("nieltime");
    reveal_strlit("ping");
    reveal_strlit("playtime");
    reveal_strlit("raiderio");
    reveal_strlit("realtime");
    reveal_strlit("recentplaytime");
    reveal_strlit("roll");
    reveal_strlit("sebbitime");
    reveal_strlit("serverinfo");
    reveal_strlit("source");
    reveal_strlit("tarkov");
    reveal_strlit("top");
    reveal_strlit("topcommand");
    reveal_strlit("toplength");
    reveal_strlit("track");
    reveal_strlit("upvote");
    reveal_strlit("userinfo");
    reveal_strlit("weather");
    reveal_strlit("whois");
    reveal_strlit("zalgo");
    reveal_strlit("wolframalpha");
    reveal_strlit("wow");
    reveal_strlit("character");
    reveal_strlit("realm");
    reveal_strlit("search");
    reveal_strlit("transmog");
}

/// Whether the clock is shown on a 24-hour dial (the mainland clock) rather
/// than a 12-hour one.
pub fn twenty_four_hour(c: Clock) -> (res: bool)
    ensures
        res == (c == Clock::Chicago),
{
    match c {
        Clock::Chicago => true,
        _ => false,
    }
}

/// The name a command is logged under: with its subcommand, where the first
/// option is one.
pub open spec fn logged_name(name: Seq<char>, subcommand: Option<Seq<char>>) -> Seq<char> {
    match subcommand {
        Some(s) => name + " "@ + s,
        None => name,
    }
}

/// The name a command is logged under.
pub fn log_name(name: &str, subcommand: Option<&str>) -> (res: String)
    ensures
        res@ == logged_name(name@, match subcommand {
            Some(s) => Some(s@),
            None => None,
        }),
{
    let mut s = name.to_string();
    if let Some(sub) = subcommand {
        s.append(" ");
        s.append(sub);
    }
    s
}

/// The reply to a command that failed: a warning sign and the error in code style.
pub fn error_reply(error: &str) -> (res: String)
    ensures
        res@ == "\u{26A0} `Error: "@ + error@ + "`"@,
{
    let mut s = "\u{26A0} `Error: ".to_string();
    s.append(error);
    s.append("`");
    s
}

/// The note sent to the bot's owner when a command fails.
pub fn error_report(name: &str, error: &str) -> (res: String)
    ensures
        res@ == "error running "@ + name@ + ": `"@ + error@ + "`"@,
{
    let mut s = "error running ".to_string();
    s.append(name);
    s.append(": `");
    s.append(error);
    s.append("`");
    s
}

/// The note sent to the bot's owner for a command without a handler.
pub fn missing_command_report(name: &str) -> (res: String)
    ensures
        res@ == "missing command: "@ + name@,
{
    let mut s = "missing command: ".to_string();
    s.append(name);
    s
}

} // verus!
