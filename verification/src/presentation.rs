//! What the presentation layer computes from the store before it draws:
//! labels, clock texts, and the commands behind its controls.

use crate::state::{
    AccountState, BotCommand, BotCommandView, BotStatus, BotStatusView, GuildState,
    GuildStateView, NameId, NameIdView,
};
use crate::supervisor::{ManagerCommand, ManagerCommandView};
use crate::order::{in_name_order, insert_by_name, lemma_insert_to_multiset, text_le, Named};
use crate::text::{decimal, push_decimal, two_digits};
use vstd::prelude::*;
use vstd::std_specs::iter::IteratorSpec;
use vstd::string::*;

verus! {

/// A time span as minutes and seconds, each in at least two digits.
pub open spec fn clock(secs: u64) -> Seq<char> {
    two_digits((secs / 60) as nat) + seq![':'] + two_digits((secs % 60) as nat)
}

/// The duration that the progress bar is drawn against: at least a second.
pub open spec fn shown_duration(duration: Option<u64>) -> u64 {
    match duration {
        Some(d) => if d == 0 {
            1
        } else {
            d
        },
        None => 1,
    }
}

/// The text on the progress bar.
pub open spec fn progress(position: u64, duration: Option<u64>) -> Seq<char> {
    clock(position) + " / "@ + clock(shown_duration(duration))
}

/// The address at which an application is invited to a server.
pub open spec fn invite_address(application_id: u64) -> Seq<char> {
    "https://discord.com/api/oauth2/authorize?client_id="@ + decimal(application_id as nat)
        + "&permissions=36700160&scope=bot"@
}

/// The label of a guild in the list of servers.
pub open spec fn guild_label_text(guild: GuildStateView) -> Seq<char> {
    if guild.is_playing {
        "(Playing) "@ + guild.guild_name
    } else {
        guild.guild_name
    }
}

/// Whether `i` is the place of the first of `channels` with the identifier
/// `id`.
pub open spec fn first_channel(channels: Seq<NameIdView>, id: u64, i: int) -> bool {
    &&& 0 <= i < channels.len()
    &&& channels[i].id == id
    &&& forall|j: int| 0 <= j < i ==> (#[trigger] channels[j]).id != id
}

/// Whether the selectable channels of the guild hold the joined channel.
pub open spec fn joined_is_listed(guild: GuildStateView) -> bool {
    guild.channel_id matches Some(id) && exists|i: int|
        0 <= i < guild.voice_channels.len() && (#[trigger] guild.voice_channels[i]).id == id
}

/// The command behind the pause button: it resumes a paused guild and
/// pauses any other.
pub open spec fn toggled(guild: GuildStateView) -> BotCommandView {
    if guild.is_paused {
        BotCommandView::Resume { guild_id: guild.guild_id }
    } else {
        BotCommandView::Pause { guild_id: guild.guild_id }
    }
}

/// The lifecycle request behind the button of an account: an offline
/// account is started, any other is stopped.
pub open spec fn lifecycle(uuid: Seq<char>, status: BotStatusView) -> ManagerCommandView {
    if status is Offline {
        ManagerCommandView::StartBot { uuid }
    } else {
        ManagerCommandView::StopBot { uuid }
    }
}

fn push_two_digits(out: &mut String, n: u64)
    ensures
        final(out)@ == old(out)@ + two_digits(n as nat),
{
    if n < 10 {
        out.append("0");
        proof {
            reveal_strlit("0");
            assert("0"@ =~= seq!['0']);
        }
    }
    push_decimal(out, n);
    assert(out@ =~= old(out)@ + two_digits(n as nat));
}

fn push_clock(out: &mut String, secs: u64)
    ensures
        final(out)@ == old(out)@ + clock(secs),
{
    push_two_digits(out, secs / 60);
    out.append(":");
    push_two_digits(out, secs % 60);
    proof {
        reveal_strlit(":");
        assert(":"@ =~= seq![':']);
        assert(out@ =~= old(out)@ + clock(secs));
    }
}

/// A time span as minutes and seconds.
pub fn clock_text(secs: u64) -> (text: String)
    ensures
        text@ == clock(secs),
{
    let mut text = String::new();
    push_clock(&mut text, secs);
    assert(text@ =~= clock(secs));
    text
}

/// The text on the progress bar: the position, and the duration of the
/// track, which counts as a second where it is unknown or zero.
pub fn progress_text(position: u64, duration: Option<u64>) -> (text: String)
    ensures
        text@ == progress(position, duration),
{
    let shown = match duration {
        Some(d) => if d == 0 {
            1
        } else {
            d
        },
        None => 1,
    };
    let mut text = String::new();
    push_clock(&mut text, position);
    text.append(" / ");
    push_clock(&mut text, shown);
    assert(text@ =~= progress(position, duration));
    text
}

/// The address at which the application of an account is invited.
pub fn invite_url(application_id: u64) -> (url: String)
    ensures
        url@ == invite_address(application_id),
{
    let mut url = String::from_str("https://discord.com/api/oauth2/authorize?client_id=");
    push_decimal(&mut url, application_id);
    url.append("&permissions=36700160&scope=bot");
    url
}

/// The label of a guild in the list of servers.
pub fn guild_label(guild: &GuildState) -> (label: String)
    ensures
        label@ == guild_label_text(guild@),
{
    if guild.is_playing {
        let mut label = String::from_str("(Playing) ");
        label.append(guild.guild_name.as_str());
        label
    } else {
        guild.guild_name.clone()
    }
}

/// The selectable channel that the guild has joined: the first that carries
/// the identifier of the joined channel.
pub fn joined_channel(guild: &GuildState) -> (found: Option<&NameId>)
    ensures
        found is Some <==> joined_is_listed(guild@),
        found matches Some(c) ==> exists|i: int|
            first_channel(guild@.voice_channels, guild@.channel_id->0, i) && c@
                == #[trigger] guild@.voice_channels[i],
{
    match guild.channel_id {
        Some(id) => {
            let mut i: usize = 0;
            while i < guild.voice_channels.len()
                invariant
                    i <= guild.voice_channels.len(),
                    guild.channel_id == Some(id),
                    forall|j: int| 0 <= j < i ==> (#[trigger] guild@.voice_channels[j]).id != id,
                decreases guild.voice_channels.len() - i,
            {
                if guild.voice_channels[i].id == id {
                    assert(first_channel(guild@.voice_channels, id, i as int));
                    assert(guild.voice_channels[i as int]@ == guild@.voice_channels[i as int]);
                    return Some(&guild.voice_channels[i]);
                }
                i += 1;
            }
            None
        },
        None => None,
    }
}

/// The command behind the pause button.
pub fn toggle_command(guild: &GuildState) -> (cmd: BotCommand)
    ensures
        cmd@ == toggled(guild@),
{
    if guild.is_paused {
        BotCommand::Resume { guild_id: guild.guild_id }
    } else {
        BotCommand::Pause { guild_id: guild.guild_id }
    }
}

/// The command that moves the entry at place `index` of a visible queue of
/// `len` entries one place up or down; none where the entry is already at
/// that end, or where there is no such entry.
pub fn shift_command(guild_id: u64, index: usize, len: usize, up: bool) -> (cmd: Option<BotCommand>)
    ensures
        cmd is Some <==> index < len && (if up {
            index > 0
        } else {
            index + 1 < len
        }),
        cmd matches Some(c) ==> c@ == (BotCommandView::MoveTrack {
            guild_id,
            from_index: index,
            to_index: if up {
                (index - 1) as usize
            } else {
                (index + 1) as usize
            },
        }),
{
    if index >= len {
        None
    } else if up {
        if index > 0 {
            Some(BotCommand::MoveTrack { guild_id, from_index: index, to_index: index - 1 })
        } else {
            None
        }
    } else {
        if index < len - 1 {
            Some(BotCommand::MoveTrack { guild_id, from_index: index, to_index: index + 1 })
        } else {
            None
        }
    }
}

/// The lifecycle request behind the button of an account.
pub fn lifecycle_command(uuid: String, status: &BotStatus) -> (cmd: ManagerCommand)
    ensures
        cmd@ == lifecycle(uuid@, status@),
{
    match status {
        BotStatus::Offline => ManagerCommand::StartBot { uuid },
        _ => ManagerCommand::StopBot { uuid },
    }
}

/// Whether the guilds `ids` are in the order of their names.
pub open spec fn sorted_by_name(guilds: Map<u64, GuildStateView>, ids: Seq<u64>) -> bool {
    forall|i: int, j: int|
        0 <= i < j < ids.len() ==> text_le(
            guilds[#[trigger] ids[i]].guild_name,
            guilds[#[trigger] ids[j]].guild_name,
        )
}

/// A guild under its name, for the list of servers.
pub struct ListedGuild<'a> {
    pub id: u64,
    pub name: &'a str,
}

impl<'a> Named for ListedGuild<'a> {
    open spec fn name(&self) -> Seq<char> {
        self.name@
    }

    fn name_text(&self) -> (text: &str) {
        self.name
    }
}

/// The guilds of an account as the list of servers shows them: each once, in
/// the order of their names.
pub fn guilds_by_name(account: &AccountState) -> (ids: Vec<u64>)
    ensures
        ids@.no_duplicates(),
        ids@.to_set() == account@.guilds.dom(),
        sorted_by_name(account@.guilds, ids@),
{
    broadcast use vstd::std_specs::hash::group_hash_axioms;
    broadcast use vstd::seq_lib::group_to_multiset_ensures;

    let ghost guilds = account@.guilds;
    let mut keys: Vec<u64> = Vec::new();
    let ghost all = vstd::std_specs::hash::spec_keys_iter(&account.guilds).remaining();
    for id in it: account.guilds.keys()
        invariant
            it.seq() == all,
            keys@ == all.take(it.index()).unref(),
    {
        keys.push(*id);
        assert(all.take(it.index() + 1).unref() =~= all.take(it.index()).unref().push(*id));
    }
    proof {
        assert(keys@ =~= all.unref());
        assert(guilds.dom() =~= account.guilds@.dom());
        assert(keys@.no_duplicates()) by {
            assert forall|i: int, j: int|
                0 <= i < keys@.len() && 0 <= j < keys@.len() && i != j implies keys@[i]
                != keys@[j] by {
                assert(all[i] != all[j]);
            }
        }
        assert forall|q: int| 0 <= q < keys@.len() implies guilds.contains_key(
            #[trigger] keys@[q],
        ) by {
            assert(keys@.to_set().contains(keys@[q]));
        }
    }
    let mut entries: Vec<ListedGuild> = Vec::new();
    let ghost id_of = |e: ListedGuild| e.id;
    let mut k: usize = 0;
    assert(keys@.take(0) =~= Seq::<u64>::empty());
    assert(entries@.map_values(id_of) =~= Seq::<u64>::empty());
    while k < keys.len()
        invariant
            k <= keys.len(),
            guilds == account@.guilds,
            id_of == |e: ListedGuild| e.id,
            forall|q: int| 0 <= q < keys@.len() ==> guilds.contains_key(#[trigger] keys@[q]),
            forall|q: int|
                0 <= q < entries@.len() ==> guilds.contains_key((#[trigger] entries@[q]).id)
                    && entries@[q].name@ == guilds[entries@[q].id].guild_name,
            in_name_order(entries@),
            entries@.map_values(id_of).to_multiset() == keys@.take(k as int).to_multiset(),
        decreases keys.len() - k,
    {
        let id = keys[k];
        assert(guilds.contains_key(keys@[k as int]));
        let entry = ListedGuild {
            id,
            name: account.guilds.get(&id).unwrap().guild_name.as_str(),
        };
        let ghost listed = entries@;
        let place = insert_by_name(&mut entries, entry);
        proof {
            assert(entries@.map_values(id_of) =~= listed.map_values(id_of).insert(
                place as int,
                id,
            ));
            lemma_insert_to_multiset(listed.map_values(id_of), place as int, id);
            assert(keys@.take(k as int + 1) =~= keys@.take(k as int).push(id));
            vstd::seq_lib::to_multiset_build(keys@.take(k as int), id);
            assert forall|q: int| 0 <= q < entries@.len() implies guilds.contains_key(
                (#[trigger] entries@[q]).id,
            ) && entries@[q].name@ == guilds[entries@[q].id].guild_name by {
                if q < place {
                    assert(entries@[q] == listed[q]);
                } else if q > place {
                    assert(entries@[q] == listed[q - 1]);
                }
            }
        }
        k += 1;
    }
    let mut ids: Vec<u64> = Vec::new();
    let mut j: usize = 0;
    while j < entries.len()
        invariant
            j <= entries.len(),
            id_of == |e: ListedGuild| e.id,
            ids@ =~= entries@.map_values(id_of).take(j as int),
        decreases entries.len() - j,
    {
        ids.push(entries[j].id);
        j += 1;
    }
    proof {
        assert(keys@.take(k as int) =~= keys@);
        assert(ids@ =~= entries@.map_values(id_of));
        assert(sorted_by_name(guilds, ids@)) by {
            assert forall|a: int, b: int| 0 <= a < b < ids@.len() implies text_le(
                guilds[#[trigger] ids@[a]].guild_name,
                guilds[#[trigger] ids@[b]].guild_name,
            ) by {
                assert(text_le(entries@[a].name(), entries@[b].name()));
            }
        }
        keys@.lemma_multiset_has_no_duplicates();
        ids@.lemma_multiset_has_no_duplicates_conv();
        assert forall|x: u64| ids@.to_set().contains(x) <==> keys@.to_set().contains(x) by {
            assert(ids@.contains(x) <==> ids@.to_multiset().count(x) > 0);
            assert(keys@.contains(x) <==> keys@.to_multiset().count(x) > 0);
        }
        assert(ids@.to_set() =~= keys@.to_set());
    }
    ids
}

} // verus!
