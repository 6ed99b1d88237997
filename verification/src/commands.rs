//! Commands that bots offer, in one server or everywhere.
use crate::db::ReferenceDb;
use crate::error::Error;
use crate::patch::{self, renew_opt_text, renew_rows, renew_text};
use crate::table::{self, copy_opt_rows, copy_rows, KeyedRow, Row};
use crate::text::{self, contains_text, copy_opt, same};
use vstd::prelude::*;
use vstd::string::*;

verus! {

/// Commands that a bot can offer everywhere.
pub const MAX_GLOBAL_COMMANDS: usize = 100;

/// Commands that a bot can offer in one server.
pub const MAX_SERVER_COMMANDS: usize = 100;

/// What a value of an option is.
#[derive(Clone, Copy, Debug, PartialEq, Eq)]
pub enum CommandOptionKind {
    String,
    Integer,
    Boolean,
    User,
    Channel,
}

/// A value that an option offers.
#[derive(Clone, Debug, PartialEq, Eq)]
pub struct CommandChoice {
    pub name: String,
    pub value: String,
}

/// What a [`CommandChoice`] holds.
pub struct CommandChoiceView {
    pub name: Seq<char>,
    pub value: Seq<char>,
}

impl View for CommandChoice {
    type V = CommandChoiceView;

    open spec fn view(&self) -> CommandChoiceView {
        CommandChoiceView {
            name: self.name@,
            value: self.value@,
        }
    }
}

impl Row for CommandChoice {
    fn dup(&self) -> (r: Self) {
        CommandChoice {
            name: self.name.clone(),
            value: self.value.clone(),
        }
    }
}

/// An option of a command.
#[derive(Clone, Debug, PartialEq, Eq)]
pub struct CommandOption {
    pub name: String,
    pub description: String,
    pub kind: CommandOptionKind,
    pub required: bool,
    pub choices: Vec<CommandChoice>,
    /// Whether the bot is asked for values.
    pub autocomplete: bool,
}

/// What a [`CommandOption`] holds.
pub struct CommandOptionView {
    pub name: Seq<char>,
    pub description: Seq<char>,
    pub kind: CommandOptionKind,
    pub required: bool,
    pub choices: Seq<CommandChoiceView>,
    pub autocomplete: bool,
}

impl View for CommandOption {
    type V = CommandOptionView;

    open spec fn view(&self) -> CommandOptionView {
        CommandOptionView {
            name: self.name@,
            description: self.description@,
            kind: self.kind,
            required: self.required,
            choices: table::row_views(self.choices@),
            autocomplete: self.autocomplete,
        }
    }
}

impl Row for CommandOption {
    fn dup(&self) -> (r: Self) {
        CommandOption {
            name: self.name.clone(),
            description: self.description.clone(),
            kind: self.kind,
            required: self.required,
            choices: copy_rows(&self.choices),
            autocomplete: self.autocomplete,
        }
    }
}

/// A command of a bot.
#[derive(Clone, Debug, PartialEq, Eq)]
pub struct ApplicationCommand {
    pub id: String,
    pub bot_id: String,
    /// The server that the command is for; none for all.
    pub server: Option<String>,
    /// Two commands of a bot for the same server have different names.
    pub name: String,
    pub description: String,
    pub options: Vec<CommandOption>,
}

/// What a [`ApplicationCommand`] holds.
pub struct ApplicationCommandView {
    pub id: Seq<char>,
    pub bot_id: Seq<char>,
    pub server: Option<Seq<char>>,
    pub name: Seq<char>,
    pub description: Seq<char>,
    pub options: Seq<CommandOptionView>,
}

impl View for ApplicationCommand {
    type V = ApplicationCommandView;

    open spec fn view(&self) -> ApplicationCommandView {
        ApplicationCommandView {
            id: self.id@,
            bot_id: self.bot_id@,
            server: text::opt_text(self.server),
            name: self.name@,
            description: self.description@,
            options: table::row_views(self.options@),
        }
    }
}

impl Row for ApplicationCommand {
    fn dup(&self) -> (r: Self) {
        ApplicationCommand {
            id: self.id.clone(),
            bot_id: self.bot_id.clone(),
            server: copy_opt(&self.server),
            name: self.name.clone(),
            description: self.description.clone(),
            options: copy_rows(&self.options),
        }
    }
}

impl KeyedRow for ApplicationCommand {
    open spec fn id_of(v: ApplicationCommandView) -> Seq<char> {
        v.id
    }

    fn id_is(&self, id: &str) -> (r: bool) {
        same(self.id.as_str(), id)
    }
}

/// A change of a command: the fields that are there are set.
#[derive(Clone, Debug, PartialEq, Eq, Default)]
pub struct PartialApplicationCommand {
    pub bot_id: Option<String>,
    pub server: Option<String>,
    pub name: Option<String>,
    pub description: Option<String>,
    pub options: Option<Vec<CommandOption>>,
}

/// What a [`PartialApplicationCommand`] holds.
pub struct PartialApplicationCommandView {
    pub bot_id: Option<Seq<char>>,
    pub server: Option<Seq<char>>,
    pub name: Option<Seq<char>>,
    pub description: Option<Seq<char>>,
    pub options: Option<Seq<CommandOptionView>>,
}

impl View for PartialApplicationCommand {
    type V = PartialApplicationCommandView;

    open spec fn view(&self) -> PartialApplicationCommandView {
        PartialApplicationCommandView {
            bot_id: text::opt_text(self.bot_id),
            server: text::opt_text(self.server),
            name: text::opt_text(self.name),
            description: text::opt_text(self.description),
            options: table::opt_row_views(self.options),
        }
    }
}

impl Row for PartialApplicationCommand {
    fn dup(&self) -> (r: Self) {
        PartialApplicationCommand {
            bot_id: copy_opt(&self.bot_id),
            server: copy_opt(&self.server),
            name: copy_opt(&self.name),
            description: copy_opt(&self.description),
            options: copy_opt_rows(&self.options),
        }
    }
}

/// A command with a change applied.
pub open spec fn changed(partial: PartialApplicationCommandView) -> spec_fn(
    ApplicationCommandView,
) -> ApplicationCommandView {
    |v: ApplicationCommandView|
        ApplicationCommandView {
            id: v.id,
            bot_id: patch::pick(partial.bot_id, v.bot_id),
            server: patch::pick_opt(partial.server, v.server),
            name: patch::pick(partial.name, v.name),
            description: patch::pick(partial.description, v.description),
            options: patch::pick(partial.options, v.options),
        }
}

impl ApplicationCommand {
    /// Sets the fields that are there.
    pub fn apply_options(&mut self, partial: PartialApplicationCommand)
        ensures
            final(self)@ == changed(partial@)(old(self)@),
    {
        renew_text(&mut self.bot_id, partial.bot_id);
        renew_opt_text(&mut self.server, partial.server);
        renew_text(&mut self.name, partial.name);
        renew_text(&mut self.description, partial.description);
        renew_rows(&mut self.options, partial.options);
    }
}

/// The text that an optional text is, where it is there.
pub open spec fn opt_str(s: Option<&str>) -> Option<Seq<char>> {
    match s {
        Some(s) => Some(s@),
        None => None,
    }
}

/// Commands of a bot for a server, or for all.
pub open spec fn in_scope(bot: Seq<char>, server: Option<Seq<char>>) -> spec_fn(
    ApplicationCommandView,
) -> bool {
    |v: ApplicationCommandView| v.bot_id == bot && v.server == server
}

/// Commands of a bot for a server, or for all, with a name.
pub open spec fn named(bot: Seq<char>, server: Option<Seq<char>>, name: Seq<char>) -> spec_fn(
    ApplicationCommandView,
) -> bool {
    |v: ApplicationCommandView| v.bot_id == bot && v.server == server && v.name == name
}

/// Commands of a bot.
pub open spec fn by_bot(bot: Seq<char>) -> spec_fn(ApplicationCommandView) -> bool {
    |v: ApplicationCommandView| v.bot_id == bot
}

/// Commands of other bots.
pub open spec fn not_by_bot(bot: Seq<char>) -> spec_fn(ApplicationCommandView) -> bool {
    |v: ApplicationCommandView| v.bot_id != bot
}

/// Commands that can be seen in a server: its own, and those for all.
pub open spec fn seen_in(server: Seq<char>) -> spec_fn(ApplicationCommandView) -> bool {
    |v: ApplicationCommandView| v.server is None || v.server == Some(server)
}

/// Commands of some bots that are for all servers.
pub open spec fn global_by(bots: Seq<Seq<char>>) -> spec_fn(ApplicationCommandView) -> bool {
    |v: ApplicationCommandView| v.server is None && bots.contains(v.bot_id)
}

fn is_scope(server: &Option<String>, expected: Option<&str>) -> (r: bool)
    ensures
        r == (text::opt_text(*server) == opt_str(expected)),
{
    match (server, expected) {
        (Some(a), Some(b)) => same(a.as_str(), b),
        (None, None) => true,
        _ => false,
    }
}

fn as_scope(server: &Option<String>) -> (r: Option<&str>)
    ensures
        opt_str(r) == text::opt_text(*server),
{
    match server {
        Some(s) => Some(s.as_str()),
        None => None,
    }
}

impl ReferenceDb {
    /// Stores a new command. It is refused where the bot has one with its name for the
    /// same server. One under an id that is in use is reported too, though it has taken
    /// the place of the other.
    pub fn insert_command(&mut self, command: &ApplicationCommand) -> (r: Result<(), Error>)
        requires
            old(self).wf(),
        ensures
            final(self).wf(),
            *final(self) == (ReferenceDb {
                application_commands: final(self).application_commands,
                ..*old(self)
            }),
            r == (if table::any_row(
                old(self).application_commands@,
                named(command@.bot_id, command@.server, command@.name),
            ) || table::has_id::<ApplicationCommand>(
                old(self).application_commands@,
                command@.id,
            ) {
                Err::<(), Error>(
                    Error::DatabaseError {
                        operation: "insert",
                        collection: "application_commands",
                    },
                )
            } else {
                Ok::<(), Error>(())
            }),
            final(self).application_commands@ == with_command(
                old(self).application_commands@,
                command@,
            ),
    {
        if self.fetch_command_by_name(
            command.bot_id.as_str(),
            as_scope(&command.server),
            command.name.as_str(),
        ).is_some() {
            return Err(
                Error::DatabaseError { operation: "insert", collection: "application_commands" },
            );
        }
        let taken: bool = self.application_commands.contains_id(command.id.as_str());
        self.application_commands.upsert(command.id.as_str(), command.dup());
        if taken {
            Err(Error::DatabaseError { operation: "insert", collection: "application_commands" })
        } else {
            Ok(())
        }
    }

    /// A command.
    pub fn fetch_command(&self, id: &str) -> (r: Result<ApplicationCommand, Error>)
        ensures
            if table::has_id::<ApplicationCommand>(self.application_commands@, id@) {
                r is Ok && r->Ok_0@ == table::row_of::<ApplicationCommand>(
                    self.application_commands@,
                    id@,
                )
            } else {
                r == Err::<ApplicationCommand, Error>(Error::NotFound)
            },
    {
        match self.application_commands.fetch(id) {
            Some(command) => Ok(command),
            None => Err(Error::NotFound),
        }
    }

    /// The command of a bot for a server, or for all, with a name.
    pub fn fetch_command_by_name(&self, bot_id: &str, server: Option<&str>, name: &str) -> (r:
        Option<ApplicationCommand>)
        ensures
            table::opt_view(r) == if table::any_row(
                self.application_commands@,
                named(bot_id@, opt_str(server), name@),
            ) {
                Some(
                    self.application_commands@[table::first_row(
                        self.application_commands@,
                        named(bot_id@, opt_str(server), name@),
                    )],
                )
            } else {
                None
            },
    {
        let ghost q = named(bot_id@, opt_str(server), name@);
        let p = |v: &ApplicationCommand| -> (b: bool)
            ensures
                b == q(v@),
            {
                same(v.bot_id.as_str(), bot_id) && is_scope(&v.server, server) && same(
                    v.name.as_str(),
                    name,
                )
            };
        match self.application_commands.find(p, Ghost(q)) {
            Some(i) => Some(self.application_commands.get(i)),
            None => None,
        }
    }

    /// All commands of a bot.
    pub fn fetch_commands_by_bot(&self, bot_id: &str) -> (r: Vec<ApplicationCommand>)
        ensures
            table::row_views(r@) == self.application_commands@.filter(by_bot(bot_id@)),
    {
        let p = |v: &ApplicationCommand| -> (b: bool)
            ensures
                b == by_bot(bot_id@)(v@),
            { same(v.bot_id.as_str(), bot_id) };
        self.application_commands.select(p, Ghost(by_bot(bot_id@)))
    }

    /// How many commands a bot has for a server, or for all.
    pub fn count_commands(&self, bot_id: &str, server: Option<&str>) -> (r: usize)
        ensures
            r == self.application_commands@.filter(in_scope(bot_id@, opt_str(server))).len(),
    {
        let ghost q = in_scope(bot_id@, opt_str(server));
        let p = |v: &ApplicationCommand| -> (b: bool)
            ensures
                b == q(v@),
            { same(v.bot_id.as_str(), bot_id) && is_scope(&v.server, server) };
        self.application_commands.count(p, Ghost(q))
    }

    /// The commands that can be seen in a server: its own, and those for all.
    pub fn fetch_commands_for_server(&self, server_id: &str) -> (r: Vec<ApplicationCommand>)
        ensures
            table::row_views(r@) == self.application_commands@.filter(seen_in(server_id@)),
    {
        let p = |v: &ApplicationCommand| -> (b: bool)
            ensures
                b == seen_in(server_id@)(v@),
            { v.server.is_none() || is_scope(&v.server, Some(server_id)) };
        self.application_commands.select(p, Ghost(seen_in(server_id@)))
    }

    /// The commands of some bots that are for all servers.
    pub fn fetch_global_commands_by_bots(&self, bot_ids: &Vec<String>) -> (r: Vec<
        ApplicationCommand,
    >)
        ensures
            table::row_views(r@) == self.application_commands@.filter(
                global_by(text::texts(bot_ids@)),
            ),
    {
        let ghost q = global_by(text::texts(bot_ids@));
        let p = |v: &ApplicationCommand| -> (b: bool)
            ensures
                b == q(v@),
            { v.server.is_none() && contains_text(bot_ids, v.bot_id.as_str()) };
        self.application_commands.select(p, Ghost(q))
    }

    /// Changes a command.
    pub fn update_command(&mut self, id: &str, partial: &PartialApplicationCommand) -> (r: Result<
        (),
        Error,
    >)
        requires
            old(self).wf(),
        ensures
            final(self).wf(),
            *final(self) == (ReferenceDb {
                application_commands: final(self).application_commands,
                ..*old(self)
            }),
            r == (if table::has_id::<ApplicationCommand>(old(self).application_commands@, id@) {
                Ok::<(), Error>(())
            } else {
                Err::<(), Error>(Error::NotFound)
            }),
            final(self).application_commands@ == table::mapped(
                old(self).application_commands@,
                table::with_id::<ApplicationCommand>(id@),
                changed(partial@),
            ),
    {
        match self.application_commands.position(id) {
            Some(i) => {
                let mut command = self.application_commands.get(i);
                command.apply_options(partial.dup());
                self.application_commands.replace(i, command, Ghost(changed(partial@)));
                Ok(())
            },
            None => {
                proof {
                    table::lemma_mapped_none(
                        self.application_commands@,
                        table::with_id::<ApplicationCommand>(id@),
                        changed(partial@),
                    );
                }
                Err(Error::NotFound)
            },
        }
    }

    /// Deletes a command.
    pub fn delete_command(&mut self, id: &str) -> (r: Result<(), Error>)
        requires
            old(self).wf(),
        ensures
            final(self).wf(),
            *final(self) == (ReferenceDb {
                application_commands: final(self).application_commands,
                ..*old(self)
            }),
            r == (if table::has_id::<ApplicationCommand>(old(self).application_commands@, id@) {
                Ok::<(), Error>(())
            } else {
                Err::<(), Error>(Error::NotFound)
            }),
            final(self).application_commands@ == old(self).application_commands@.filter(
                table::without_id::<ApplicationCommand>(id@),
            ),
    {
        if self.application_commands.delete(id) {
            Ok(())
        } else {
            Err(Error::NotFound)
        }
    }

    /// Deletes all commands of a bot.
    pub fn delete_commands_by_bot(&mut self, bot_id: &str)
        requires
            old(self).wf(),
        ensures
            final(self).wf(),
            *final(self) == (ReferenceDb {
                application_commands: final(self).application_commands,
                ..*old(self)
            }),
            final(self).application_commands@ == old(self).application_commands@.filter(
                not_by_bot(bot_id@),
            ),
    {
        proof {
            table::lemma_keyed_filter::<ApplicationCommand>(
                self.application_commands@,
                not_by_bot(bot_id@),
            );
        }
        let p = |v: &ApplicationCommand| -> (b: bool)
            ensures
                b == not_by_bot(bot_id@)(v@),
            { !same(v.bot_id.as_str(), bot_id) };
        self.application_commands.retain(p, Ghost(not_by_bot(bot_id@)));
    }
}

/// Commands with one more, unless the bot has one with its name for the same server.
pub open spec fn with_command(rows: Seq<ApplicationCommandView>, command: ApplicationCommandView) -> Seq<
    ApplicationCommandView,
> {
    if table::any_row(rows, named(command.bot_id, command.server, command.name)) {
        rows
    } else {
        table::upserted::<ApplicationCommand>(rows, command)
    }
}

/// Whether two commands of a bot for the same server never have the same name.
pub open spec fn names_apart(rows: Seq<ApplicationCommandView>) -> bool {
    table::unique_by(rows, |v: ApplicationCommandView| (v.bot_id, v.server, v.name))
}

/// A bot has one command with a name for a server, or for all: storing a command keeps
/// that so, and so does deleting one, or all of a bot.
pub proof fn law_names_are_unique(
    rows: Seq<ApplicationCommandView>,
    command: ApplicationCommandView,
    id: Seq<char>,
    bot: Seq<char>,
)
    requires
        table::keyed::<ApplicationCommand>(rows),
        names_apart(rows),
    ensures
        names_apart(with_command(rows, command)),
        names_apart(rows.filter(table::without_id::<ApplicationCommand>(id))),
        names_apart(rows.filter(not_by_bot(bot))),
{
    let key = |v: ApplicationCommandView| (v.bot_id, v.server, v.name);
    table::lemma_unique_filter(rows, key, table::without_id::<ApplicationCommand>(id));
    table::lemma_unique_filter(rows, key, not_by_bot(bot));
    let q = named(command.bot_id, command.server, command.name);
    if !table::any_row(rows, q) {
        let after = with_command(rows, command);
        assert forall|i: int, j: int| 0 <= i < j < after.len() implies key(#[trigger] after[i])
            != key(#[trigger] after[j]) by {
            if i < rows.len() {
                assert(!q(rows[i]));
            }
            if j < rows.len() {
                assert(!q(rows[j]));
            }
            if i < rows.len() && j < rows.len() {
                assert(key(rows[i]) != key(rows[j]));
                let id_key = |v: ApplicationCommandView| ApplicationCommand::id_of(v);
                assert(id_key(rows[i]) != id_key(rows[j]));
            }
        }
    }
}

/// A change that leaves the bot, the server and the name of a command keeps the names
/// apart.
pub proof fn law_change_keeps_names(
    rows: Seq<ApplicationCommandView>,
    id: Seq<char>,
    partial: PartialApplicationCommandView,
)
    requires
        names_apart(rows),
        partial.bot_id is None,
        partial.server is None,
        partial.name is None,
    ensures
        names_apart(
            table::mapped(rows, table::with_id::<ApplicationCommand>(id), changed(partial)),
        ),
{
    let key = |v: ApplicationCommandView| (v.bot_id, v.server, v.name);
    table::lemma_unique_mapped(
        rows,
        key,
        table::with_id::<ApplicationCommand>(id),
        changed(partial),
    );
}

/// When a bot was deleted, none of its commands is left, and all of the other bots are.
pub proof fn law_deleted_bot_leaves_no_commands(
    rows: Seq<ApplicationCommandView>,
    bot: Seq<char>,
    v: ApplicationCommandView,
)
    ensures
        rows.filter(not_by_bot(bot)).contains(v) == (rows.contains(v) && v.bot_id != bot),
{
    table::lemma_filter_members(rows, not_by_bot(bot), v);
}

/// A changed command has what the change gives, and else what it had; its id stays.
pub proof fn law_changed_command_has_what_is_given(
    partial: PartialApplicationCommandView,
    v: ApplicationCommandView,
)
    ensures
        ({
            let r = changed(partial)(v);
            &&& r.id == v.id
            &&& partial.bot_id matches Some(x) ==> r.bot_id == x
            &&& partial.bot_id is None ==> r.bot_id == v.bot_id
            &&& partial.server is Some ==> r.server == partial.server
            &&& partial.server is None ==> r.server == v.server
            &&& partial.name matches Some(x) ==> r.name == x
            &&& partial.name is None ==> r.name == v.name
            &&& partial.description matches Some(x) ==> r.description == x
            &&& partial.description is None ==> r.description == v.description
            &&& partial.options matches Some(x) ==> r.options == x
            &&& partial.options is None ==> r.options == v.options
        }),
{
}

/// Commands are found by their bot, by the server that they can be seen in (those for all
/// can be in every), and, where they are for all, by several bots; they are counted by bot
/// and server.
pub proof fn law_which_commands_are_found(
    rows: Seq<ApplicationCommandView>,
    key: Seq<char>,
    bots: Seq<Seq<char>>,
    server: Option<Seq<char>>,
    c: ApplicationCommandView,
)
    ensures
        rows.filter(by_bot(key)).contains(c) <==> rows.contains(c) && c.bot_id == key,
        rows.filter(not_by_bot(key)).contains(c) <==> rows.contains(c) && c.bot_id != key,
        rows.filter(seen_in(key)).contains(c) <==> rows.contains(c) && (c.server is None
            || c.server == Some(key)),
        rows.filter(global_by(bots)).contains(c) <==> rows.contains(c) && c.server is None
            && exists|i: int| 0 <= i < bots.len() && #[trigger] bots[i] == c.bot_id,
        rows.filter(in_scope(key, server)).contains(c) <==> rows.contains(c) && c.bot_id == key
            && c.server == server,
{
    table::lemma_filter_members(rows, by_bot(key), c);
    table::lemma_filter_members(rows, not_by_bot(key), c);
    table::lemma_filter_members(rows, seen_in(key), c);
    table::lemma_filter_members(rows, global_by(bots), c);
    table::lemma_filter_members(rows, in_scope(key, server), c);
}

/// A command is found by its bot, server and name; one with the name of another of its bot
/// for the same server is not stored, and any other is.
pub proof fn law_when_a_command_is_stored(
    rows: Seq<ApplicationCommandView>,
    command: ApplicationCommandView,
)
    requires
        table::keyed::<ApplicationCommand>(rows),
    ensures
        ({
            let taken = exists|i: int|
                0 <= i < rows.len() && (#[trigger] rows[i]).bot_id == command.bot_id
                    && rows[i].server == command.server && rows[i].name == command.name;
            &&& table::any_row(rows, named(command.bot_id, command.server, command.name)) == taken
            &&& taken ==> with_command(rows, command) == rows
            &&& !taken ==> with_command(rows, command).contains(command)
        }),
{
    let q = named(command.bot_id, command.server, command.name);
    if exists|i: int|
        0 <= i < rows.len() && (#[trigger] rows[i]).bot_id == command.bot_id && rows[i].server
            == command.server && rows[i].name == command.name {
        let i = choose|i: int|
            0 <= i < rows.len() && (#[trigger] rows[i]).bot_id == command.bot_id && rows[i].server
                == command.server && rows[i].name == command.name;
        assert(q(rows[i]));
    }
    if !table::any_row(rows, q) {
        let after = table::upserted::<ApplicationCommand>(rows, command);
        table::lemma_upserted::<ApplicationCommand>(rows, command);
        let w = table::with_id::<ApplicationCommand>(command.id);
        table::lemma_first_row_matches(after, w);
        assert(after[table::first_row(after, w)] == command);
    }
}

} // verus!
