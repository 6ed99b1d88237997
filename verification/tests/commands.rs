use revolt_core::commands::{
    ApplicationCommand, CommandChoice, CommandOption, CommandOptionKind, PartialApplicationCommand,
};
use revolt_core::db::ReferenceDb;
use revolt_core::error::Error;

#[test]
fn crud_and_scoping() {
    let mut db = ReferenceDb::new();
    let global = ApplicationCommand {
        id: "01CMDGLOBAL0000000000000000".to_string(),
        bot_id: "01BOT0000000000000000000000".to_string(),
        server: None,
        name: "ping".to_string(),
        description: "Ping the bot".to_string(),
        options: vec![],
    };
    let scoped = ApplicationCommand {
        id: "01CMDSCOPED0000000000000000".to_string(),
        bot_id: "01BOT0000000000000000000000".to_string(),
        server: Some("01SERVER0000000000000000000".to_string()),
        name: "ping".to_string(),
        description: "Server-scoped ping".to_string(),
        options: vec![],
    };

    db.insert_command(&global).unwrap();
    db.insert_command(&scoped).unwrap();

    // The same name can be used for different servers
    assert_eq!(
        db.fetch_command_by_name(&global.bot_id, None, "ping").expect("global ping").id,
        global.id
    );
    assert_eq!(
        db.fetch_command_by_name(&global.bot_id, Some("01SERVER0000000000000000000"), "ping")
            .expect("scoped ping")
            .id,
        scoped.id
    );

    // Each is counted on its own
    assert_eq!(db.count_commands(&global.bot_id, None), 1);
    assert_eq!(db.count_commands(&global.bot_id, Some("01SERVER0000000000000000000")), 1);

    // A server sees its own and those for all
    let for_server = db.fetch_commands_for_server("01SERVER0000000000000000000");
    assert_eq!(for_server.len(), 2);

    // Another server sees those for all only
    let other = db.fetch_commands_for_server("01OTHER00000000000000000000");
    assert_eq!(other.len(), 1);
    assert_eq!(other[0].id, global.id);

    // Groups see those for all
    let globals = db.fetch_global_commands_by_bots(&vec![global.bot_id.clone()]);
    assert_eq!(globals.len(), 1);
    assert_eq!(globals[0].id, global.id);

    // With the bot, all of them go
    db.delete_commands_by_bot(&global.bot_id);
    assert!(db.fetch_commands_by_bot(&global.bot_id).is_empty());
}

fn command(id: &str, bot: &str, server: Option<&str>, name: &str) -> ApplicationCommand {
    ApplicationCommand {
        id: id.to_string(),
        bot_id: bot.to_string(),
        server: server.map(|s| s.to_string()),
        name: name.to_string(),
        description: String::new(),
        options: vec![],
    }
}

#[test]
fn a_name_is_taken_once_for_a_server() {
    let mut db = ReferenceDb::new();
    let refused = Error::DatabaseError { operation: "insert", collection: "application_commands" };
    db.insert_command(&command("1", "bot", None, "ping")).unwrap();
    assert_eq!(db.insert_command(&command("2", "bot", None, "ping")), Err(refused));
    assert!(db.fetch_command("2").is_err());
    db.insert_command(&command("2", "bot", None, "pong")).unwrap();
    db.insert_command(&command("3", "other", None, "ping")).unwrap();
    db.insert_command(&command("4", "bot", Some("server"), "ping")).unwrap();

    // An id that is in use is reported, and the command is there all the same
    assert_eq!(db.insert_command(&command("1", "bot", None, "third")), Err(refused));
    assert_eq!(db.fetch_command("1").unwrap().name, "third");
}

#[test]
fn commands_change_and_go() {
    let mut db = ReferenceDb::new();
    db.insert_command(&command("1", "bot", None, "ping")).unwrap();
    db.insert_command(&command("2", "bot", None, "pong")).unwrap();
    let option = CommandOption {
        name: "who".to_string(),
        description: "whom to ping".to_string(),
        kind: CommandOptionKind::User,
        required: true,
        choices: vec![CommandChoice { name: "me".to_string(), value: "self".to_string() }],
        autocomplete: false,
    };
    let change = PartialApplicationCommand {
        bot_id: None,
        server: Some("server".to_string()),
        name: None,
        description: Some("new".to_string()),
        options: Some(vec![option.clone()]),
    };
    assert_eq!(db.update_command("1", &change), Ok(()));
    let changed = db.fetch_command("1").unwrap();
    assert_eq!(changed.name, "ping");
    assert_eq!(changed.server, Some("server".to_string()));
    assert_eq!(changed.description, "new");
    assert_eq!(changed.options, vec![option]);
    assert_eq!(db.fetch_command("2").unwrap(), command("2", "bot", None, "pong"));
    assert_eq!(db.update_command("3", &change), Err(Error::NotFound));

    assert_eq!(db.delete_command("1"), Ok(()));
    assert_eq!(db.delete_command("1"), Err(Error::NotFound));
    assert_eq!(db.fetch_command("1"), Err(Error::NotFound));
    assert_eq!(db.fetch_commands_by_bot("bot").len(), 1);
}
