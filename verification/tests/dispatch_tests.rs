use budbuddy::catalog::{CatalogEntry, Subspecies};
use budbuddy::composer::Catalog;
use budbuddy::dispatch::{autocomplete_commands, help_query, notice_for, CommandFault, CommandInfo};
use budbuddy::totals::strain_counts;

fn cmd(name: &str, owners_only: bool, hide_in_help: bool) -> CommandInfo {
    CommandInfo { name: name.to_string(), owners_only, hide_in_help }
}

#[test]
fn help_query_passes_plain_help_through() {
    assert_eq!(help_query("help", Some("search".to_string())), Some("search".to_string()));
    assert_eq!(help_query("help", None), None);
}

#[test]
fn help_query_rewrites_subcommand_invocations() {
    assert_eq!(help_query("puff", Some("take".to_string())), Some("puff take".to_string()));
    assert_eq!(help_query("puff", None), Some("puff".to_string()));
}

#[test]
fn autocomplete_commands_hides_owner_and_hidden_commands() {
    let cmds = vec![
        cmd("help", false, false),
        cmd("register", true, false),
        cmd("hidden", false, true),
        cmd("heal", false, false),
    ];
    assert_eq!(autocomplete_commands(&cmds, ""), vec!["help".to_string(), "heal".to_string()]);
    assert_eq!(autocomplete_commands(&cmds, "hel"), vec!["help".to_string()]);
    assert_eq!(autocomplete_commands(&cmds, "re"), Vec::<String>::new());
}

#[test]
fn check_failures_answer_directly_with_support_link() {
    let n = notice_for(&CommandFault::CheckFailed { reason: None });
    assert_eq!(n.title, "Command Check Failed");
    assert!(n.ephemeral && n.show_support_link && !n.escalate);

    let n = notice_for(&CommandFault::CheckFailed {
        reason: Some("User is blacklisted".to_string()),
    });
    assert_eq!(n.title, "User is blacklisted");
    assert!(!n.escalate);
}

#[test]
fn expected_faults_do_not_escalate() {
    let n = notice_for(&CommandFault::CooldownHit {
        command: "puff take".to_string(),
        remaining_ms: 12_500,
    });
    assert_eq!(n.title, "/puff take on cooldown");
    assert!(!n.escalate && !n.show_support_link);

    let n = notice_for(&CommandFault::NsfwOnly { command: "search".to_string() });
    assert_eq!(n.title, "NSFW Only Command");
    assert!(!n.escalate);
}

#[test]
fn unknown_faults_escalate_to_the_error_channel() {
    let n = notice_for(&CommandFault::Unknown { command: Some("strain".to_string()) });
    assert_eq!(n.title, "Unknown error occurred in /strain");
    assert!(n.escalate && n.ephemeral);

    let n = notice_for(&CommandFault::Unknown { command: None });
    assert_eq!(n.title, "Unknown error occurred");
    assert!(n.escalate);
}

fn entry_with(id: u64, sub: Option<Subspecies>) -> CatalogEntry {
    CatalogEntry {
        id,
        name: "Strain".to_string(),
        description: None,
        subspecies: sub,
        image_url: None,
        positive_effects: vec![],
        negative_effects: vec![],
        flavors: vec![],
        ailments: vec![],
    }
}

#[test]
fn strain_counts_split_the_catalog_by_category() {
    let catalog = Catalog::from_entries(vec![
        entry_with(1, Some(Subspecies::Hybrid)),
        entry_with(2, Some(Subspecies::Hybrid)),
        entry_with(3, Some(Subspecies::Indica)),
        entry_with(4, Some(Subspecies::Sativa)),
        entry_with(5, Some(Subspecies::Ruderalis)),
        entry_with(6, None),
    ])
    .unwrap();

    let t = strain_counts(&catalog);
    assert_eq!(t.total, 6);
    assert_eq!(t.hybrid, 2);
    assert_eq!(t.indica, 1);
    assert_eq!(t.sativa, 1);
    assert_eq!(t.unknown(), 2, "ruderalis and uncategorized both count as unknown");
}
