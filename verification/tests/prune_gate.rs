use unfudged::prune::{decide, refusal, PruneGate};
use unfudged::types::{exit_code, OutputFormat};

#[test]
fn all_projects_without_tty_and_without_yes_refuses() {
    assert_eq!(
        decide(true, false, false, false, OutputFormat::Human),
        PruneGate::RefuseNoTty,
        "a non-interactive --all-projects prune with no --yes must refuse"
    );
}

#[test]
fn refusal_names_the_escape_hatches() {
    let msg = refusal().message();
    assert!(msg.contains("--yes"), "refusal must name --yes: {}", msg);
    assert!(msg.contains("--dry-run"), "refusal must name --dry-run: {}", msg);
}

#[test]
fn refusal_exits_non_zero() {
    let code = exit_code(&refusal());
    assert_ne!(code, 0, "refusing to prune must not look like success");
}

#[test]
fn all_projects_on_a_terminal_prompts() {
    assert_eq!(decide(true, false, false, true, OutputFormat::Human), PruneGate::Prompt);
}

#[test]
fn yes_proceeds_with_or_without_a_terminal() {
    assert_eq!(decide(true, true, false, true, OutputFormat::Human), PruneGate::Proceed);
    assert_eq!(decide(true, true, false, false, OutputFormat::Human), PruneGate::Proceed);
    assert_eq!(decide(true, true, false, false, OutputFormat::Json), PruneGate::Proceed);
}

#[test]
fn dry_run_never_deletes_regardless_of_tty() {
    for &all_projects in &[true, false] {
        for &yes in &[true, false] {
            for &is_tty in &[true, false] {
                for &format in &[OutputFormat::Human, OutputFormat::Json] {
                    assert_eq!(
                        decide(all_projects, yes, true, is_tty, format),
                        PruneGate::DryRunOnly,
                        "--dry-run must never delete (all_projects={}, yes={}, tty={})",
                        all_projects,
                        yes,
                        is_tty
                    );
                }
            }
        }
    }
}

#[test]
fn json_without_yes_refuses_even_on_a_terminal() {
    assert_eq!(decide(true, false, false, true, OutputFormat::Json), PruneGate::RefuseNoTty);
    assert_eq!(decide(true, false, false, false, OutputFormat::Json), PruneGate::RefuseNoTty);
}

#[test]
fn single_project_is_never_gated() {
    for &yes in &[true, false] {
        for &is_tty in &[true, false] {
            for &format in &[OutputFormat::Human, OutputFormat::Json] {
                assert_eq!(
                    decide(false, yes, false, is_tty, format),
                    PruneGate::Proceed,
                    "single-project prune must not gain friction (yes={}, tty={})",
                    yes,
                    is_tty
                );
                assert_eq!(decide(false, yes, true, is_tty, format), PruneGate::DryRunOnly);
            }
        }
    }
}
