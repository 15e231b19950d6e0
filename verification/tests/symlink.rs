use dotman::symlink::{decide, Conflict, DestState, LinkAction, Obstacle};

const TARGET: &str = "/home/u/dotfiles/vimrc";

fn linked(path: &str) -> DestState {
    DestState::Symlink { resolved: Some(path.to_string()) }
}

fn broken() -> DestState {
    DestState::Symlink { resolved: None }
}

/// The destination after the action has been carried out.
fn after(action: LinkAction, dest: DestState) -> DestState {
    if action.mutates() {
        linked(TARGET)
    } else {
        dest
    }
}

fn all_states() -> Vec<DestState> {
    vec![
        DestState::Missing,
        linked(TARGET),
        linked("/somewhere/else"),
        broken(),
        DestState::File,
        DestState::Directory,
    ]
}

fn same(a: &DestState, b: &DestState) -> bool {
    match (a, b) {
        (DestState::Missing, DestState::Missing) => true,
        (DestState::File, DestState::File) => true,
        (DestState::Directory, DestState::Directory) => true,
        (DestState::Symlink { resolved: x }, DestState::Symlink { resolved: y }) => x == y,
        _ => false,
    }
}

#[test]
fn a_missing_destination_is_created() {
    assert_eq!(decide(TARGET, &DestState::Missing, false), LinkAction::Create);
    assert_eq!(decide(TARGET, &DestState::Missing, true), LinkAction::Create);
}

#[test]
fn a_link_to_the_target_is_up_to_date() {
    assert_eq!(decide(TARGET, &linked(TARGET), false), LinkAction::UpToDate);
    assert_eq!(decide(TARGET, &linked(TARGET), true), LinkAction::UpToDate);
}

#[test]
fn a_link_elsewhere_is_a_conflict_unless_forced() {
    assert_eq!(
        decide(TARGET, &linked("/somewhere/else"), false),
        LinkAction::Skip(Conflict::LinkedElsewhere)
    );
    assert_eq!(
        decide(TARGET, &linked("/somewhere/else"), true),
        LinkAction::Replace(Obstacle::ForeignLink)
    );
}

#[test]
fn a_broken_link_is_always_replaced() {
    assert_eq!(decide(TARGET, &broken(), false), LinkAction::Replace(Obstacle::BrokenLink));
    assert_eq!(decide(TARGET, &broken(), true), LinkAction::Replace(Obstacle::BrokenLink));
}

#[test]
fn files_and_directories_are_conflicts_unless_forced() {
    assert_eq!(decide(TARGET, &DestState::File, false), LinkAction::Skip(Conflict::NotALink));
    assert_eq!(decide(TARGET, &DestState::Directory, false), LinkAction::Skip(Conflict::NotALink));
    assert_eq!(decide(TARGET, &DestState::File, true), LinkAction::Replace(Obstacle::File));
    assert_eq!(
        decide(TARGET, &DestState::Directory, true),
        LinkAction::Replace(Obstacle::Directory)
    );
}

#[test]
fn which_actions_mutate() {
    assert!(LinkAction::Create.mutates());
    assert!(LinkAction::Replace(Obstacle::File).mutates());
    assert!(!LinkAction::UpToDate.mutates());
    assert!(!LinkAction::Skip(Conflict::NotALink).mutates());
}

#[test]
fn a_second_run_changes_nothing() {
    for force in [false, true] {
        for state in all_states() {
            let first = decide(TARGET, &state, force);
            let then = after(first, state);
            let second = decide(TARGET, &then, force);
            assert!(!second.mutates());
            if !matches!(first, LinkAction::Skip(_)) {
                assert_eq!(second, LinkAction::UpToDate);
            } else {
                assert_eq!(second, first);
            }
        }
    }
}

#[test]
fn foreign_occupants_survive_without_force() {
    for state in [linked("/somewhere/else"), DestState::File, DestState::Directory] {
        let action = decide(TARGET, &state, false);
        assert!(!action.mutates());
        assert!(matches!(action, LinkAction::Skip(_)));
    }
}

#[test]
fn force_always_ends_in_a_link_to_the_target() {
    for state in all_states() {
        let action = decide(TARGET, &state, true);
        let then = after(action, state);
        assert!(same(&then, &linked(TARGET)));
    }
}

#[test]
fn broken_links_are_healed_with_and_without_force() {
    for force in [false, true] {
        let action = decide(TARGET, &broken(), force);
        assert!(same(&after(action, broken()), &linked(TARGET)));
    }
}
