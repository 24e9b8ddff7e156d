use chicken_core::ai::facing::Facing;
use chicken_core::ai::movement::{process_actions, retain_live, to_directive, Action, ActionRequest, Directive};

fn move_request(entity: u64, priority: i32, to: (i32, i32)) -> ActionRequest {
    ActionRequest { entity, action: Action::Move { from: (4, 4), to, jumping: false }, priority }
}

fn attack_request(entity: u64, priority: i32, target: u64) -> ActionRequest {
    ActionRequest {
        entity,
        action: Action::WantsToAttack { from: (4, 4), to: (5, 4), target },
        priority,
    }
}

#[test]
fn higher_priority_wins_regardless_of_order() {
    let low = move_request(1, 3, (5, 4));
    let high = move_request(1, 7, (3, 4));
    let first = process_actions(&vec![low, high]);
    assert_eq!(first.len(), 1);
    assert_eq!(first[0], high);
    let second = process_actions(&vec![high, low]);
    assert_eq!(second.len(), 1);
    assert_eq!(second[0], high);
}

#[test]
fn attack_preempts_move_in_one_cycle() {
    let attack = attack_request(9, 5, 2);
    let step = move_request(9, 1, (4, 5));
    let winners = process_actions(&vec![attack, step]);
    assert_eq!(winners.len(), 1);
    assert_eq!(winners[0], attack);
    let winners = process_actions(&vec![step, attack]);
    assert_eq!(winners.len(), 1);
    assert_eq!(winners[0], attack);
}

#[test]
fn equal_priorities_keep_the_first_request() {
    let first = move_request(1, 2, (5, 4));
    let second = move_request(1, 2, (3, 4));
    let winners = process_actions(&vec![first, second]);
    assert_eq!(winners.len(), 1);
    assert_eq!(winners[0], first);
}

#[test]
fn entities_are_resolved_independently() {
    let a_low = move_request(1, 1, (5, 4));
    let a_high = move_request(1, 4, (3, 4));
    let b_only = move_request(2, 1, (4, 3));
    let winners = process_actions(&vec![a_low, b_only, a_high]);
    assert_eq!(winners.len(), 2);
    assert!(winners.contains(&a_high));
    assert!(winners.contains(&b_only));
    assert!(!winners.contains(&a_low));
}

#[test]
fn three_requests_resolve_to_the_highest() {
    let r3 = move_request(1, 3, (5, 4));
    let r7 = move_request(1, 7, (3, 4));
    let r5 = move_request(1, 5, (4, 3));
    let winners = process_actions(&vec![r3, r7, r5]);
    assert_eq!(winners, vec![r7]);
}

#[test]
fn move_directive_carries_delta_facing() {
    let right = to_directive(&move_request(1, 1, (5, 4)));
    assert_eq!(
        right,
        Directive::Move { start: (4, 4), end: (5, 4), jumping: false, facing: Facing::Right },
    );
    let up = to_directive(&move_request(1, 1, (4, 3)));
    assert!(matches!(up, Directive::Move { facing: Facing::Up, .. }));
    let down = to_directive(&move_request(1, 1, (4, 5)));
    assert!(matches!(down, Directive::Move { facing: Facing::Down, .. }));
    // A motionless move keeps the fixed default facing.
    let still = to_directive(&move_request(1, 1, (4, 4)));
    assert!(matches!(still, Directive::Move { facing: Facing::Left, .. }));
}

#[test]
fn attack_directive_names_the_target() {
    let d = to_directive(&attack_request(9, 5, 2));
    assert_eq!(d, Directive::Attack { target: 2, start: (4, 4), end: (5, 4) });
}

#[test]
fn facing_sprite_rows_are_fixed() {
    assert_eq!(Facing::Left.index(), 0);
    assert_eq!(Facing::Right.index(), 1);
    assert_eq!(Facing::Up.index(), 2);
    assert_eq!(Facing::Down.index(), 3);
}

#[test]
fn stale_requests_for_despawned_entities_are_dropped() {
    let dead = move_request(4, 2, (5, 4));
    let alive = move_request(1, 2, (3, 4));
    let kept = retain_live(&vec![dead, alive], &vec![1, 2]);
    assert_eq!(kept, vec![alive]);
    let none_alive = retain_live(&vec![dead, alive], &vec![9]);
    assert!(none_alive.is_empty());
}
