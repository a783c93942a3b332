use pong_sim::broad_phase::{all_pairs, pong_candidate_pairs};
use pong_sim::game::{find_body, serve_direction, BallZone, GameObjectType, GameState};

fn arena_ids() -> Vec<&'static str> {
    vec!["wall_0", "wall_1", "wall_2", "wall_3", "paddle1", "paddle2", "ball"]
}

#[test]
fn game_state_new_starts_at_zero() {
    let g = GameState::new(4, 5, 6);
    assert_eq!((g.score_player1, g.score_player2), (0, 0));
    assert_eq!((g.paddle1_index, g.paddle2_index, g.ball_index), (4, 5, 6));
}

#[test]
fn game_state_locates_named_bodies() {
    let g = GameState::locate(&arena_ids());
    assert_eq!((g.paddle1_index, g.paddle2_index, g.ball_index), (4, 5, 6));
}

#[test]
fn game_state_falls_back_to_first_indices() {
    let g = GameState::locate(&["a", "b", "c"]);
    assert_eq!((g.paddle1_index, g.paddle2_index, g.ball_index), (0, 1, 2));
    let g = GameState::locate(&["ball_2", "ball", "ball"]);
    assert_eq!(g.ball_index, 1);
}

#[test]
fn scoring_awards_the_right_player() {
    let mut g = GameState::new(0, 1, 2);
    assert_eq!(g.check_scoring(BallZone::Field), None);
    assert_eq!((g.score_player1, g.score_player2), (0, 0));
    assert_eq!(g.check_scoring(BallZone::LeftGoal), Some(2));
    assert_eq!((g.score_player1, g.score_player2), (0, 1));
    assert_eq!(g.check_scoring(BallZone::RightGoal), Some(1));
    assert_eq!((g.score_player1, g.score_player2), (1, 1));
}

#[test]
fn scoring_holds_at_the_largest_count() {
    let mut g = GameState::new(0, 1, 2);
    g.score_player1 = u32::MAX;
    assert_eq!(g.check_scoring(BallZone::RightGoal), Some(1));
    assert_eq!(g.score_player1, u32::MAX);
}

#[test]
fn serve_goes_toward_the_player_who_did_not_score() {
    assert_eq!(serve_direction(1), -1);
    assert_eq!(serve_direction(2), 1);
}

#[test]
fn roles_come_from_identifier_prefixes() {
    assert_eq!(GameObjectType::of_id("ball"), Some(GameObjectType::Ball));
    assert_eq!(GameObjectType::of_id("paddle2"), Some(GameObjectType::Paddle));
    assert_eq!(GameObjectType::of_id("wall_3"), Some(GameObjectType::Wall));
    assert_eq!(GameObjectType::of_id("bal"), None);
    assert_eq!(GameObjectType::of_id("floor"), None);
}

#[test]
fn find_body_returns_first_match_or_nothing() {
    let ids = arena_ids();
    assert_eq!(find_body(&ids, "paddle2"), Some(5));
    assert_eq!(find_body(&ids, "paddle"), None);
    assert_eq!(find_body(&["x", "y", "x"], "x"), Some(0));
    assert_eq!(find_body(&[], "x"), None);
}

#[test]
fn general_broad_phase_lists_every_pair_once() {
    assert_eq!(
        all_pairs(4),
        vec![(0, 1), (0, 2), (0, 3), (1, 2), (1, 3), (2, 3)]
    );
    assert!(all_pairs(0).is_empty());
    assert!(all_pairs(1).is_empty());
    assert_eq!(all_pairs(100).len(), 100 * 99 / 2);
}

#[test]
fn game_broad_phase_skips_wall_wall_and_paddle_paddle() {
    let kinds: Vec<_> = arena_ids().iter().map(|id| GameObjectType::of_id(id)).collect();
    let pairs = pong_candidate_pairs(&kinds);
    assert_eq!(
        pairs,
        vec![
            (4, 0), (4, 1), (4, 2), (4, 3),
            (5, 0), (5, 1), (5, 2), (5, 3),
            (6, 0), (6, 1), (6, 2), (6, 3), (6, 4), (6, 5),
        ]
    );
}

#[test]
fn game_broad_phase_ignores_bodies_without_a_role() {
    let kinds = vec![None, Some(GameObjectType::Ball), None, Some(GameObjectType::Ball)];
    assert!(pong_candidate_pairs(&kinds).is_empty());
}
